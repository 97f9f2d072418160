//! Evaluation of constant expressions.
//!
//! An expression has a value at compile time when every operand that is
//! looked at has one: a number, or a name bound to a constant. Arithmetic
//! wraps as 32-bit two's complement does; a division by zero has no value.

use vstd::prelude::*;
use crate::ast::{
    AddExp,
    AddOp,
    ConstExp,
    EqExp,
    EqOp,
    Exp,
    LAndExp,
    LOrExp,
    LVal,
    MulExp,
    MulOp,
    PrimaryExp,
    RelExp,
    RelOp,
    UnaryExp,
    UnaryOp,
};
use crate::mem::scope::{lookup, Entry, Frame, Scope};

verus! {

/// 1 for true, 0 for false.
pub open spec fn truth(b: bool) -> i32 {
    if b {
        1
    } else {
        0
    }
}

/// The quotient, rounded toward zero; the one quotient that does not fit,
/// that of the least integer by -1, wraps to the least integer. None for a
/// zero divisor.
pub open spec fn quotient(l: i32, r: i32) -> Option<i32> {
    if r == 0 {
        None
    } else {
        match l.checked_div(r) {
            Some(q) => Some(q),
            None => Some(i32::MIN),
        }
    }
}

/// The remainder that goes with [`quotient`]; it has the sign of the
/// dividend. None for a zero divisor.
pub open spec fn remainder(l: i32, r: i32) -> Option<i32> {
    if r == 0 {
        None
    } else {
        match l.checked_rem(r) {
            Some(m) => Some(m),
            None => Some(0),
        }
    }
}

pub open spec fn apply_unary(op: UnaryOp, n: i32) -> i32 {
    match op {
        UnaryOp::Pos => n,
        UnaryOp::Neg => 0i32.wrapping_sub(n),
        UnaryOp::Not => truth(n == 0),
    }
}

pub open spec fn apply_mul(op: MulOp, l: i32, r: i32) -> Option<i32> {
    match op {
        MulOp::Mul => Some(l.wrapping_mul(r)),
        MulOp::Div => quotient(l, r),
        MulOp::Mod => remainder(l, r),
    }
}

pub open spec fn apply_add(op: AddOp, l: i32, r: i32) -> i32 {
    match op {
        AddOp::Add => l.wrapping_add(r),
        AddOp::Sub => l.wrapping_sub(r),
    }
}

pub open spec fn apply_rel(op: RelOp, l: i32, r: i32) -> i32 {
    match op {
        RelOp::Lt => truth(l < r),
        RelOp::Gt => truth(l > r),
        RelOp::Le => truth(l <= r),
        RelOp::Ge => truth(l >= r),
    }
}

pub open spec fn apply_eq(op: EqOp, l: i32, r: i32) -> i32 {
    match op {
        EqOp::Eq => truth(l == r),
        EqOp::Ne => truth(l != r),
    }
}

fn flag(b: bool) -> (n: i32)
    ensures
        n == truth(b),
{
    if b {
        1
    } else {
        0
    }
}

impl Exp {
    /// The value of the expression under the given bindings, if it has one.
    pub open spec fn eval(&self, frames: Seq<Frame>) -> Option<i32>
        decreases self,
    {
        self.lor.eval(frames)
    }

    pub fn evaluate(&self, scope: &Scope) -> (r: Option<i32>)
        ensures
            r == self.eval(scope.frames()),
        decreases self,
    {
        self.lor.evaluate(scope)
    }
}

impl ConstExp {
    pub open spec fn eval(&self, frames: Seq<Frame>) -> Option<i32> {
        self.exp.eval(frames)
    }

    pub fn evaluate(&self, scope: &Scope) -> (r: Option<i32>)
        ensures
            r == self.eval(scope.frames()),
    {
        self.exp.evaluate(scope)
    }
}

impl LVal {
    /// A name has a value when it is bound to a constant.
    pub open spec fn eval(&self, frames: Seq<Frame>) -> Option<i32> {
        match lookup(frames, self.id@) {
            Some(Entry::Const(n)) => Some(n),
            _ => None,
        }
    }

    pub fn evaluate(&self, scope: &Scope) -> (r: Option<i32>)
        ensures
            r == self.eval(scope.frames()),
    {
        match scope.get(&self.id) {
            Some(Entry::Const(n)) => Some(n),
            _ => None,
        }
    }
}

impl PrimaryExp {
    pub open spec fn eval(&self, frames: Seq<Frame>) -> Option<i32>
        decreases self,
    {
        match self {
            PrimaryExp::Exp(exp) => exp.eval(frames),
            PrimaryExp::LVal(lval) => lval.eval(frames),
            PrimaryExp::Num(n) => Some(*n),
        }
    }

    pub fn evaluate(&self, scope: &Scope) -> (r: Option<i32>)
        ensures
            r == self.eval(scope.frames()),
        decreases self,
    {
        match self {
            PrimaryExp::Exp(exp) => exp.evaluate(scope),
            PrimaryExp::LVal(lval) => lval.evaluate(scope),
            PrimaryExp::Num(n) => Some(*n),
        }
    }
}

impl UnaryExp {
    /// A call never has a value at compile time.
    pub open spec fn eval(&self, frames: Seq<Frame>) -> Option<i32>
        decreases self,
    {
        match self {
            UnaryExp::Primary(primary) => primary.eval(frames),
            UnaryExp::Call(_) => None,
            UnaryExp::Unary(op, operand) => match operand.eval(frames) {
                Some(n) => Some(apply_unary(*op, n)),
                None => None,
            },
        }
    }

    pub fn evaluate(&self, scope: &Scope) -> (r: Option<i32>)
        ensures
            r == self.eval(scope.frames()),
        decreases self,
    {
        match self {
            UnaryExp::Primary(primary) => primary.evaluate(scope),
            UnaryExp::Call(_) => None,
            UnaryExp::Unary(op, operand) => match operand.evaluate(scope) {
                Some(n) => Some(
                    match op {
                        UnaryOp::Pos => n,
                        UnaryOp::Neg => 0i32.wrapping_sub(n),
                        UnaryOp::Not => flag(n == 0),
                    },
                ),
                None => None,
            },
        }
    }
}

impl MulExp {
    pub open spec fn eval(&self, frames: Seq<Frame>) -> Option<i32>
        decreases self,
    {
        match self {
            MulExp::Unary(operand) => operand.eval(frames),
            MulExp::Mul(left, op, right) => match (left.eval(frames), right.eval(frames)) {
                (Some(l), Some(r)) => apply_mul(*op, l, r),
                _ => None,
            },
        }
    }

    pub fn evaluate(&self, scope: &Scope) -> (r: Option<i32>)
        ensures
            r == self.eval(scope.frames()),
        decreases self,
    {
        match self {
            MulExp::Unary(operand) => operand.evaluate(scope),
            MulExp::Mul(left, op, right) => {
                let l = match left.evaluate(scope) {
                    Some(l) => l,
                    None => {
                        return None;
                    },
                };
                let r = match right.evaluate(scope) {
                    Some(r) => r,
                    None => {
                        return None;
                    },
                };
                match op {
                    MulOp::Mul => Some(l.wrapping_mul(r)),
                    MulOp::Div => if r == 0 {
                        None
                    } else {
                        match l.checked_div(r) {
                            Some(q) => Some(q),
                            None => Some(i32::MIN),
                        }
                    },
                    MulOp::Mod => if r == 0 {
                        None
                    } else {
                        match l.checked_rem(r) {
                            Some(m) => Some(m),
                            None => Some(0),
                        }
                    },
                }
            },
        }
    }
}

impl AddExp {
    pub open spec fn eval(&self, frames: Seq<Frame>) -> Option<i32>
        decreases self,
    {
        match self {
            AddExp::Mul(operand) => operand.eval(frames),
            AddExp::Add(left, op, right) => match (left.eval(frames), right.eval(frames)) {
                (Some(l), Some(r)) => Some(apply_add(*op, l, r)),
                _ => None,
            },
        }
    }

    pub fn evaluate(&self, scope: &Scope) -> (r: Option<i32>)
        ensures
            r == self.eval(scope.frames()),
        decreases self,
    {
        match self {
            AddExp::Mul(operand) => operand.evaluate(scope),
            AddExp::Add(left, op, right) => {
                let l = match left.evaluate(scope) {
                    Some(l) => l,
                    None => {
                        return None;
                    },
                };
                let r = match right.evaluate(scope) {
                    Some(r) => r,
                    None => {
                        return None;
                    },
                };
                match op {
                    AddOp::Add => Some(l.wrapping_add(r)),
                    AddOp::Sub => Some(l.wrapping_sub(r)),
                }
            },
        }
    }
}

impl RelExp {
    pub open spec fn eval(&self, frames: Seq<Frame>) -> Option<i32>
        decreases self,
    {
        match self {
            RelExp::Add(operand) => operand.eval(frames),
            RelExp::Rel(left, op, right) => match (left.eval(frames), right.eval(frames)) {
                (Some(l), Some(r)) => Some(apply_rel(*op, l, r)),
                _ => None,
            },
        }
    }

    pub fn evaluate(&self, scope: &Scope) -> (r: Option<i32>)
        ensures
            r == self.eval(scope.frames()),
        decreases self,
    {
        match self {
            RelExp::Add(operand) => operand.evaluate(scope),
            RelExp::Rel(left, op, right) => {
                let l = match left.evaluate(scope) {
                    Some(l) => l,
                    None => {
                        return None;
                    },
                };
                let r = match right.evaluate(scope) {
                    Some(r) => r,
                    None => {
                        return None;
                    },
                };
                match op {
                    RelOp::Lt => Some(flag(l < r)),
                    RelOp::Gt => Some(flag(l > r)),
                    RelOp::Le => Some(flag(l <= r)),
                    RelOp::Ge => Some(flag(l >= r)),
                }
            },
        }
    }
}

impl EqExp {
    pub open spec fn eval(&self, frames: Seq<Frame>) -> Option<i32>
        decreases self,
    {
        match self {
            EqExp::Rel(operand) => operand.eval(frames),
            EqExp::Eq(left, op, right) => match (left.eval(frames), right.eval(frames)) {
                (Some(l), Some(r)) => Some(apply_eq(*op, l, r)),
                _ => None,
            },
        }
    }

    pub fn evaluate(&self, scope: &Scope) -> (r: Option<i32>)
        ensures
            r == self.eval(scope.frames()),
        decreases self,
    {
        match self {
            EqExp::Rel(operand) => operand.evaluate(scope),
            EqExp::Eq(left, op, right) => {
                let l = match left.evaluate(scope) {
                    Some(l) => l,
                    None => {
                        return None;
                    },
                };
                let r = match right.evaluate(scope) {
                    Some(r) => r,
                    None => {
                        return None;
                    },
                };
                match op {
                    EqOp::Eq => Some(flag(l == r)),
                    EqOp::Ne => Some(flag(l != r)),
                }
            },
        }
    }
}

impl LAndExp {
    /// A zero on the left decides the conjunction: the right side is not
    /// looked at.
    pub open spec fn eval(&self, frames: Seq<Frame>) -> Option<i32>
        decreases self,
    {
        match self {
            LAndExp::Eq(operand) => operand.eval(frames),
            LAndExp::LAnd(left, right) => match left.eval(frames) {
                Some(l) => if l == 0 {
                    Some(0)
                } else {
                    right.eval(frames)
                },
                None => None,
            },
        }
    }

    pub fn evaluate(&self, scope: &Scope) -> (r: Option<i32>)
        ensures
            r == self.eval(scope.frames()),
        decreases self,
    {
        match self {
            LAndExp::Eq(operand) => operand.evaluate(scope),
            LAndExp::LAnd(left, right) => match left.evaluate(scope) {
                Some(l) => if l == 0 {
                    Some(0)
                } else {
                    right.evaluate(scope)
                },
                None => None,
            },
        }
    }
}

impl LOrExp {
    /// A nonzero on the left decides the disjunction: the right side is not
    /// looked at.
    pub open spec fn eval(&self, frames: Seq<Frame>) -> Option<i32>
        decreases self,
    {
        match self {
            LOrExp::LAnd(operand) => operand.eval(frames),
            LOrExp::LOr(left, right) => match left.eval(frames) {
                Some(l) => if l != 0 {
                    Some(1)
                } else {
                    right.eval(frames)
                },
                None => None,
            },
        }
    }

    pub fn evaluate(&self, scope: &Scope) -> (r: Option<i32>)
        ensures
            r == self.eval(scope.frames()),
        decreases self,
    {
        match self {
            LOrExp::LAnd(operand) => operand.evaluate(scope),
            LOrExp::LOr(left, right) => match left.evaluate(scope) {
                Some(l) => if l != 0 {
                    Some(1)
                } else {
                    right.evaluate(scope)
                },
                None => None,
            },
        }
    }
}

} // verus!

//! Lowering of the binary operators of arithmetic and comparison.

use vstd::prelude::*;
use crate::ast::{AddExp, AddOp, EqExp, EqOp, MulExp, MulOp, RelExp, RelOp};
use crate::mem::create::{fold, lowered};
use crate::mem::emit::{emit_binary, ready, Error};
use crate::mem::info::Info;
use crate::mem::owed::came;
use crate::mem::rules::{
    add_op,
    eq_op,
    follows,
    mul_op,
    one,
    rel_op,
    runs_none,
    runs_on,
    state,
    Step,
};
use crate::mem::scope::Scope;
use crate::program::entities::{BinOp, Prog, Val};

verus! {

impl MulExp {
    pub fn create(&self, program: &mut Prog, scope: &mut Scope, info: &mut Info) -> (r: Result<
        Val,
        Error,
    >)
        requires
            ready(old(program), old(scope), old(info)),
        ensures
            lowered(
                r,
                self.eval(old(scope).frames()),
                final(program),
                final(scope),
                final(info),
                old(program),
                old(scope),
                old(info),
            ),
            r matches Ok(v) ==> self.lowers(
                state(old(program), old(scope), old(info)),
                state(final(program), final(scope), final(info)),
                v,
            ),
            self.sure(state(old(program), old(scope), old(info))) ==> r is Ok,
        decreases self,
    {
        let ghost a = state(program, scope, info);
        match self.evaluate(scope) {
            Some(n) => {
                return fold(program, scope, info, n);
            },
            None => {},
        }
        if scope.is_global() {
            return Err(Error::NotConstant);
        }
        match self {
            MulExp::Unary(operand) => operand.create(program, scope, info),
            MulExp::Mul(left, op, right) => {
                let lhs = left.create(program, scope, info)?;
                let ghost m1 = state(program, scope, info);
                proof {
                    assert(came(m1, lhs));
                }
                let rhs = right.create(program, scope, info)?;
                let ghost m2 = state(program, scope, info);
                proof {
                    assert(came(m2, rhs));
                }
                let code = match op {
                    MulOp::Mul => BinOp::Mul,
                    MulOp::Div => BinOp::Div,
                    MulOp::Mod => BinOp::Mod,
                };
                let v = emit_binary(program, scope, info, code, lhs, rhs)?;
                proof {
                    let b = state(program, scope, info);
                    runs_none(m2);
                    runs_on(m2, Seq::empty(), m2, Step::Binary(mul_op(*op), lhs, rhs), b);
                    assert(one(m2, Step::Binary(mul_op(*op), lhs, rhs), b));
                    assert(follows(m1, a));
                    assert(self.lowers(a, b, v));
                }
                Ok(v)
            },
        }
    }
}

impl AddExp {
    pub fn create(&self, program: &mut Prog, scope: &mut Scope, info: &mut Info) -> (r: Result<
        Val,
        Error,
    >)
        requires
            ready(old(program), old(scope), old(info)),
        ensures
            lowered(
                r,
                self.eval(old(scope).frames()),
                final(program),
                final(scope),
                final(info),
                old(program),
                old(scope),
                old(info),
            ),
            r matches Ok(v) ==> self.lowers(
                state(old(program), old(scope), old(info)),
                state(final(program), final(scope), final(info)),
                v,
            ),
            self.sure(state(old(program), old(scope), old(info))) ==> r is Ok,
        decreases self,
    {
        let ghost a = state(program, scope, info);
        match self.evaluate(scope) {
            Some(n) => {
                return fold(program, scope, info, n);
            },
            None => {},
        }
        if scope.is_global() {
            return Err(Error::NotConstant);
        }
        match self {
            AddExp::Mul(operand) => operand.create(program, scope, info),
            AddExp::Add(left, op, right) => {
                let lhs = left.create(program, scope, info)?;
                let ghost m1 = state(program, scope, info);
                proof {
                    assert(came(m1, lhs));
                }
                let rhs = right.create(program, scope, info)?;
                let ghost m2 = state(program, scope, info);
                proof {
                    assert(came(m2, rhs));
                }
                let code = match op {
                    AddOp::Add => BinOp::Add,
                    AddOp::Sub => BinOp::Sub,
                };
                let v = emit_binary(program, scope, info, code, lhs, rhs)?;
                proof {
                    let b = state(program, scope, info);
                    runs_none(m2);
                    runs_on(m2, Seq::empty(), m2, Step::Binary(add_op(*op), lhs, rhs), b);
                    assert(one(m2, Step::Binary(add_op(*op), lhs, rhs), b));
                    assert(follows(m1, a));
                    assert(self.lowers(a, b, v));
                }
                Ok(v)
            },
        }
    }
}

impl RelExp {
    pub fn create(&self, program: &mut Prog, scope: &mut Scope, info: &mut Info) -> (r: Result<
        Val,
        Error,
    >)
        requires
            ready(old(program), old(scope), old(info)),
        ensures
            lowered(
                r,
                self.eval(old(scope).frames()),
                final(program),
                final(scope),
                final(info),
                old(program),
                old(scope),
                old(info),
            ),
            r matches Ok(v) ==> self.lowers(
                state(old(program), old(scope), old(info)),
                state(final(program), final(scope), final(info)),
                v,
            ),
            self.sure(state(old(program), old(scope), old(info))) ==> r is Ok,
        decreases self,
    {
        let ghost a = state(program, scope, info);
        match self.evaluate(scope) {
            Some(n) => {
                return fold(program, scope, info, n);
            },
            None => {},
        }
        if scope.is_global() {
            return Err(Error::NotConstant);
        }
        match self {
            RelExp::Add(operand) => operand.create(program, scope, info),
            RelExp::Rel(left, op, right) => {
                let lhs = left.create(program, scope, info)?;
                let ghost m1 = state(program, scope, info);
                proof {
                    assert(came(m1, lhs));
                }
                let rhs = right.create(program, scope, info)?;
                let ghost m2 = state(program, scope, info);
                proof {
                    assert(came(m2, rhs));
                }
                let code = match op {
                    RelOp::Lt => BinOp::Lt,
                    RelOp::Gt => BinOp::Gt,
                    RelOp::Le => BinOp::Le,
                    RelOp::Ge => BinOp::Ge,
                };
                let v = emit_binary(program, scope, info, code, lhs, rhs)?;
                proof {
                    let b = state(program, scope, info);
                    runs_none(m2);
                    runs_on(m2, Seq::empty(), m2, Step::Binary(rel_op(*op), lhs, rhs), b);
                    assert(one(m2, Step::Binary(rel_op(*op), lhs, rhs), b));
                    assert(follows(m1, a));
                    assert(self.lowers(a, b, v));
                }
                Ok(v)
            },
        }
    }
}

impl EqExp {
    pub fn create(&self, program: &mut Prog, scope: &mut Scope, info: &mut Info) -> (r: Result<
        Val,
        Error,
    >)
        requires
            ready(old(program), old(scope), old(info)),
        ensures
            lowered(
                r,
                self.eval(old(scope).frames()),
                final(program),
                final(scope),
                final(info),
                old(program),
                old(scope),
                old(info),
            ),
            r matches Ok(v) ==> self.lowers(
                state(old(program), old(scope), old(info)),
                state(final(program), final(scope), final(info)),
                v,
            ),
            self.sure(state(old(program), old(scope), old(info))) ==> r is Ok,
        decreases self,
    {
        let ghost a = state(program, scope, info);
        match self.evaluate(scope) {
            Some(n) => {
                return fold(program, scope, info, n);
            },
            None => {},
        }
        if scope.is_global() {
            return Err(Error::NotConstant);
        }
        match self {
            EqExp::Rel(operand) => operand.create(program, scope, info),
            EqExp::Eq(left, op, right) => {
                let lhs = left.create(program, scope, info)?;
                let ghost m1 = state(program, scope, info);
                proof {
                    assert(came(m1, lhs));
                }
                let rhs = right.create(program, scope, info)?;
                let ghost m2 = state(program, scope, info);
                proof {
                    assert(came(m2, rhs));
                }
                let code = match op {
                    EqOp::Eq => BinOp::Eq,
                    EqOp::Ne => BinOp::NotEq,
                };
                let v = emit_binary(program, scope, info, code, lhs, rhs)?;
                proof {
                    let b = state(program, scope, info);
                    runs_none(m2);
                    runs_on(m2, Seq::empty(), m2, Step::Binary(eq_op(*op), lhs, rhs), b);
                    assert(one(m2, Step::Binary(eq_op(*op), lhs, rhs), b));
                    assert(follows(m1, a));
                    assert(self.lowers(a, b, v));
                }
                Ok(v)
            },
        }
    }
}

} // verus!

//! When lowering is owed.
//!
//! `node.sure(a)` says that lowering the node in the state `a` cannot be
//! refused: every part is sure in whatever state the rules let the parts
//! before it lead to, and every step can be taken there. Lowering a node
//! that is sure succeeds.

use vstd::prelude::*;
use crate::ast::{
    AddExp,
    Assign,
    Block,
    BlockItem,
    Call,
    EqExp,
    Exp,
    If,
    LAndExp,
    LOrExp,
    LVal,
    MulExp,
    PrimaryExp,
    RelExp,
    Return,
    Stmt,
    UnaryExp,
    While,
};
use crate::mem::create::{access_of, Access};
use crate::mem::rules::{
    able,
    add_op,
    args_lower,
    arm_script,
    body_script,
    close_script,
    eq_op,
    if_script,
    index_step,
    indices_lower,
    items_lower,
    mul_op,
    one,
    open_script,
    rel_op,
    runs,
    script_sure,
    while_script,
    State,
    Step,
};
use crate::mem::scope::{find_func, lookup, Entry};
use crate::program::entities::{BinOp, Val};

verus! {

/// Lowering has come to the state `m` with the value `v`.
pub open spec fn came(m: State, v: Val) -> bool {
    true
}

/// Lowering has come to the state `m`.
pub open spec fn was(m: State) -> bool {
    true
}

/// Lowering has come to the state `m` with the values `outs`, before the
/// part numbered `k`.
pub open spec fn came_to(k: nat, m: State, outs: Seq<Val>) -> bool {
    true
}

/// The zero index that decays a sub-array can be made and used: in the
/// state `m`, after the pointer `at`.
pub open spec fn decay_sure(m: State, at: Val) -> bool {
    forall|m1: State| #[trigger]
        one(m, Step::Integer(0), m1) ==> able(m1, Step::Index(at, m.next(), true))
}

/// Every index of an l-value is sure where the rules let the indices
/// before it lead, and so is the step by it.
pub open spec fn indices_sure(dims: Vec<Exp>, a: State, src: Val, through_pointer: bool) -> bool
    decreases dims,
{
    forall|k: nat, m1: State, mid: Val|
        k < dims.len() && #[trigger] came_to(k, m1, seq![mid]) && indices_lower(
            dims,
            k,
            a,
            m1,
            src,
            mid,
            through_pointer,
        ) ==> {
            &&& dims[k as int].sure(m1)
            &&& forall|m2: State, index: Val| #[trigger]
                came(m2, index) && dims[k as int].lowers(m1, m2, index) ==> able(
                    m2,
                    index_step(mid, index, through_pointer, k + 1),
                )
        }
}

/// Every argument of a call is sure where the rules let the arguments
/// before it lead.
pub open spec fn args_sure(args: Vec<Exp>, a: State) -> bool
    decreases args,
{
    forall|k: nat, m: State, outs: Seq<Val>|
        k < args.len() && #[trigger] came_to(k, m, outs) && args_lower(args, k, a, m, outs)
            ==> args[k as int].sure(m)
}

impl LVal {
    /// A name bound to a constant can always be read. A name bound to a
    /// variable can be read inside a function when the access is one that
    /// the type of the variable and the number of indices make, the
    /// indices are sure, and each load and step can be taken.
    pub open spec fn sure(&self, a: State) -> bool
        decreases self,
    {
        let n = self.dims.len() as nat;
        match lookup(a.scope.frames(), self.id@) {
            Some(Entry::Const(_)) => true,
            Some(Entry::Value(var)) => a.scope.cur_func is Some && match access_of(
                a.program.ty(var),
                n,
            ) {
                Some(Access::Scalar) => able(a, Step::Load(var)),
                Some(Access::Element) => {
                    &&& indices_sure(self.dims, a, var, false)
                    &&& forall|m: State, at: Val| #[trigger]
                        came(m, at) && indices_lower(self.dims, n, a, m, var, at, false) ==> able(
                            m,
                            Step::Load(at),
                        )
                },
                Some(Access::Slice) => {
                    &&& indices_sure(self.dims, a, var, false)
                    &&& forall|m: State, at: Val| #[trigger]
                        came(m, at) && indices_lower(self.dims, n, a, m, var, at, false)
                            ==> decay_sure(m, at)
                },
                Some(Access::PointerElement) => {
                    &&& able(a, Step::Load(var))
                    &&& forall|m1: State| #[trigger]
                        one(a, Step::Load(var), m1) ==> {
                            &&& indices_sure(self.dims, m1, a.next(), true)
                            &&& forall|m2: State, at: Val| #[trigger]
                                came(m2, at) && indices_lower(
                                    self.dims,
                                    n,
                                    m1,
                                    m2,
                                    a.next(),
                                    at,
                                    true,
                                ) ==> able(m2, Step::Load(at))
                        }
                },
                Some(Access::PointerSlice) => {
                    &&& able(a, Step::Load(var))
                    &&& forall|m1: State| #[trigger]
                        one(a, Step::Load(var), m1) ==> {
                            &&& indices_sure(self.dims, m1, a.next(), true)
                            &&& n > 0 ==> forall|m2: State, at: Val| #[trigger]
                                came(m2, at) && indices_lower(
                                    self.dims,
                                    n,
                                    m1,
                                    m2,
                                    a.next(),
                                    at,
                                    true,
                                ) ==> decay_sure(m2, at)
                        }
                },
                None => false,
            },
            None => false,
        }
    }
}

impl Call {
    /// A call is sure inside a function when its arguments are, the name
    /// stands for a function, and the arguments fit its parameters.
    pub open spec fn sure(&self, a: State) -> bool
        decreases self,
    {
        &&& a.scope.cur_func is Some
        &&& args_sure(self.args, a)
        &&& forall|m: State, outs: Seq<Val>| #[trigger]
            came_to(self.args.len() as nat, m, outs) && args_lower(
                self.args,
                self.args.len() as nat,
                a,
                m,
                outs,
            ) ==> (find_func(m.scope.table(), self.id@) matches Some(f) && able(
                m,
                Step::Call(f, outs),
            ))
    }
}

impl PrimaryExp {
    pub open spec fn sure(&self, a: State) -> bool
        decreases self,
    {
        match self {
            PrimaryExp::Exp(e) => e.sure(a),
            PrimaryExp::LVal(l) => l.sure(a),
            PrimaryExp::Num(_) => true,
        }
    }
}

impl UnaryExp {
    /// An expression with a value is sure. Otherwise, inside a function,
    /// the operand must be sure and the operation on it must be possible.
    pub open spec fn sure(&self, a: State) -> bool
        decreases self,
    {
        self.eval(a.scope.frames()) is Some || (a.scope.cur_func is Some && match self {
            UnaryExp::Primary(p) => p.sure(a),
            UnaryExp::Call(c) => c.sure(a),
            UnaryExp::Unary(op, operand) => {
                &&& operand.sure(a)
                &&& !(*op is Pos) ==> forall|m: State, y: Val| #[trigger]
                    came(m, y) && operand.lowers(a, m, y) ==> forall|m1: State| #[trigger]
                        one(m, Step::Integer(0), m1) ==> able(
                            m1,
                            Step::Binary(
                                if *op is Neg {
                                    BinOp::Sub
                                } else {
                                    BinOp::Eq
                                },
                                m.next(),
                                y,
                            ),
                        )
            },
        })
    }
}

impl MulExp {
    /// An expression with a value is sure. Otherwise, inside a function,
    /// both sides must be sure and the operation on them possible.
    pub open spec fn sure(&self, a: State) -> bool
        decreases self,
    {
        self.eval(a.scope.frames()) is Some || (a.scope.cur_func is Some && match self {
            MulExp::Unary(operand) => operand.sure(a),
            MulExp::Mul(left, op, right) => {
                &&& left.sure(a)
                &&& forall|m1: State, x: Val| #[trigger]
                    came(m1, x) && left.lowers(a, m1, x) ==> {
                        &&& right.sure(m1)
                        &&& forall|m2: State, y: Val| #[trigger]
                            came(m2, y) && right.lowers(m1, m2, y) ==> able(
                                m2,
                                Step::Binary(mul_op(*op), x, y),
                            )
                    }
            },
        })
    }
}

impl AddExp {
    /// As for the multiplicative operators.
    pub open spec fn sure(&self, a: State) -> bool
        decreases self,
    {
        self.eval(a.scope.frames()) is Some || (a.scope.cur_func is Some && match self {
            AddExp::Mul(operand) => operand.sure(a),
            AddExp::Add(left, op, right) => {
                &&& left.sure(a)
                &&& forall|m1: State, x: Val| #[trigger]
                    came(m1, x) && left.lowers(a, m1, x) ==> {
                        &&& right.sure(m1)
                        &&& forall|m2: State, y: Val| #[trigger]
                            came(m2, y) && right.lowers(m1, m2, y) ==> able(
                                m2,
                                Step::Binary(add_op(*op), x, y),
                            )
                    }
            },
        })
    }
}

impl RelExp {
    /// As for the multiplicative operators.
    pub open spec fn sure(&self, a: State) -> bool
        decreases self,
    {
        self.eval(a.scope.frames()) is Some || (a.scope.cur_func is Some && match self {
            RelExp::Add(operand) => operand.sure(a),
            RelExp::Rel(left, op, right) => {
                &&& left.sure(a)
                &&& forall|m1: State, x: Val| #[trigger]
                    came(m1, x) && left.lowers(a, m1, x) ==> {
                        &&& right.sure(m1)
                        &&& forall|m2: State, y: Val| #[trigger]
                            came(m2, y) && right.lowers(m1, m2, y) ==> able(
                                m2,
                                Step::Binary(rel_op(*op), x, y),
                            )
                    }
            },
        })
    }
}

impl EqExp {
    /// As for the multiplicative operators.
    pub open spec fn sure(&self, a: State) -> bool
        decreases self,
    {
        self.eval(a.scope.frames()) is Some || (a.scope.cur_func is Some && match self {
            EqExp::Rel(operand) => operand.sure(a),
            EqExp::Eq(left, op, right) => {
                &&& left.sure(a)
                &&& forall|m1: State, x: Val| #[trigger]
                    came(m1, x) && left.lowers(a, m1, x) ==> {
                        &&& right.sure(m1)
                        &&& forall|m2: State, y: Val| #[trigger]
                            came(m2, y) && right.lowers(m1, m2, y) ==> able(
                                m2,
                                Step::Binary(eq_op(*op), x, y),
                            )
                    }
            },
        })
    }
}

impl LAndExp {
    /// An expression with a value is sure. Otherwise, inside a function,
    /// the left side must be sure, the opening of the operator possible
    /// after it, the right side sure after that, and the closing possible.
    pub open spec fn sure(&self, a: State) -> bool
        decreases self,
    {
        self.eval(a.scope.frames()) is Some || (a.scope.cur_func is Some && match self {
            LAndExp::Eq(operand) => operand.sure(a),
            LAndExp::LAnd(left, right) => {
                &&& left.sure(a)
                &&& forall|m1: State, x: Val| #[trigger]
                    came(m1, x) && left.lowers(a, m1, x) ==> {
                        &&& script_sure(m1, open_script(m1, true, x))
                        &&& forall|m2: State| #[trigger]
                            runs(m1, open_script(m1, true, x), m2) ==> {
                                &&& right.sure(m2)
                                &&& forall|m3: State, y: Val| #[trigger]
                                    came(m3, y) && right.lowers(m2, m3, y) ==> script_sure(
                                        m3,
                                        close_script(m3, y, m1.nth(0), m1.nth(1), m1.nth_bb(1)),
                                    )
                            }
                    }
            },
        })
    }
}

impl LOrExp {
    /// As for `&&`.
    pub open spec fn sure(&self, a: State) -> bool
        decreases self,
    {
        self.eval(a.scope.frames()) is Some || (a.scope.cur_func is Some && match self {
            LOrExp::LAnd(operand) => operand.sure(a),
            LOrExp::LOr(left, right) => {
                &&& left.sure(a)
                &&& forall|m1: State, x: Val| #[trigger]
                    came(m1, x) && left.lowers(a, m1, x) ==> {
                        &&& script_sure(m1, open_script(m1, false, x))
                        &&& forall|m2: State| #[trigger]
                            runs(m1, open_script(m1, false, x), m2) ==> {
                                &&& right.sure(m2)
                                &&& forall|m3: State, y: Val| #[trigger]
                                    came(m3, y) && right.lowers(m2, m3, y) ==> script_sure(
                                        m3,
                                        close_script(m3, y, m1.nth(0), m1.nth(1), m1.nth_bb(1)),
                                    )
                            }
                    }
            },
        })
    }
}

impl Exp {
    pub open spec fn sure(&self, a: State) -> bool
        decreases self,
    {
        self.lor.sure(a)
    }
}

/// Every item of a block is sure where the rules let the items before it
/// lead.
pub open spec fn items_sure(items: Vec<BlockItem>, a: State) -> bool
    decreases items,
{
    forall|k: nat, m: State|
        k < items.len() && #[trigger] came_to(k, m, Seq::empty()) && items_lower(items, k, a, m)
            ==> items[k as int].sure(m)
}

impl Return {
    /// `return;` is sure inside a function. `return e;` is sure when `e` is
    /// and its value can be returned.
    pub open spec fn sure(&self, a: State) -> bool {
        match self.exp {
            None => able(a, Step::Ret(None)),
            Some(e) => {
                &&& e.sure(a)
                &&& forall|m: State, x: Val| #[trigger]
                    came(m, x) && e.lowers(a, m, x) ==> able(m, Step::Ret(Some(x)))
            },
        }
    }
}

impl Assign {
    /// An assignment is sure when the name stands for a variable, the place
    /// is a scalar or an element, the right side and the indices are sure,
    /// and the value can be stored in the place.
    pub open spec fn sure(&self, a: State) -> bool {
        let n = self.lval.dims.len() as nat;
        match lookup(a.scope.frames(), self.lval.id@) {
            Some(Entry::Value(var)) => match access_of(a.program.ty(var), n) {
                Some(Access::Scalar) => {
                    &&& self.exp.sure(a)
                    &&& forall|m: State, x: Val| #[trigger]
                        came(m, x) && self.exp.lowers(a, m, x) ==> able(m, Step::Store(x, var))
                },
                Some(Access::Element) => {
                    &&& self.exp.sure(a)
                    &&& forall|m1: State, x: Val| #[trigger]
                        came(m1, x) && self.exp.lowers(a, m1, x) ==> {
                            &&& indices_sure(self.lval.dims, m1, var, false)
                            &&& forall|m2: State, at: Val| #[trigger]
                                came(m2, at) && indices_lower(
                                    self.lval.dims,
                                    n,
                                    m1,
                                    m2,
                                    var,
                                    at,
                                    false,
                                ) ==> able(m2, Step::Store(x, at))
                        }
                },
                Some(Access::PointerElement) => {
                    &&& self.exp.sure(a)
                    &&& forall|m1: State, x: Val| #[trigger]
                        came(m1, x) && self.exp.lowers(a, m1, x) ==> {
                            &&& able(m1, Step::Load(var))
                            &&& forall|m2: State| #[trigger]
                                one(m1, Step::Load(var), m2) ==> {
                                    &&& indices_sure(self.lval.dims, m2, m1.next(), true)
                                    &&& forall|m3: State, at: Val| #[trigger]
                                        came(m3, at) && indices_lower(
                                            self.lval.dims,
                                            n,
                                            m2,
                                            m3,
                                            m1.next(),
                                            at,
                                            true,
                                        ) ==> able(m3, Step::Store(x, at))
                                }
                        }
                },
                _ => false,
            },
            _ => false,
        }
    }
}

impl If {
    /// An `if` is sure inside a function when its condition is, its head
    /// can be made after it, and each arm is sure where the rules let what
    /// stands before it lead.
    pub open spec fn sure(&self, a: State) -> bool
        decreases self,
    {
        match *self {
            If { cond, then: first, els } => {
                &&& a.scope.cur_func is Some
                &&& cond.sure(a)
                &&& forall|m1: State, c: Val| #[trigger]
                    came(m1, c) && cond.lowers(a, m1, c) ==> {
                        &&& script_sure(m1, if_script(m1, c, els is Some))
                        &&& forall|m2: State| #[trigger]
                            runs(m1, if_script(m1, c, els is Some), m2) ==> {
                                &&& first.sure(m2)
                                &&& els matches Some(t) ==> forall|m3: State, m4: State| #[trigger]
                                    runs(m3, arm_script(m1.nth_bb(2), m1.nth_bb(1)), m4)
                                        && first.lowers(m2, m3) ==> t.sure(m4)
                            }
                    }
            },
        }
    }
}

impl While {
    /// A loop is sure inside a function when its head can be made, its
    /// condition is sure after it, the way into the body can be made, and
    /// the body is sure there.
    pub open spec fn sure(&self, a: State) -> bool
        decreases self,
    {
        &&& a.scope.cur_func is Some
        &&& script_sure(a, while_script(a))
        &&& forall|m1: State| #[trigger]
            runs(a, while_script(a), m1) ==> {
                &&& self.cond.sure(m1)
                &&& forall|m2: State, c: Val| #[trigger]
                    came(m2, c) && self.cond.lowers(m1, m2, c) ==> {
                        &&& script_sure(
                            m2,
                            body_script(c, a.nth_bb(0), a.nth_bb(1), a.nth_bb(2)),
                        )
                        &&& forall|m3: State| #[trigger]
                            runs(m2, body_script(c, a.nth_bb(0), a.nth_bb(1), a.nth_bb(2)), m3)
                                ==> self.body.sure(m3)
                    }
            }
    }
}

impl Stmt {
    /// A statement is sure when what it is is sure; `break` and `continue`
    /// are sure inside a loop, and the empty statement always.
    pub open spec fn sure(&self, a: State) -> bool
        decreases self,
    {
        match self {
            Stmt::Return(r) => r.sure(a),
            Stmt::Assign(s) => s.sure(a),
            Stmt::Exp(None) => true,
            Stmt::Exp(Some(e)) => e.sure(a),
            Stmt::Block(block) => block.sure(a),
            Stmt::If(f) => f.sure(a),
            Stmt::While(w) => w.sure(a),
            Stmt::Break(_) => a.scope.loop_info.len() > 0,
            Stmt::Continue(_) => a.scope.loop_info.len() > 0,
        }
    }
}

impl Block {
    /// A block is sure when its items are, in a frame of names of their
    /// own.
    pub open spec fn sure(&self, a: State) -> bool
        decreases self,
    {
        forall|m1: State| #[trigger] one(a, Step::Open, m1) ==> items_sure(self.items, m1)
    }
}

impl BlockItem {
    /// A statement is sure as it is; a declaration inside a function.
    pub open spec fn sure(&self, a: State) -> bool
        decreases self,
    {
        match self {
            BlockItem::Stmt(s) => s.sure(a),
            BlockItem::Decl(d) => a.scope.cur_func is Some && d.sure(a),
        }
    }
}

} // verus!

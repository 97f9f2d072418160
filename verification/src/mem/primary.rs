//! Lowering of expressions, primary expressions and unary operators.

use vstd::prelude::*;
use crate::ast::{Call, Exp, LVal, PrimaryExp, UnaryExp, UnaryOp};
use crate::mem::create::{fold, lowered};
use crate::mem::emit::{emit_binary, emit_integer, ready, Error};
use crate::mem::info::Info;
use crate::mem::owed::came;
use crate::mem::rules::{follows, runs, runs_none, runs_on, state, step_one, unary_script, Step};
use crate::mem::scope::Scope;
use crate::program::entities::{BinOp, Prog, Val};

verus! {

impl Exp {
    pub fn create(&self, program: &mut Prog, scope: &mut Scope, info: &mut Info) -> (r: Result<
        Val,
        Error,
    >)
        requires
            ready(old(program), old(scope), old(info)),
        ensures
            lowered(
                r,
                self.eval(old(scope).frames()),
                final(program),
                final(scope),
                final(info),
                old(program),
                old(scope),
                old(info),
            ),
            r matches Ok(v) ==> self.lowers(
                state(old(program), old(scope), old(info)),
                state(final(program), final(scope), final(info)),
                v,
            ),
            self.sure(state(old(program), old(scope), old(info))) ==> r is Ok,
        decreases self,
    {
        self.lor.create(program, scope, info)
    }
}

impl PrimaryExp {
    pub fn create(&self, program: &mut Prog, scope: &mut Scope, info: &mut Info) -> (r: Result<
        Val,
        Error,
    >)
        requires
            ready(old(program), old(scope), old(info)),
        ensures
            lowered(
                r,
                self.eval(old(scope).frames()),
                final(program),
                final(scope),
                final(info),
                old(program),
                old(scope),
                old(info),
            ),
            r matches Ok(v) ==> self.lowers(
                state(old(program), old(scope), old(info)),
                state(final(program), final(scope), final(info)),
                v,
            ),
            self.sure(state(old(program), old(scope), old(info))) ==> r is Ok,
        decreases self,
    {
        match self {
            PrimaryExp::Exp(exp) => exp.create(program, scope, info),
            PrimaryExp::LVal(lval) => lval.create(program, scope, info),
            PrimaryExp::Num(n) => fold(program, scope, info, *n),
        }
    }
}

impl UnaryExp {
    pub fn create(&self, program: &mut Prog, scope: &mut Scope, info: &mut Info) -> (r: Result<
        Val,
        Error,
    >)
        requires
            ready(old(program), old(scope), old(info)),
        ensures
            lowered(
                r,
                self.eval(old(scope).frames()),
                final(program),
                final(scope),
                final(info),
                old(program),
                old(scope),
                old(info),
            ),
            r matches Ok(v) ==> self.lowers(
                state(old(program), old(scope), old(info)),
                state(final(program), final(scope), final(info)),
                v,
            ),
            self.sure(state(old(program), old(scope), old(info))) ==> r is Ok,
        decreases self,
    {
        let ghost a = state(program, scope, info);
        match self.evaluate(scope) {
            Some(n) => {
                return fold(program, scope, info, n);
            },
            None => {},
        }
        if scope.is_global() {
            return Err(Error::NotConstant);
        }
        match self {
            UnaryExp::Primary(primary) => primary.create(program, scope, info),
            UnaryExp::Call(call) => call.create(program, scope, info),
            UnaryExp::Unary(op, operand) => {
                let rhs = operand.create(program, scope, info)?;
                let ghost m = state(program, scope, info);
                let code = match op {
                    UnaryOp::Pos => {
                        return Ok(rhs);
                    },
                    UnaryOp::Neg => BinOp::Sub,
                    UnaryOp::Not => BinOp::Eq,
                };
                proof {
                    assert(came(m, rhs));
                }
                let lhs = emit_integer(program, scope, info, 0);
                let ghost m1 = state(program, scope, info);
                proof {
                    step_one(m, Step::Integer(0), m1);
                }
                let v = emit_binary(program, scope, info, code, lhs, rhs)?;
                proof {
                    let b = state(program, scope, info);
                    let t0 = Seq::<Step>::empty().push(Step::Integer(0));
                    let t1 = t0.push(Step::Binary(code, lhs, rhs));
                    runs_none(m);
                    runs_on(m, Seq::empty(), m, Step::Integer(0), m1);
                    runs_on(m, t0, m1, Step::Binary(code, lhs, rhs), b);
                    assert(t1 =~= unary_script(m, *op, rhs));
                    assert(runs(m, unary_script(m, *op, rhs), b));
                    assert(follows(m, a));
                    assert(self.lowers(a, b, v));
                }
                Ok(v)
            },
        }
    }
}

} // verus!

//! Lowering of `&&` and `||`, which run their right side only when the
//! left side has not decided.

use vstd::prelude::*;
use crate::ast::{Block, LAndExp, LOrExp};
use crate::mem::create::{enter_block, fold, kept, lowered, new_block, next_if_label};
use crate::mem::emit::{
    emit_alloc,
    emit_binary,
    emit_branch,
    emit_integer,
    emit_jump,
    emit_load,
    emit_store,
    grows_from,
    ready,
    Error,
};
use crate::mem::info::Info;
use crate::mem::owed::came;
use crate::mem::rules::{
    able,
    close_script,
    does,
    if_labels_step,
    one,
    open_script,
    runs,
    runs_none,
    runs_on,
    script_sure,
    state,
    sure_at,
    State,
    Step,
};
use crate::mem::scope::Scope;
use crate::program::entities::{Bb, BinOp, Prog, Val};
use crate::program::types::Ty;

verus! {

/// Opens the lowering of `lhs && ..` (`all`) or `lhs || ..` (not `all`), as
/// [`open_script`] has it. Gives the word that will hold the result, the
/// zero to compare with, and the end block.
pub(crate) fn open_circuit(
    all: bool,
    lhs: Val,
    program: &mut Prog,
    scope: &mut Scope,
    info: &mut Info,
) -> (r: Result<(Val, Val, Bb), Error>)
    requires
        ready(old(program), old(scope), old(info)),
        old(scope).cur_func is Some,
        old(program).operand(old(scope).cur_func, lhs, old(program).values.len() as int),
    ensures
        r matches Ok(c) ==> {
            &&& kept(final(program), final(scope), final(info), old(program), old(scope), old(info))
            &&& final(program).operand(final(scope).cur_func, c.0, final(program).values.len() as int)
            &&& final(program).operand(final(scope).cur_func, c.1, final(program).values.len() as int)
            &&& final(program).target(final(scope).cur_func, c.2)
            &&& c.0 == state(old(program), old(scope), old(info)).nth(0)
            &&& c.1 == state(old(program), old(scope), old(info)).nth(1)
            &&& c.2 == state(old(program), old(scope), old(info)).nth_bb(1)
            &&& runs(
                state(old(program), old(scope), old(info)),
                open_script(state(old(program), old(scope), old(info)), all, lhs),
                state(final(program), final(scope), final(info)),
            )
        },
        script_sure(
            state(old(program), old(scope), old(info)),
            open_script(state(old(program), old(scope), old(info)), all, lhs),
        ) ==> r is Ok,
{
    let ghost a = state(program, scope, info);
    proof {
        grows_from(program, program);
        runs_none(a);
        if script_sure(a, open_script(a, all, lhs)) {
            sure_at(a, open_script(a, all, lhs), 0, Seq::empty(), a);
        }
    }
    let (then_name, _, end_name) = next_if_label(scope)?;
    let ghost s1 = state(program, scope, info);
    let ghost t0 = Seq::<Step>::empty().push(Step::IfLabels);
    proof {
        if_labels_step(a, s1);
        runs_on(a, Seq::empty(), a, Step::IfLabels, s1);
    }
    let ghost then_view = then_name@;
    let ghost end_view = end_name@;
    let then_bb = new_block(program, scope, info, then_name);
    let ghost s2 = state(program, scope, info);
    let ghost t1 = t0.push(Step::Block(then_view));
    proof {
        runs_on(a, t0, s1, Step::Block(then_view), s2);
    }
    let end_bb = new_block(program, scope, info, end_name);
    let ghost s3 = state(program, scope, info);
    let ghost t2 = t1.push(Step::Block(end_view));
    proof {
        runs_on(a, t1, s2, Step::Block(end_view), s3);
        if script_sure(a, open_script(a, all, lhs)) {
            sure_at(a, open_script(a, all, lhs), 3, t2, s3);
        }
    }
    let word = emit_alloc(program, scope, info, Ty::Int32)?;
    let ghost s4 = state(program, scope, info);
    let ghost t3 = t2.push(Step::Alloc(Ty::Int32));
    proof {
        runs_on(a, t2, s3, Step::Alloc(Ty::Int32), s4);
    }
    let zero = emit_integer(program, scope, info, 0);
    let ghost s5 = state(program, scope, info);
    let ghost t4 = t3.push(Step::Integer(0));
    proof {
        runs_on(a, t3, s4, Step::Integer(0), s5);
    }
    if all {
        proof {
            if script_sure(a, open_script(a, all, lhs)) {
                sure_at(a, open_script(a, all, lhs), 5, t4, s5);
            }
        }
        let st = emit_store(program, scope, info, zero, word)?;
        let ghost s6 = state(program, scope, info);
        let ghost t5 = t4.push(Step::Store(zero, word));
        proof {
            runs_on(a, t4, s5, Step::Store(zero, word), s6);
            if script_sure(a, open_script(a, all, lhs)) {
                sure_at(a, open_script(a, all, lhs), 6, t5, s6);
            }
        }
        let cond = emit_binary(program, scope, info, BinOp::NotEq, lhs, zero)?;
        let ghost s7 = state(program, scope, info);
        let ghost t6 = t5.push(Step::Binary(BinOp::NotEq, lhs, zero));
        proof {
            runs_on(a, t5, s6, Step::Binary(BinOp::NotEq, lhs, zero), s7);
            if script_sure(a, open_script(a, all, lhs)) {
                sure_at(a, open_script(a, all, lhs), 7, t6, s7);
            }
        }
        emit_branch(program, scope, info, cond, then_bb, end_bb)?;
        let ghost s8 = state(program, scope, info);
        let ghost t7 = t6.push(Step::Branch(cond, then_bb, end_bb));
        proof {
            runs_on(a, t6, s7, Step::Branch(cond, then_bb, end_bb), s8);
        }
        enter_block(program, scope, info, then_bb);
        proof {
            let b = state(program, scope, info);
            runs_on(a, t7, s8, Step::Enter(then_bb), b);
            assert(t7.push(Step::Enter(then_bb)) =~= open_script(a, all, lhs));
        }
    } else {
        let one = emit_integer(program, scope, info, 1);
        let ghost s6 = state(program, scope, info);
        let ghost t5 = t4.push(Step::Integer(1));
        proof {
            runs_on(a, t4, s5, Step::Integer(1), s6);
            if script_sure(a, open_script(a, all, lhs)) {
                sure_at(a, open_script(a, all, lhs), 6, t5, s6);
            }
        }
        let st = emit_store(program, scope, info, one, word)?;
        let ghost s7 = state(program, scope, info);
        let ghost t6 = t5.push(Step::Store(one, word));
        proof {
            runs_on(a, t5, s6, Step::Store(one, word), s7);
            if script_sure(a, open_script(a, all, lhs)) {
                sure_at(a, open_script(a, all, lhs), 7, t6, s7);
            }
        }
        let cond = emit_binary(program, scope, info, BinOp::Eq, lhs, zero)?;
        let ghost s8 = state(program, scope, info);
        let ghost t7 = t6.push(Step::Binary(BinOp::Eq, lhs, zero));
        proof {
            runs_on(a, t6, s7, Step::Binary(BinOp::Eq, lhs, zero), s8);
            if script_sure(a, open_script(a, all, lhs)) {
                sure_at(a, open_script(a, all, lhs), 8, t7, s8);
            }
        }
        emit_branch(program, scope, info, cond, then_bb, end_bb)?;
        let ghost s9 = state(program, scope, info);
        let ghost t8 = t7.push(Step::Branch(cond, then_bb, end_bb));
        proof {
            runs_on(a, t7, s8, Step::Branch(cond, then_bb, end_bb), s9);
        }
        enter_block(program, scope, info, then_bb);
        proof {
            let b = state(program, scope, info);
            runs_on(a, t8, s9, Step::Enter(then_bb), b);
            assert(t8.push(Step::Enter(then_bb)) =~= open_script(a, all, lhs));
        }
    }
    Ok((word, zero, end_bb))
}

/// In a closing that is sure, its three steps that can be refused are not.
proof fn close_able(
    a: State,
    rhs: Val,
    word: Val,
    zero: Val,
    end_bb: Bb,
    s1: State,
    s2: State,
    s3: State,
    s4: State,
)
    requires
        script_sure(a, close_script(a, rhs, word, zero, end_bb)),
    ensures
        able(a, Step::Binary(BinOp::NotEq, rhs, zero)),
        does(a, Step::Binary(BinOp::NotEq, rhs, zero), s1) ==> able(
            s1,
            Step::Store(a.next(), word),
        ),
        does(a, Step::Binary(BinOp::NotEq, rhs, zero), s1) && does(
            s1,
            Step::Store(a.next(), word),
            s2,
        ) && does(s2, Step::Jump(end_bb), s3) && does(s3, Step::Enter(end_bb), s4) ==> able(
            s4,
            Step::Load(word),
        ),
{
    let script = close_script(a, rhs, word, zero, end_bb);
    let x0 = Step::Binary(BinOp::NotEq, rhs, zero);
    let x1 = Step::Store(a.next(), word);
    let x2 = Step::Jump(end_bb);
    let x3 = Step::Enter(end_bb);
    runs_none(a);
    assert(script.take(0) =~= Seq::<Step>::empty());
    sure_at(a, script, 0, Seq::empty(), a);
    if does(a, x0, s1) {
        let t0 = Seq::<Step>::empty().push(x0);
        runs_on(a, Seq::empty(), a, x0, s1);
        assert(script.take(1) =~= t0);
        sure_at(a, script, 1, t0, s1);
        if does(s1, x1, s2) && does(s2, x2, s3) && does(s3, x3, s4) {
            let t1 = t0.push(x1);
            let t2 = t1.push(x2);
            let t3 = t2.push(x3);
            runs_on(a, t0, s1, x1, s2);
            runs_on(a, t1, s2, x2, s3);
            runs_on(a, t2, s3, x3, s4);
            assert(script.take(4) =~= t3);
            sure_at(a, script, 4, t3, s4);
        }
    }
}

/// Closes what [`open_circuit`] opened, after the right side, as
/// [`close_script`] has it.
pub(crate) fn close_circuit(
    rhs: Val,
    word: Val,
    zero: Val,
    end_bb: Bb,
    program: &mut Prog,
    scope: &mut Scope,
    info: &mut Info,
) -> (r: Result<Val, Error>)
    requires
        ready(old(program), old(scope), old(info)),
        old(program).operand(old(scope).cur_func, rhs, old(program).values.len() as int),
        old(program).operand(old(scope).cur_func, word, old(program).values.len() as int),
        old(program).operand(old(scope).cur_func, zero, old(program).values.len() as int),
        old(program).target(old(scope).cur_func, end_bb),
    ensures
        r matches Ok(v) ==> {
            &&& kept(final(program), final(scope), final(info), old(program), old(scope), old(info))
            &&& final(program).operand(final(scope).cur_func, v, final(program).values.len() as int)
            &&& v == state(old(program), old(scope), old(info)).nth(3)
            &&& runs(
                state(old(program), old(scope), old(info)),
                close_script(state(old(program), old(scope), old(info)), rhs, word, zero, end_bb),
                state(final(program), final(scope), final(info)),
            )
        },
        script_sure(
            state(old(program), old(scope), old(info)),
            close_script(state(old(program), old(scope), old(info)), rhs, word, zero, end_bb),
        ) ==> r is Ok,
{
    let ghost a = state(program, scope, info);
    proof {
        grows_from(program, program);
        runs_none(a);
        if script_sure(a, close_script(a, rhs, word, zero, end_bb)) {
            close_able(a, rhs, word, zero, end_bb, a, a, a, a);
        }
    }
    let result = emit_binary(program, scope, info, BinOp::NotEq, rhs, zero)?;
    let ghost s1 = state(program, scope, info);
    let ghost t0 = Seq::<Step>::empty().push(Step::Binary(BinOp::NotEq, rhs, zero));
    proof {
        runs_on(a, Seq::empty(), a, Step::Binary(BinOp::NotEq, rhs, zero), s1);
        if script_sure(a, close_script(a, rhs, word, zero, end_bb)) {
            close_able(a, rhs, word, zero, end_bb, s1, a, a, a);
        }
    }
    emit_store(program, scope, info, result, word)?;
    let ghost s2 = state(program, scope, info);
    let ghost t1 = t0.push(Step::Store(result, word));
    proof {
        runs_on(a, t0, s1, Step::Store(result, word), s2);
    }
    emit_jump(program, scope, info, end_bb);
    let ghost s3 = state(program, scope, info);
    let ghost t2 = t1.push(Step::Jump(end_bb));
    proof {
        runs_on(a, t1, s2, Step::Jump(end_bb), s3);
    }
    enter_block(program, scope, info, end_bb);
    let ghost s4 = state(program, scope, info);
    let ghost t3 = t2.push(Step::Enter(end_bb));
    proof {
        runs_on(a, t2, s3, Step::Enter(end_bb), s4);
        if script_sure(a, close_script(a, rhs, word, zero, end_bb)) {
            close_able(a, rhs, word, zero, end_bb, s1, s2, s3, s4);
        }
    }
    let v = emit_load(program, scope, info, word)?;
    proof {
        let b = state(program, scope, info);
        runs_on(a, t3, s4, Step::Load(word), b);
        assert(t3.push(Step::Load(word)) =~= close_script(a, rhs, word, zero, end_bb));
    }
    Ok(v)
}

impl LAndExp {
    /// `a && b` runs `b` only when `a` is nonzero.
    pub fn create(&self, program: &mut Prog, scope: &mut Scope, info: &mut Info) -> (r: Result<
        Val,
        Error,
    >)
        requires
            ready(old(program), old(scope), old(info)),
        ensures
            lowered(
                r,
                self.eval(old(scope).frames()),
                final(program),
                final(scope),
                final(info),
                old(program),
                old(scope),
                old(info),
            ),
            r matches Ok(v) ==> self.lowers(
                state(old(program), old(scope), old(info)),
                state(final(program), final(scope), final(info)),
                v,
            ),
            self.sure(state(old(program), old(scope), old(info))) ==> r is Ok,
        decreases self,
    {
        let ghost a = state(program, scope, info);
        match self.evaluate(scope) {
            Some(n) => {
                return fold(program, scope, info, n);
            },
            None => {},
        }
        if scope.is_global() {
            return Err(Error::NotConstant);
        }
        match self {
            LAndExp::Eq(operand) => operand.create(program, scope, info),
            LAndExp::LAnd(left, right) => {
                let lhs = left.create(program, scope, info)?;
                let ghost m1 = state(program, scope, info);
                proof {
                    assert(came(m1, lhs));
                }
                let (word, zero, end_bb) = open_circuit(true, lhs, program, scope, info)?;
                let ghost m2 = state(program, scope, info);
                let rhs = right.create(program, scope, info)?;
                let ghost m3 = state(program, scope, info);
                proof {
                    assert(came(m3, rhs));
                }
                let v = close_circuit(rhs, word, zero, end_bb, program, scope, info)?;
                proof {
                    let b = state(program, scope, info);
                    assert(self.lowers(a, b, v));
                }
                Ok(v)
            },
        }
    }
}

impl LOrExp {
    /// `a || b` runs `b` only when `a` is zero.
    pub fn create(&self, program: &mut Prog, scope: &mut Scope, info: &mut Info) -> (r: Result<
        Val,
        Error,
    >)
        requires
            ready(old(program), old(scope), old(info)),
        ensures
            lowered(
                r,
                self.eval(old(scope).frames()),
                final(program),
                final(scope),
                final(info),
                old(program),
                old(scope),
                old(info),
            ),
            r matches Ok(v) ==> self.lowers(
                state(old(program), old(scope), old(info)),
                state(final(program), final(scope), final(info)),
                v,
            ),
            self.sure(state(old(program), old(scope), old(info))) ==> r is Ok,
        decreases self,
    {
        let ghost a = state(program, scope, info);
        match self.evaluate(scope) {
            Some(n) => {
                return fold(program, scope, info, n);
            },
            None => {},
        }
        if scope.is_global() {
            return Err(Error::NotConstant);
        }
        match self {
            LOrExp::LAnd(operand) => operand.create(program, scope, info),
            LOrExp::LOr(left, right) => {
                let lhs = left.create(program, scope, info)?;
                let ghost m1 = state(program, scope, info);
                proof {
                    assert(came(m1, lhs));
                }
                let (word, zero, end_bb) = open_circuit(false, lhs, program, scope, info)?;
                let ghost m2 = state(program, scope, info);
                let rhs = right.create(program, scope, info)?;
                let ghost m3 = state(program, scope, info);
                proof {
                    assert(came(m3, rhs));
                }
                let v = close_circuit(rhs, word, zero, end_bb, program, scope, info)?;
                proof {
                    let b = state(program, scope, info);
                    assert(self.lowers(a, b, v));
                }
                Ok(v)
            },
        }
    }
}

} // verus!

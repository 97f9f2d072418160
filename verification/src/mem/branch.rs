//! Lowering of `if` and `while`.

use vstd::prelude::*;
use crate::ast::{Block, If, While};
use crate::mem::create::{enter_block, kept, new_block, next_if_label, next_while_label};
use crate::mem::emit::{emit_branch, emit_jump, grows, grows_from, ready, Error};
use crate::mem::info::Info;
use crate::mem::owed::came;
use crate::mem::rules::{
    arm_script,
    back_script,
    body_script,
    follows,
    if_labels_step,
    if_script,
    loop_step,
    one,
    runs,
    runs_none,
    runs_on,
    script_sure,
    state,
    step_three,
    step_two,
    sure_at,
    unloop_step,
    while_labels_step,
    while_script,
    Step,
};
use crate::mem::scope::Scope;
use crate::program::entities::{Bb, Prog, Val};

verus! {

/// The head of an `if`, after its condition, as [`if_script`] has it. Gives
/// the blocks of the first arm, of the second arm and of the end.
pub(crate) fn if_head(cond: Val, has_else: bool, program: &mut Prog, scope: &mut Scope, info: &mut Info) -> (r:
    Result<(Bb, Bb, Bb), Error>)
    requires
        ready(old(program), old(scope), old(info)),
        old(scope).cur_func is Some,
        old(program).operand(old(scope).cur_func, cond, old(program).values.len() as int),
    ensures
        r matches Ok(c) ==> {
            &&& kept(final(program), final(scope), final(info), old(program), old(scope), old(info))
            &&& final(program).target(final(scope).cur_func, c.0)
            &&& final(program).target(final(scope).cur_func, c.1)
            &&& final(program).target(final(scope).cur_func, c.2)
            &&& c.0 == state(old(program), old(scope), old(info)).nth_bb(0)
            &&& c.1 == state(old(program), old(scope), old(info)).nth_bb(1)
            &&& c.2 == state(old(program), old(scope), old(info)).nth_bb(2)
            &&& runs(
                state(old(program), old(scope), old(info)),
                if_script(state(old(program), old(scope), old(info)), cond, has_else),
                state(final(program), final(scope), final(info)),
            )
        },
        script_sure(
            state(old(program), old(scope), old(info)),
            if_script(state(old(program), old(scope), old(info)), cond, has_else),
        ) ==> r is Ok,
{
    let ghost a = state(program, scope, info);
    proof {
        grows_from(program, program);
        runs_none(a);
        if script_sure(a, if_script(a, cond, has_else)) {
            assert(if_script(a, cond, has_else).take(0) =~= Seq::<Step>::empty());
            sure_at(a, if_script(a, cond, has_else), 0, Seq::empty(), a);
        }
    }
    let (then_name, else_name, end_name) = next_if_label(scope)?;
    let ghost s1 = state(program, scope, info);
    let ghost t0 = Seq::<Step>::empty().push(Step::IfLabels);
    proof {
        if_labels_step(a, s1);
        runs_on(a, Seq::empty(), a, Step::IfLabels, s1);
    }
    let ghost then_view = then_name@;
    let ghost else_view = else_name@;
    let ghost end_view = end_name@;
    let then_bb = new_block(program, scope, info, then_name);
    let ghost s2 = state(program, scope, info);
    let ghost t1 = t0.push(Step::Block(then_view));
    proof {
        runs_on(a, t0, s1, Step::Block(then_view), s2);
    }
    let else_bb = new_block(program, scope, info, else_name);
    let ghost s3 = state(program, scope, info);
    let ghost t2 = t1.push(Step::Block(else_view));
    proof {
        runs_on(a, t1, s2, Step::Block(else_view), s3);
    }
    let end_bb = new_block(program, scope, info, end_name);
    let ghost s4 = state(program, scope, info);
    let ghost t3 = t2.push(Step::Block(end_view));
    proof {
        runs_on(a, t2, s3, Step::Block(end_view), s4);
    }
    let on_false = if has_else {
        else_bb
    } else {
        end_bb
    };
    proof {
        if script_sure(a, if_script(a, cond, has_else)) {
            assert(if_script(a, cond, has_else).take(4) =~= t3);
            sure_at(a, if_script(a, cond, has_else), 4, t3, s4);
        }
    }
    emit_branch(program, scope, info, cond, then_bb, on_false)?;
    let ghost s5 = state(program, scope, info);
    let ghost t4 = t3.push(Step::Branch(cond, then_bb, on_false));
    proof {
        runs_on(a, t3, s4, Step::Branch(cond, then_bb, on_false), s5);
    }
    enter_block(program, scope, info, then_bb);
    proof {
        let b = state(program, scope, info);
        runs_on(a, t4, s5, Step::Enter(then_bb), b);
        assert(t4.push(Step::Enter(then_bb)) =~= if_script(a, cond, has_else));
    }
    Ok((then_bb, else_bb, end_bb))
}

/// The end of an arm, as [`arm_script`] has it: a jump to `to`, and `next`
/// is entered.
pub(crate) fn arm_end(to: Bb, next: Bb, program: &mut Prog, scope: &mut Scope, info: &mut Info)
    requires
        ready(old(program), old(scope), old(info)),
        old(program).target(old(scope).cur_func, to),
        old(program).target(old(scope).cur_func, next),
    ensures
        kept(final(program), final(scope), final(info), old(program), old(scope), old(info)),
        runs(
            state(old(program), old(scope), old(info)),
            arm_script(to, next),
            state(final(program), final(scope), final(info)),
        ),
{
    let ghost a = state(program, scope, info);
    proof {
        grows_from(program, program);
    }
    emit_jump(program, scope, info, to);
    let ghost m = state(program, scope, info);
    enter_block(program, scope, info, next);
    proof {
        step_two(a, Step::Jump(to), m, Step::Enter(next), state(program, scope, info));
    }
}

impl If {
    /// Branches on the condition to the block of the first arm and, when
    /// there is one, to that of the second; both arms go on to the end block,
    /// which is under construction afterwards.
    pub fn create(&self, program: &mut Prog, scope: &mut Scope, info: &mut Info) -> (r: Result<
        (),
        Error,
    >)
        requires
            ready(old(program), old(scope), old(info)),
        ensures
            r is Ok ==> kept(
                final(program),
                final(scope),
                final(info),
                old(program),
                old(scope),
                old(info),
            ),
            r is Ok ==> self.lowers(
                state(old(program), old(scope), old(info)),
                state(final(program), final(scope), final(info)),
            ),
            old(scope).cur_func is None ==> r == Err::<(), Error>(Error::OutsideFunction),
            self.sure(state(old(program), old(scope), old(info))) ==> r is Ok,
        decreases self,
    {
        let ghost a = state(program, scope, info);
        if scope.is_global() {
            return Err(Error::OutsideFunction);
        }
        proof {
            grows_from(program, program);
        }
        let If { cond, then: first, els } = self;
        let cond = cond.create(program, scope, info)?;
        let ghost m1 = state(program, scope, info);
        proof {
            assert(came(m1, cond));
        }
        let has_else = match els {
            Some(_) => true,
            None => false,
        };
        let (then_bb, else_bb, end_bb) = if_head(cond, has_else, program, scope, info)?;
        let ghost m2 = state(program, scope, info);
        first.create(program, scope, info)?;
        let ghost m3 = state(program, scope, info);
        match els {
            Some(els) => {
                arm_end(end_bb, else_bb, program, scope, info);
                let ghost m4 = state(program, scope, info);
                els.create(program, scope, info)?;
                let ghost m5 = state(program, scope, info);
                arm_end(end_bb, end_bb, program, scope, info);
                proof {
                    let b = state(program, scope, info);
                    assert(follows(m3, m2));
                    assert(self.lowers(a, b));
                }
            },
            None => {
                arm_end(end_bb, end_bb, program, scope, info);
                proof {
                    let b = state(program, scope, info);
                    assert(follows(m3, m2));
                    assert(self.lowers(a, b));
                }
            },
        }
        Ok(())
    }
}

/// The head of a loop, as [`while_script`] has it. Gives the blocks of the
/// entry, of the body and of the end.
pub(crate) fn while_head(program: &mut Prog, scope: &mut Scope, info: &mut Info) -> (r: Result<
    (Bb, Bb, Bb),
    Error,
>)
    requires
        ready(old(program), old(scope), old(info)),
        old(scope).cur_func is Some,
    ensures
        r matches Ok(c) ==> {
            &&& kept(final(program), final(scope), final(info), old(program), old(scope), old(info))
            &&& final(program).target(final(scope).cur_func, c.0)
            &&& final(program).target(final(scope).cur_func, c.1)
            &&& final(program).target(final(scope).cur_func, c.2)
            &&& c.0 == state(old(program), old(scope), old(info)).nth_bb(0)
            &&& c.1 == state(old(program), old(scope), old(info)).nth_bb(1)
            &&& c.2 == state(old(program), old(scope), old(info)).nth_bb(2)
            &&& runs(
                state(old(program), old(scope), old(info)),
                while_script(state(old(program), old(scope), old(info))),
                state(final(program), final(scope), final(info)),
            )
        },
        script_sure(
            state(old(program), old(scope), old(info)),
            while_script(state(old(program), old(scope), old(info))),
        ) ==> r is Ok,
{
    let ghost a = state(program, scope, info);
    proof {
        grows_from(program, program);
        runs_none(a);
        if script_sure(a, while_script(a)) {
            assert(while_script(a).take(0) =~= Seq::<Step>::empty());
            sure_at(a, while_script(a), 0, Seq::empty(), a);
        }
    }
    let (entry_name, body_name, end_name) = next_while_label(scope)?;
    let ghost s1 = state(program, scope, info);
    let ghost t0 = Seq::<Step>::empty().push(Step::WhileLabels);
    proof {
        while_labels_step(a, s1);
        runs_on(a, Seq::empty(), a, Step::WhileLabels, s1);
    }
    let ghost entry_view = entry_name@;
    let ghost body_view = body_name@;
    let ghost end_view = end_name@;
    let entry_bb = new_block(program, scope, info, entry_name);
    let ghost s2 = state(program, scope, info);
    let ghost t1 = t0.push(Step::Block(entry_view));
    proof {
        runs_on(a, t0, s1, Step::Block(entry_view), s2);
    }
    let body_bb = new_block(program, scope, info, body_name);
    let ghost s3 = state(program, scope, info);
    let ghost t2 = t1.push(Step::Block(body_view));
    proof {
        runs_on(a, t1, s2, Step::Block(body_view), s3);
    }
    let end_bb = new_block(program, scope, info, end_name);
    let ghost s4 = state(program, scope, info);
    let ghost t3 = t2.push(Step::Block(end_view));
    proof {
        runs_on(a, t2, s3, Step::Block(end_view), s4);
    }
    emit_jump(program, scope, info, entry_bb);
    let ghost s5 = state(program, scope, info);
    let ghost t4 = t3.push(Step::Jump(entry_bb));
    proof {
        runs_on(a, t3, s4, Step::Jump(entry_bb), s5);
    }
    enter_block(program, scope, info, entry_bb);
    proof {
        let b = state(program, scope, info);
        runs_on(a, t4, s5, Step::Enter(entry_bb), b);
        assert(t4.push(Step::Enter(entry_bb)) =~= while_script(a));
    }
    Ok((entry_bb, body_bb, end_bb))
}

/// The way into the body of a loop, after its condition, as
/// [`body_script`] has it.
pub(crate) fn while_body(
    cond: Val,
    entry_bb: Bb,
    body_bb: Bb,
    end_bb: Bb,
    program: &mut Prog,
    scope: &mut Scope,
    info: &mut Info,
) -> (r: Result<(), Error>)
    requires
        ready(old(program), old(scope), old(info)),
        old(scope).cur_func is Some,
        old(program).operand(old(scope).cur_func, cond, old(program).values.len() as int),
        old(program).target(old(scope).cur_func, entry_bb),
        old(program).target(old(scope).cur_func, body_bb),
        old(program).target(old(scope).cur_func, end_bb),
    ensures
        r is Ok ==> {
            &&& ready(final(program), final(scope), final(info))
            &&& grows(final(program), old(program))
            &&& final(scope).frames() == old(scope).frames()
            &&& final(scope).table() == old(scope).table()
            &&& final(scope).cur_func == old(scope).cur_func
            &&& final(scope).label == old(scope).label
            &&& final(scope).loop_info@ == old(scope).loop_info@.push((entry_bb, end_bb))
            &&& final(info).zero_array_infos@ == old(info).zero_array_infos@
            &&& runs(
                state(old(program), old(scope), old(info)),
                body_script(cond, entry_bb, body_bb, end_bb),
                state(final(program), final(scope), final(info)),
            )
        },
        script_sure(
            state(old(program), old(scope), old(info)),
            body_script(cond, entry_bb, body_bb, end_bb),
        ) ==> r is Ok,
{
    let ghost a = state(program, scope, info);
    proof {
        grows_from(program, program);
    }
    proof {
        if script_sure(a, body_script(cond, entry_bb, body_bb, end_bb)) {
            runs_none(a);
            assert(body_script(cond, entry_bb, body_bb, end_bb).take(0) =~= Seq::<Step>::empty());
            sure_at(a, body_script(cond, entry_bb, body_bb, end_bb), 0, Seq::empty(), a);
        }
    }
    emit_branch(program, scope, info, cond, body_bb, end_bb)?;
    let ghost s1 = state(program, scope, info);
    enter_block(program, scope, info, body_bb);
    let ghost s2 = state(program, scope, info);
    scope.loop_info_mut().push((entry_bb, end_bb));
    proof {
        let b = state(program, scope, info);
        assert(scope.frames() == s2.scope.frames());
        assert(scope.table() == s2.scope.table());
        loop_step(s2, b, entry_bb, end_bb);
        step_three(
            a,
            Step::Branch(cond, body_bb, end_bb),
            s1,
            Step::Enter(body_bb),
            s2,
            Step::Loop(entry_bb, end_bb),
            b,
        );
    }
    Ok(())
}

/// The way back from the body of a loop, as [`back_script`] has it.
pub(crate) fn while_back(entry_bb: Bb, end_bb: Bb, program: &mut Prog, scope: &mut Scope, info: &mut Info)
    requires
        ready(old(program), old(scope), old(info)),
        old(scope).loop_info.len() > 0,
        old(program).target(old(scope).cur_func, entry_bb),
        old(program).target(old(scope).cur_func, end_bb),
    ensures
        ready(final(program), final(scope), final(info)),
        grows(final(program), old(program)),
        final(scope).frames() == old(scope).frames(),
        final(scope).table() == old(scope).table(),
        final(scope).cur_func == old(scope).cur_func,
        final(scope).label == old(scope).label,
        final(scope).loop_info@ == old(scope).loop_info@.drop_last(),
        final(info).zero_array_infos@ == old(info).zero_array_infos@,
        runs(
            state(old(program), old(scope), old(info)),
            back_script(entry_bb, end_bb),
            state(final(program), final(scope), final(info)),
        ),
{
    let ghost a = state(program, scope, info);
    proof {
        grows_from(program, program);
    }
    emit_jump(program, scope, info, entry_bb);
    let ghost s1 = state(program, scope, info);
    scope.loop_info_mut().pop();
    let ghost s2 = state(program, scope, info);
    proof {
        assert(scope.frames() == s1.scope.frames());
        assert(scope.table() == s1.scope.table());
        unloop_step(s1, s2);
    }
    enter_block(program, scope, info, end_bb);
    proof {
        let b = state(program, scope, info);
        step_three(a, Step::Jump(entry_bb), s1, Step::Unloop, s2, Step::Enter(end_bb), b);
    }
}

impl While {
    /// Jumps to the entry block, which branches on the condition to the body
    /// or to the end; the body jumps back to the entry. Inside the body
    /// `continue` goes to the entry and `break` to the end, which is under
    /// construction afterwards.
    pub fn create(&self, program: &mut Prog, scope: &mut Scope, info: &mut Info) -> (r: Result<
        (),
        Error,
    >)
        requires
            ready(old(program), old(scope), old(info)),
        ensures
            r is Ok ==> kept(
                final(program),
                final(scope),
                final(info),
                old(program),
                old(scope),
                old(info),
            ),
            r is Ok ==> self.lowers(
                state(old(program), old(scope), old(info)),
                state(final(program), final(scope), final(info)),
            ),
            old(scope).cur_func is None ==> r == Err::<(), Error>(Error::OutsideFunction),
            self.sure(state(old(program), old(scope), old(info))) ==> r is Ok,
        decreases self,
    {
        let ghost a = state(program, scope, info);
        if scope.is_global() {
            return Err(Error::OutsideFunction);
        }
        proof {
            grows_from(program, program);
        }
        let (entry_bb, body_bb, end_bb) = while_head(program, scope, info)?;
        let ghost m1 = state(program, scope, info);
        let cond = self.cond.create(program, scope, info)?;
        let ghost m2 = state(program, scope, info);
        proof {
            assert(came(m2, cond));
        }
        while_body(cond, entry_bb, body_bb, end_bb, program, scope, info)?;
        let ghost m3 = state(program, scope, info);
        self.body.create(program, scope, info)?;
        let ghost m4 = state(program, scope, info);
        while_back(entry_bb, end_bb, program, scope, info);
        proof {
            let b = state(program, scope, info);
            assert(scope.loop_info@ =~= old(scope).loop_info@);
            grows_from(program, old(program));
            assert(self.lowers(a, b));
        }
        Ok(())
    }
}

} // verus!

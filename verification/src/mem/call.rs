//! Lowering of calls.

use vstd::prelude::*;
use crate::ast::{Call, Exp};
use crate::mem::create::{kept, lowered};
use crate::mem::emit::{emit_call, find_func_ok, grows_from, ready, Error};
use crate::mem::info::Info;
use crate::mem::owed::{args_sure, came_to};
use crate::mem::rules::{args_lower, follows, one, runs_none, runs_on, state, Step};
use crate::mem::scope::Scope;
use crate::program::entities::{Prog, Val};

verus! {

/// Lowers the arguments of a call, in order.
pub(crate) fn lower_args(args: &Vec<Exp>, program: &mut Prog, scope: &mut Scope, info: &mut Info) -> (r: Result<
    Vec<Val>,
    Error,
>)
    requires
        ready(old(program), old(scope), old(info)),
    ensures
        r matches Ok(outs) ==> {
            &&& kept(final(program), final(scope), final(info), old(program), old(scope), old(info))
            &&& forall|i: int|
                0 <= i < outs.len() ==> final(program).operand(
                    final(scope).cur_func,
                    #[trigger] outs[i],
                    final(program).values.len() as int,
                )
            &&& args_lower(
                *args,
                args.len() as nat,
                state(old(program), old(scope), old(info)),
                state(final(program), final(scope), final(info)),
                outs@,
            )
        },
        args_sure(*args, state(old(program), old(scope), old(info))) ==> r is Ok,
    decreases args,
{
    let ghost a = state(program, scope, info);
    proof {
        grows_from(program, program);
    }
    let mut outs: Vec<Val> = Vec::new();
    let mut k: usize = 0;
    while k < args.len()
        invariant
            k <= args.len(),
            outs.len() == k,
            a == state(old(program), old(scope), old(info)),
            kept(program, scope, info, old(program), old(scope), old(info)),
            args_lower(*args, k as nat, a, state(program, scope, info), outs@),
            forall|i: int|
                0 <= i < k ==> program.operand(
                    scope.cur_func,
                    #[trigger] outs[i],
                    program.values.len() as int,
                ),
        decreases args.len() - k,
    {
        let ghost m = state(program, scope, info);
        let ghost before = outs@;
        proof {
            assert(came_to(k as nat, m, outs@));
        }
        let arg = args[k].create(program, scope, info)?;
        outs.push(arg);
        proof {
            assert(outs@.drop_last() =~= before);
            assert(follows(m, a));
            assert(args_lower(*args, (k + 1) as nat, a, state(program, scope, info), outs@));
        }
        k += 1;
    }
    Ok(outs)
}

impl Call {
    /// Lowers the arguments in order, then the call.
    pub fn create(&self, program: &mut Prog, scope: &mut Scope, info: &mut Info) -> (r: Result<
        Val,
        Error,
    >)
        requires
            ready(old(program), old(scope), old(info)),
        ensures
            lowered(
                r,
                None,
                final(program),
                final(scope),
                final(info),
                old(program),
                old(scope),
                old(info),
            ),
            r matches Ok(v) ==> self.lowers(
                state(old(program), old(scope), old(info)),
                state(final(program), final(scope), final(info)),
                v,
            ),
            self.sure(state(old(program), old(scope), old(info))) ==> r is Ok,
        decreases self,
    {
        let ghost a = state(program, scope, info);
        if scope.is_global() {
            return Err(Error::NotConstant);
        }
        let args = lower_args(&self.args, program, scope, info)?;
        proof {
            assert(came_to(self.args.len() as nat, state(program, scope, info), args@));
        }
        let callee = match scope.get_func(&self.id) {
            Some(f) => f,
            None => {
                return Err(Error::UnknownFunction);
            },
        };
        proof {
            find_func_ok(scope.table(), self.id@, program);
        }
        let ghost m = state(program, scope, info);
        let ghost outs = args@;
        let v = emit_call(program, scope, info, callee, args)?;
        proof {
            let b = state(program, scope, info);
            runs_none(m);
            runs_on(m, Seq::empty(), m, Step::Call(callee, outs), b);
            assert(one(m, Step::Call(callee, outs), b));
            assert(follows(m, a));
            assert(self.lowers(a, b, v));
        }
        Ok(v)
    }
}

} // verus!

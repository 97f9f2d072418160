//! Scalar variables: the steps that declare one, after its initializer.

use vstd::prelude::*;
use crate::mem::create::carried;
use crate::mem::decl::declare;
use crate::mem::decl_rules::{global_scalar_script, local_scalar_init_script, local_scalar_script};
use crate::mem::emit::{
    emit_alloc,
    emit_global_alloc,
    emit_integer,
    emit_store,
    grows_from,
    ready,
    Error,
};
use crate::mem::info::Info;
use crate::mem::rules::{
    runs,
    runs_none,
    runs_on,
    script_sure,
    state,
    step_three,
    step_two,
    sure_at,
    Step,
};
use crate::mem::scope::{Entry, Scope};
use crate::program::entities::{Prog, Val};
use crate::program::types::Ty;

verus! {

/// Declares the scalar variable `id` outside any function; it starts out as
/// the number `n`.
pub(crate) fn global_scalar_init(
    id: &String,
    n: i32,
    program: &mut Prog,
    scope: &mut Scope,
    info: &mut Info,
)
    requires
        ready(old(program), old(scope), old(info)),
        old(scope).cur_func is None,
    ensures
        carried(final(program), final(scope), final(info), old(program), old(scope), old(info)),
        final(scope).table() == old(scope).table(),
        runs(
            state(old(program), old(scope), old(info)),
            global_scalar_script(state(old(program), old(scope), old(info)), n, id@),
            state(final(program), final(scope), final(info)),
        ),
{
    let ghost a = state(program, scope, info);
    proof {
        grows_from(program, program);
    }
    let init = emit_integer(program, scope, info, n);
    let ghost m1 = state(program, scope, info);
    let v = emit_global_alloc(program, scope, info, init);
    let ghost m2 = state(program, scope, info);
    declare(program, scope, info, id, Entry::Value(v));
    proof {
        step_three(
            a,
            Step::Integer(n),
            m1,
            Step::GlobalAlloc(init),
            m2,
            Step::Bind(id@, Entry::Value(v)),
            state(program, scope, info),
        );
    }
}

/// Declares the scalar variable `id` inside a function, without an
/// initializer.
pub(crate) fn local_scalar(id: &String, program: &mut Prog, scope: &mut Scope, info: &mut Info) -> (r:
    Result<(), Error>)
    requires
        ready(old(program), old(scope), old(info)),
    ensures
        r is Ok ==> {
            &&& carried(
                final(program),
                final(scope),
                final(info),
                old(program),
                old(scope),
                old(info),
            )
            &&& final(scope).table() == old(scope).table()
            &&& final(info).zero_array_infos@ == old(info).zero_array_infos@
            &&& runs(
                state(old(program), old(scope), old(info)),
                local_scalar_script(state(old(program), old(scope), old(info)), id@),
                state(final(program), final(scope), final(info)),
            )
        },
        old(scope).cur_func is Some ==> r is Ok,
{
    let ghost a = state(program, scope, info);
    proof {
        grows_from(program, program);
    }
    let dest = emit_alloc(program, scope, info, Ty::Int32)?;
    let ghost m1 = state(program, scope, info);
    declare(program, scope, info, id, Entry::Value(dest));
    proof {
        step_two(
            a,
            Step::Alloc(Ty::Int32),
            m1,
            Step::Bind(id@, Entry::Value(dest)),
            state(program, scope, info),
        );
    }
    Ok(())
}

/// Declares the scalar variable `id` inside a function; it starts out as
/// `value`.
pub(crate) fn local_scalar_init(
    id: &String,
    value: Val,
    program: &mut Prog,
    scope: &mut Scope,
    info: &mut Info,
) -> (r: Result<(), Error>)
    requires
        ready(old(program), old(scope), old(info)),
        old(program).operand(old(scope).cur_func, value, old(program).values.len() as int),
    ensures
        r is Ok ==> {
            &&& carried(
                final(program),
                final(scope),
                final(info),
                old(program),
                old(scope),
                old(info),
            )
            &&& final(scope).table() == old(scope).table()
            &&& final(info).zero_array_infos@ == old(info).zero_array_infos@
            &&& runs(
                state(old(program), old(scope), old(info)),
                local_scalar_init_script(state(old(program), old(scope), old(info)), value, id@),
                state(final(program), final(scope), final(info)),
            )
        },
        script_sure(
            state(old(program), old(scope), old(info)),
            local_scalar_init_script(state(old(program), old(scope), old(info)), value, id@),
        ) ==> r is Ok,
{
    let ghost a = state(program, scope, info);
    proof {
        grows_from(program, program);
    }
    proof {
        let script = local_scalar_init_script(a, value, id@);
        if script_sure(a, script) {
            runs_none(a);
            assert(script.take(0) =~= Seq::<Step>::empty());
            sure_at(a, script, 0, Seq::empty(), a);
        }
    }
    let dest = emit_alloc(program, scope, info, Ty::Int32)?;
    let ghost m1 = state(program, scope, info);
    proof {
        let script = local_scalar_init_script(a, value, id@);
        if script_sure(a, script) {
            let t0 = Seq::<Step>::empty().push(Step::Alloc(Ty::Int32));
            runs_on(a, Seq::empty(), a, Step::Alloc(Ty::Int32), m1);
            assert(script.take(1) =~= t0);
            sure_at(a, script, 1, t0, m1);
        }
    }
    emit_store(program, scope, info, value, dest)?;
    let ghost m2 = state(program, scope, info);
    declare(program, scope, info, id, Entry::Value(dest));
    proof {
        step_three(
            a,
            Step::Alloc(Ty::Int32),
            m1,
            Step::Store(value, dest),
            m2,
            Step::Bind(id@, Entry::Value(dest)),
            state(program, scope, info),
        );
    }
    Ok(())
}

} // verus!

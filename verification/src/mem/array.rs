//! Lowering of the definitions of arrays, after their initializers.

use vstd::prelude::*;
use crate::mem::create::carried;
use crate::mem::decl::{all_zero_values, bind, copy_dims, declare};
use crate::mem::decl_owed::local_array_sure;
use crate::mem::decl_rules::{all_zero_vals, global_script, var_array};
use crate::mem::emit::{
    constant_of,
    emit_alloc,
    emit_global_alloc,
    emit_zero,
    grows_from,
    ready,
    Error,
};
use crate::mem::info::Info;
use crate::mem::rules::{runs, state, step_one, step_three, step_two, Step};
use crate::mem::scope::{Entry, Scope};
use crate::program::entities::{Prog, Val, ValueKind};
use crate::program::types::{array_type, Ty};
use crate::tools::{array_type_of, global_array_init, global_init_ok, local_array_init};

verus! {

/// Makes the global array that starts out as `init`, notes its dimensions
/// when it holds nothing but zeros, and binds its name.
pub(crate) fn declare_global_array(
    program: &mut Prog,
    scope: &mut Scope,
    info: &mut Info,
    id: &String,
    init: Val,
    dims: Vec<usize>,
    zero: bool,
) -> (v: Val)
    requires
        ready(old(program), old(scope), old(info)),
        old(scope).cur_func is None,
        constant_of(old(program), init, array_type(dims@)),
    ensures
        carried(final(program), final(scope), final(info), old(program), old(scope), old(info)),
        final(scope).table() == old(scope).table(),
        final(scope).frames() == bind(old(scope).frames(), id@, Entry::Value(v)),
        final(program).ty(v) == Ty::Pointer(Box::new(array_type(dims@))),
        final(program).kind(v) == ValueKind::GlobalAlloc(init),
        final(info).zero_dims(init) == if zero {
            Some(dims@)
        } else {
            old(info).zero_dims(init)
        },
        runs(
            state(old(program), old(scope), old(info)),
            global_script(state(old(program), old(scope), old(info)), init, dims@, zero, id@),
            state(final(program), final(scope), final(info)),
        ),
{
    let ghost a = state(program, scope, info);
    let ghost sizes = dims@;
    proof {
        if dims@.len() == 0 {
        }
    }
    let v = emit_global_alloc(program, scope, info, init);
    let ghost m1 = state(program, scope, info);
    if zero {
        emit_zero(program, scope, info, init, dims);
        let ghost m2 = state(program, scope, info);
        declare(program, scope, info, id, Entry::Value(v));
        proof {
            step_three(
                a,
                Step::GlobalAlloc(init),
                m1,
                Step::Zero(init, sizes),
                m2,
                Step::Bind(id@, Entry::Value(v)),
                state(program, scope, info),
            );
        }
    } else {
        declare(program, scope, info, id, Entry::Value(v));
        proof {
            step_two(
                a,
                Step::GlobalAlloc(init),
                m1,
                Step::Bind(id@, Entry::Value(v)),
                state(program, scope, info),
            );
        }
    }
    v
}

/// Declares the array `id` of the given dimensions that starts out as
/// `values`.
pub(crate) fn declare_array(
    id: &String,
    values: Vec<Val>,
    dims: Vec<usize>,
    program: &mut Prog,
    scope: &mut Scope,
    info: &mut Info,
) -> (r: Result<(), Error>)
    requires
        ready(old(program), old(scope), old(info)),
    ensures
        r is Ok ==> {
            &&& carried(
                final(program),
                final(scope),
                final(info),
                old(program),
                old(scope),
                old(info),
            )
            &&& final(scope).table() == old(scope).table()
            &&& old(scope).cur_func is Some ==> final(info).zero_array_infos@ == old(
                info,
            ).zero_array_infos@
            &&& var_array(
                values@,
                dims@,
                id@,
                state(old(program), old(scope), old(info)),
                state(final(program), final(scope), final(info)),
            )
        },
        old(scope).cur_func is None && global_init_ok(old(program), values@, dims@) ==> r is Ok,
        old(scope).cur_func is Some && local_array_sure(
            values@,
            dims@,
            state(old(program), old(scope), old(info)),
        ) ==> r is Ok,
{
    let ghost a = state(program, scope, info);
    let ghost sizes = dims@;
    let ghost contents = values@;
    proof {
        grows_from(program, program);
    }
    if scope.is_global() {
        let zero = all_zero_values(program, &values);
        let init = global_array_init(program, scope, info, values, copy_dims(&dims))?;
        let ghost m = state(program, scope, info);
        let v = declare_global_array(program, scope, info, id, init, dims, zero);
        proof {
            let b = state(program, scope, info);
            assert(zero == all_zero_vals(a, contents));
            assert(runs(m, global_script(m, init, sizes, all_zero_vals(a, contents), id@), b));
        }
    } else {
        let ty = array_type_of(&dims);
        let dest = emit_alloc(program, scope, info, ty)?;
        let ghost m1 = state(program, scope, info);
        proof {
            step_one(a, Step::Alloc(array_type(sizes)), m1);
        }
        local_array_init(program, scope, info, values, dims, dest)?;
        let ghost m2 = state(program, scope, info);
        declare(program, scope, info, id, Entry::Value(dest));
        proof {
            let b = state(program, scope, info);
            step_one(a, Step::Alloc(array_type(sizes)), m1);
            step_one(m2, Step::Bind(id@, Entry::Value(dest)), b);
            assert(dest == a.next());
        }
    }
    Ok(())
}

} // verus!

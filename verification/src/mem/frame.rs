//! The bookkeeping of function definitions: the head, the parameters, the
//! end, and the declarations of the runtime library.

use vstd::prelude::*;
use vstd::string::StringExecFns;
use crate::ast::FuncParam;
use crate::mem::create::carried;
use crate::mem::decl::declare;
use crate::mem::decl_owed::params_sure;
use crate::mem::decl_rules::{
    end_script,
    head_script,
    library_function,
    library_script,
    param_script,
    params_lower,
};
use crate::mem::emit::{
    emit_alloc,
    emit_func_decl,
    emit_func_def,
    emit_name,
    emit_store,
    entry_ok,
    grows,
    grows_from,
    ready,
    Error,
};
use crate::mem::info::Info;
use crate::mem::rules::{
    close_step,
    does,
    follows,
    leave_step,
    one,
    open_step,
    runs,
    runs_none,
    runs_on,
    runs_then,
    script_sure,
    start_step,
    state,
    step_three,
    step_two,
    sure_at,
    State,
    Step,
};
use crate::mem::scope::{Entry, Scope};
use crate::program::entities::{Func, Prog};
use crate::program::types::Ty;
use crate::text::join2;

verus! {

/// Starts the definition of the function `id`, as [`head_script`] has it.
pub(crate) fn begin_function(
    id: &String,
    params_ty: Vec<Ty>,
    ret_ty: Ty,
    program: &mut Prog,
    scope: &mut Scope,
    info: &mut Info,
) -> (f: Func)
    requires
        ready(old(program), old(scope), old(info)),
        old(scope).cur_func is None,
        Prog::params_ty_ok(params_ty@),
    ensures
        ready(final(program), final(scope), final(info)),
        grows(final(program), old(program)),
        f.id == old(program).funcs.len(),
        final(scope).cur_func == Some(f),
        final(program).has_func(f),
        final(program).funcs[f.id as int].params.len() == params_ty.len(),
        final(program).funcs[f.id as int].params_ty.len() == params_ty.len(),
        final(scope).frames() == old(scope).frames().push(Seq::<(Seq<char>, Entry)>::empty()),
        final(scope).table() == old(scope).table().push((id@, f)),
        final(scope).loop_info == old(scope).loop_info,
        final(scope).label == old(scope).label,
        final(info).zero_array_infos == old(info).zero_array_infos,
        runs(
            state(old(program), old(scope), old(info)),
            head_script(state(old(program), old(scope), old(info)), id@, params_ty@, ret_ty),
            state(final(program), final(scope), final(info)),
        ),
{
    let ghost a = state(program, scope, info);
    let ghost tys = params_ty@;
    proof {
        grows_from(program, program);
        runs_none(a);
    }
    let name = join2("@", id.as_str());
    let f = emit_func_def(program, scope, info, name, params_ty, ret_ty);
    let ghost s1 = state(program, scope, info);
    let ghost t0 = Seq::<Step>::empty().push(Step::Function("@"@ + id@, tys, ret_ty, true));
    proof {
        runs_on(a, Seq::empty(), a, Step::Function("@"@ + id@, tys, ret_ty, true), s1);
    }
    emit_name(program, scope, info, id.clone(), f);
    let ghost s2 = state(program, scope, info);
    let ghost t1 = t0.push(Step::Name(id@, f));
    proof {
        runs_on(a, t0, s1, Step::Name(id@, f), s2);
    }
    scope.set_cur_func(Some(f));
    let ghost s3 = state(program, scope, info);
    let ghost t2 = t1.push(Step::Start(f));
    proof {
        start_step(s2, s3, f);
        runs_on(a, t1, s2, Step::Start(f), s3);
    }
    let entry = program.new_bb(f, String::from_str("%entry"));
    let ghost s4 = state(program, scope, info);
    let ghost t3 = t2.push(Step::Block("%entry"@));
    proof {
        assert(does(s3, Step::Block("%entry"@), s4)) by {
            reveal(does);
        }
        runs_on(a, t2, s3, Step::Block("%entry"@), s4);
    }
    program.push_bb(f, entry);
    scope.set_cur_bb(Some(entry));
    let ghost s5 = state(program, scope, info);
    let ghost t4 = t3.push(Step::Enter(entry));
    proof {
        assert(does(s4, Step::Enter(entry), s5)) by {
            reveal(does);
        }
        runs_on(a, t3, s4, Step::Enter(entry), s5);
    }
    scope.enter();
    proof {
        let b = state(program, scope, info);
        open_step(s5, b);
        runs_on(a, t4, s5, Step::Open, b);
        assert(t4.push(Step::Open) =~= head_script(a, id@, tys, ret_ty));
        let frames = scope.frames();
        assert forall|i: int, j: int|
            0 <= i < frames.len() && 0 <= j < frames[i].len() implies entry_ok(
            program,
            scope.cur_func,
            (#[trigger] frames[i][j]).1,
        ) by {
            assert(frames[i] == old(scope).frames()[i]);
            assert(entry_ok(old(program), None, old(scope).frames()[i][j].1));
        }
        assert(scope.table() =~= old(scope).table().push((id@, f)));
        grows_from(program, &s4.program);
        assert(program.extends(old(program))) by {
            s4.program.extends_trans(&s1.program, old(program));
            program.extends_trans(&s4.program, old(program));
        }
        grows_from(program, old(program));
    }
    f
}

/// Ends the definition of a function, as [`end_script`] has it.
pub(crate) fn end_function(program: &Prog, scope: &mut Scope, info: &Info)
    requires
        ready(program, old(scope), info),
        old(scope).frames().len() >= 2,
        old(scope).loop_info.len() == 0,
        crate::mem::emit::frames_ok(old(scope).frames().drop_last(), program, None),
    ensures
        ready(program, final(scope), info),
        final(scope).cur_func is None,
        final(scope).frames() == old(scope).frames().drop_last(),
        final(scope).table() == old(scope).table(),
        final(scope).loop_info == old(scope).loop_info,
        final(scope).label == old(scope).label,
        runs(
            state(program, old(scope), info),
            end_script(),
            state(program, final(scope), info),
        ),
{
    let ghost a = state(program, scope, info);
    scope.exit();
    let ghost m = state(program, scope, info);
    proof {
        close_step(a, m);
    }
    scope.set_cur_bb(None);
    scope.set_cur_func(None);
    proof {
        let b = state(program, scope, info);
        leave_step(m, b);
        step_two(a, Step::Close, m, Step::Leave, b);
        assert(scope.frames() =~= old(scope).frames().drop_last());
        assert(scope.table() =~= old(scope).table());
    }
}

/// Gives the parameter number `k` a word of the frame, stores the parameter
/// there, and binds its name to the word, as [`param_script`] has it.
pub(crate) fn store_param(
    id: &String,
    k: usize,
    func: Func,
    program: &mut Prog,
    scope: &mut Scope,
    info: &mut Info,
) -> (r: Result<(), Error>)
    requires
        ready(old(program), old(scope), old(info)),
        old(scope).cur_func == Some(func),
        k < old(program).funcs[func.id as int].params.len(),
        k < old(program).funcs[func.id as int].params_ty.len(),
    ensures
        r is Ok ==> {
            &&& carried(
                final(program),
                final(scope),
                final(info),
                old(program),
                old(scope),
                old(info),
            )
            &&& final(scope).table() == old(scope).table()
            &&& final(info).zero_array_infos@ == old(info).zero_array_infos@
            &&& final(program).funcs[func.id as int].params == old(program).funcs[func.id as int].params
            &&& final(program).funcs[func.id as int].params_ty == old(
                program,
            ).funcs[func.id as int].params_ty
            &&& runs(
                state(old(program), old(scope), old(info)),
                param_script(state(old(program), old(scope), old(info)), id@, k as int),
                state(final(program), final(scope), final(info)),
            )
        },
        script_sure(
            state(old(program), old(scope), old(info)),
            param_script(state(old(program), old(scope), old(info)), id@, k as int),
        ) ==> r is Ok,
{
    let ghost a = state(program, scope, info);
    proof {
        grows_from(program, program);
        assert(program.func_ok(func.id as int));
        assert(program.has_value(program.funcs[func.id as int].params[k as int]));
    }
    let param = program.funcs[func.id].params[k];
    let ty = program.funcs[func.id].params_ty[k].clone();
    proof {
        let script = param_script(a, id@, k as int);
        if script_sure(a, script) {
            runs_none(a);
            assert(script.take(0) =~= Seq::<Step>::empty());
            sure_at(a, script, 0, Seq::empty(), a);
        }
    }
    let word = emit_alloc(program, scope, info, ty)?;
    let ghost m1 = state(program, scope, info);
    proof {
        let script = param_script(a, id@, k as int);
        if script_sure(a, script) {
            let t0 = Seq::<Step>::empty().push(Step::Alloc(ty));
            runs_on(a, Seq::empty(), a, Step::Alloc(ty), m1);
            assert(script.take(1) =~= t0);
            sure_at(a, script, 1, t0, m1);
        }
    }
    emit_store(program, scope, info, param, word)?;
    let ghost m2 = state(program, scope, info);
    declare(program, scope, info, id, Entry::Value(word));
    proof {
        step_three(
            a,
            Step::Alloc(ty),
            m1,
            Step::Store(param, word),
            m2,
            Step::Bind(id@, Entry::Value(word)),
            state(program, scope, info),
        );
    }
    Ok(())
}

/// One more parameter is stored and bound.
proof fn next_param(params: Vec<FuncParam>, k: nat, a: State, m: State, b: State)
    requires
        k < params.len(),
        follows(m, a),
        params_lower(params, k, a, m),
        runs(m, param_script(m, params[k as int].id@, k as int), b),
    ensures
        params_lower(params, k + 1, a, b),
{
    assert(((k + 1) - 1) as nat == k);
}

/// Gives each parameter a word of the frame, stores the parameter there, and
/// binds its name to the word.
pub(crate) fn bind_params(
    params: &Vec<FuncParam>,
    func: Func,
    program: &mut Prog,
    scope: &mut Scope,
    info: &mut Info,
) -> (r: Result<(), Error>)
    requires
        ready(old(program), old(scope), old(info)),
        old(scope).cur_func == Some(func),
        old(program).funcs[func.id as int].params.len() >= params.len(),
        old(program).funcs[func.id as int].params_ty.len() >= params.len(),
    ensures
        r is Ok ==> {
            &&& carried(
                final(program),
                final(scope),
                final(info),
                old(program),
                old(scope),
                old(info),
            )
            &&& final(scope).table() == old(scope).table()
            &&& final(info).zero_array_infos@ == old(info).zero_array_infos@
            &&& params_lower(
                *params,
                params.len() as nat,
                state(old(program), old(scope), old(info)),
                state(final(program), final(scope), final(info)),
            )
        },
        params_sure(*params, state(old(program), old(scope), old(info))) ==> r is Ok,
{
    let ghost a = state(program, scope, info);
    proof {
        grows_from(program, program);
    }
    let mut k: usize = 0;
    while k < params.len()
        invariant
            k <= params.len(),
            a == state(old(program), old(scope), old(info)),
            scope.cur_func == Some(func),
            program.has_func(func),
            program.funcs[func.id as int].params.len() >= params.len(),
            program.funcs[func.id as int].params_ty.len() >= params.len(),
            carried(program, scope, info, old(program), old(scope), old(info)),
            scope.table() == old(scope).table(),
            info.zero_array_infos@ == old(info).zero_array_infos@,
            params_lower(*params, k as nat, a, state(program, scope, info)),
        decreases params.len() - k,
    {
        let ghost m = state(program, scope, info);
        store_param(&params[k].id, k, func, program, scope, info)?;
        proof {
            assert(follows(m, a));
            next_param(*params, k as nat, a, m, state(program, scope, info));
        }
        k += 1;
    }
    Ok(())
}

/// Declares one function of the runtime library, as [`library_function`]
/// has it.
pub(crate) fn declare_library(
    program: &mut Prog,
    scope: &mut Scope,
    info: &Info,
    id: &str,
    params_ty: Vec<Ty>,
    ret_ty: Ty,
)
    requires
        ready(old(program), old(scope), info),
    ensures
        ready(final(program), final(scope), info),
        grows(final(program), old(program)),
        final(program).values@ == old(program).values@,
        final(scope).table() == old(scope).table().push(
            (id@, Func { id: old(program).funcs.len() }),
        ),
        final(program).funcs.len() == old(program).funcs.len() + 1,
        final(scope).values == old(scope).values,
        final(scope).cur_func == old(scope).cur_func,
        final(scope).cur_bb == old(scope).cur_bb,
        final(scope).loop_info == old(scope).loop_info,
        final(scope).label == old(scope).label,
        runs(
            state(old(program), old(scope), info),
            library_function(old(program).funcs.len() as nat, id@, params_ty@, ret_ty),
            state(final(program), final(scope), info),
        ),
{
    let ghost a = state(program, scope, info);
    let ghost tys = params_ty@;
    let func = emit_func_decl(program, scope, info, join2("@", id), params_ty, ret_ty);
    let ghost m = state(program, scope, info);
    emit_name(program, scope, info, String::from_str(id), func);
    proof {
        step_two(
            a,
            Step::Function("@"@ + id@, tys, ret_ty, false),
            m,
            Step::Name(id@, func),
            state(program, scope, info),
        );
        assert(program.values@ =~= old(program).values@);
    }
}

/// Declares the runtime library, as [`library_script`] has it: `getint`,
/// `getch`, `getarray`, `putint`, `putch`, `putarray`, `starttime` and
/// `stoptime`.
pub(crate) fn declare_runtime(program: &mut Prog, scope: &mut Scope, info: &Info)
    requires
        ready(old(program), old(scope), info),
    ensures
        ready(final(program), final(scope), info),
        grows(final(program), old(program)),
        final(program).values@ == old(program).values@,
        final(scope).values == old(scope).values,
        final(scope).cur_func == old(scope).cur_func,
        final(scope).cur_bb == old(scope).cur_bb,
        final(scope).loop_info == old(scope).loop_info,
        final(scope).label == old(scope).label,
        runs(
            state(old(program), old(scope), info),
            library_script(state(old(program), old(scope), info)),
            state(final(program), final(scope), info),
        ),
{
    let ghost a = state(program, scope, info);
    let ghost n = program.funcs.len() as nat;
    let ghost word = Ty::Int32;
    let ghost words = Ty::Pointer(Box::new(Ty::Int32));
    proof {
        grows_from(program, program);
    }
    declare_library(program, scope, info, "getint", Vec::new(), Ty::Int32);
    let ghost s1 = state(program, scope, info);
    let ghost t1 = library_function(n, "getint"@, seq![], word);
    declare_library(program, scope, info, "getch", Vec::new(), Ty::Int32);
    let ghost s2 = state(program, scope, info);
    let ghost t2 = t1 + library_function(n + 1, "getch"@, seq![], word);
    proof {
        runs_then(a, t1, s1, library_function(n + 1, "getch"@, seq![], word), s2);
    }
    let pointer = vec![Ty::Pointer(Box::new(Ty::Int32))];
    proof {
        assert(pointer@ =~= seq![words]);
    }
    declare_library(program, scope, info, "getarray", pointer, Ty::Int32);
    let ghost s3 = state(program, scope, info);
    let ghost t3 = t2 + library_function(n + 2, "getarray"@, seq![words], word);
    proof {
        runs_then(a, t2, s2, library_function(n + 2, "getarray"@, seq![words], word), s3);
    }
    let one_word = vec![Ty::Int32];
    proof {
        assert(one_word@ =~= seq![word]);
    }
    declare_library(program, scope, info, "putint", one_word, Ty::Unit);
    let ghost s4 = state(program, scope, info);
    let ghost t4 = t3 + library_function(n + 3, "putint"@, seq![word], Ty::Unit);
    proof {
        runs_then(a, t3, s3, library_function(n + 3, "putint"@, seq![word], Ty::Unit), s4);
    }
    let one_more = vec![Ty::Int32];
    proof {
        assert(one_more@ =~= seq![word]);
    }
    declare_library(program, scope, info, "putch", one_more, Ty::Unit);
    let ghost s5 = state(program, scope, info);
    let ghost t5 = t4 + library_function(n + 4, "putch"@, seq![word], Ty::Unit);
    proof {
        runs_then(a, t4, s4, library_function(n + 4, "putch"@, seq![word], Ty::Unit), s5);
    }
    let both = vec![Ty::Int32, Ty::Pointer(Box::new(Ty::Int32))];
    proof {
        assert(both@ =~= seq![word, words]);
    }
    declare_library(program, scope, info, "putarray", both, Ty::Unit);
    let ghost s6 = state(program, scope, info);
    let ghost t6 = t5 + library_function(n + 5, "putarray"@, seq![word, words], Ty::Unit);
    proof {
        runs_then(a, t5, s5, library_function(n + 5, "putarray"@, seq![word, words], Ty::Unit), s6);
    }
    declare_library(program, scope, info, "starttime", Vec::new(), Ty::Unit);
    let ghost s7 = state(program, scope, info);
    let ghost t7 = t6 + library_function(n + 6, "starttime"@, seq![], Ty::Unit);
    proof {
        runs_then(a, t6, s6, library_function(n + 6, "starttime"@, seq![], Ty::Unit), s7);
    }
    declare_library(program, scope, info, "stoptime", Vec::new(), Ty::Unit);
    proof {
        let b = state(program, scope, info);
        runs_then(a, t7, s7, library_function(n + 7, "stoptime"@, seq![], Ty::Unit), b);
        assert(program.values@ =~= old(program).values@);
    }
}

} // verus!

//! Lowering of the definitions of scalar variables outside any function.

use vstd::prelude::*;
use crate::ast::InitVal;
use crate::mem::create::carried;
use crate::mem::decl_rules::global_scalar_script;
use crate::mem::emit::{ready, Error};
use crate::mem::info::Info;
use crate::mem::rules::{runs, state};
use crate::mem::scope::Scope;
use crate::mem::word::global_scalar_init;
use crate::program::entities::Prog;

verus! {

/// Declares the scalar variable `id` outside any function.
pub(crate) fn global_scalar(
    id: &String,
    init: &Option<InitVal>,
    program: &mut Prog,
    scope: &mut Scope,
    info: &mut Info,
) -> (r: Result<(), Error>)
    requires
        ready(old(program), old(scope), old(info)),
        old(scope).cur_func is None,
    ensures
        match r {
            Ok(_) => {
                &&& carried(
                    final(program),
                    final(scope),
                    final(info),
                    old(program),
                    old(scope),
                    old(info),
                )
                &&& final(scope).table() == old(scope).table()
                &&& crate::mem::decl_rules::scalar_start(*init, old(scope).frames()) matches Some(n)
                    && runs(
                    state(old(program), old(scope), old(info)),
                    global_scalar_script(state(old(program), old(scope), old(info)), n, id@),
                    state(final(program), final(scope), final(info)),
                )
            },
            Err(e) => {
                &&& crate::mem::decl_rules::scalar_start(*init, old(scope).frames()) is None
                &&& e == if *init matches Some(InitVal::List(_)) {
                    Error::BadInitializer
                } else {
                    Error::NotConstant
                }
            },
        },
{
    let n = match init {
        Some(InitVal::Exp(e)) => match e.evaluate(scope) {
            Some(n) => n,
            None => {
                return Err(Error::NotConstant);
            },
        },
        Some(InitVal::List(_)) => {
            return Err(Error::BadInitializer);
        },
        None => 0,
    };
    global_scalar_init(id, n, program, scope, info);
    Ok(())
}

} // verus!

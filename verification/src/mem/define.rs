//! Lowering of the definitions of variables, and of declarations.

use vstd::prelude::*;
use crate::ast::{Decl, InitVal, VarDecl, VarDef};
use crate::mem::array::declare_array;
use crate::mem::create::carried;
use crate::mem::decl::{copy_dims, eval_dims};
use crate::mem::decl_owed::{dims_fine, sizes_of};
use crate::mem::decl_rules::{local_scalar_init_script, var_array, var_defs_lower};
use crate::mem::emit::{emit_dims, grows_from, ready, Error};
use crate::mem::info::Info;
use crate::mem::init::{dims_ok, flat, Init};
use crate::mem::owed::came;
use crate::mem::rules::{follows, runs, state, step_one, Step};
use crate::mem::scalar::global_scalar;
use crate::mem::scope::Scope;
use crate::mem::values::start_values;
use crate::mem::word::{local_scalar, local_scalar_init};
use crate::program::entities::Prog;

verus! {

impl VarDef {
    /// A global variable becomes a global allocation that starts out as its
    /// initializer, which must be constant, or as zero. A local variable
    /// becomes a local allocation, with stores for what its initializer gives.
    pub fn create(&self, program: &mut Prog, scope: &mut Scope, info: &mut Info) -> (r: Result<
        (),
        Error,
    >)
        requires
            ready(old(program), old(scope), old(info)),
        ensures
            r is Ok ==> {
                &&& carried(
                    final(program),
                    final(scope),
                    final(info),
                    old(program),
                    old(scope),
                    old(info),
                )
                &&& final(scope).table() == old(scope).table()
                &&& old(scope).cur_func is Some ==> final(info).zero_array_infos@ == old(
                    info,
                ).zero_array_infos@
                &&& self.lowers(
                    state(old(program), old(scope), old(info)),
                    state(final(program), final(scope), final(info)),
                )
            },
            self.dims.len() == 0 && old(scope).cur_func is None ==> (r is Ok
                <==> crate::mem::decl_rules::scalar_start(self.init, old(scope).frames()) is Some),
            self.dims.len() == 0 && old(scope).cur_func is Some && self.init is None ==> r is Ok,
            self.dims.len() > 0 && old(scope).cur_func is None && dims_fine(
                self.dims@,
                old(scope).frames(),
            ) && dims_ok(sizes_of(self.dims@, old(scope).frames())) && (self.init matches Some(i)
                ==> i.constant(old(scope).frames()) && exists|t: Init<i32>| #[trigger]
                i.valued(t, old(scope).frames()) && flat(
                    t,
                    sizes_of(self.dims@, old(scope).frames()),
                    0i32,
                ) is Some) ==> r is Ok,
            self.dims.len() == 0 && (self.init matches Some(InitVal::List(_))) ==> r == Err::<
                (),
                Error,
            >(Error::BadInitializer),
            self.sure(state(old(program), old(scope), old(info))) ==> r is Ok,
    {
        let ghost a = state(program, scope, info);
        proof {
            grows_from(program, program);
        }
        if self.dims.len() == 0 {
            if scope.is_global() {
                return global_scalar(&self.id, &self.init, program, scope, info);
            } else {
                return match &self.init {
                    Some(InitVal::Exp(e)) => {
                        let value = e.create(program, scope, info)?;
                        let ghost m = state(program, scope, info);
                        proof {
                            assert(came(m, value));
                        }
                        local_scalar_init(&self.id, value, program, scope, info)?;
                        proof {
                            let b = state(program, scope, info);
                            assert(runs(m, local_scalar_init_script(m, value, self.id@), b));
                            assert(self.lowers(a, b));
                        }
                        Ok(())
                    },
                    Some(InitVal::List(_)) => Err(Error::BadInitializer),
                    None => local_scalar(&self.id, program, scope, info),
                };
            }
        }
        let dims = eval_dims(&self.dims, scope)?;
        let ghost sizes = dims@;
        emit_dims(program, scope, info, copy_dims(&dims));
        let ghost m1 = state(program, scope, info);
        proof {
            step_one(a, Step::Dims(sizes), m1);
        }
        let values = start_values(&self.init, &dims, program, scope, info)?;
        let ghost contents = values@;
        let ghost m2 = state(program, scope, info);
        declare_array(&self.id, values, dims, program, scope, info)?;
        proof {
            let b = state(program, scope, info);
            assert(var_array(contents, sizes, self.id@, m2, b));
            assert(self.lowers(a, b));
        }
        Ok(())
    }
}

impl VarDecl {
    pub fn create(&self, program: &mut Prog, scope: &mut Scope, info: &mut Info) -> (r: Result<
        (),
        Error,
    >)
        requires
            ready(old(program), old(scope), old(info)),
        ensures
            r is Ok ==> {
                &&& carried(
                    final(program),
                    final(scope),
                    final(info),
                    old(program),
                    old(scope),
                    old(info),
                )
                &&& final(scope).table() == old(scope).table()
                &&& old(scope).cur_func is Some ==> final(info).zero_array_infos@ == old(
                    info,
                ).zero_array_infos@
                &&& self.lowers(
                    state(old(program), old(scope), old(info)),
                    state(final(program), final(scope), final(info)),
                )
            },
            self.sure(state(old(program), old(scope), old(info))) ==> r is Ok,
    {
        let ghost a = state(program, scope, info);
        proof {
            grows_from(program, program);
        }
        let mut k: usize = 0;
        while k < self.defs.len()
            invariant
                k <= self.defs.len(),
                a == state(old(program), old(scope), old(info)),
                carried(program, scope, info, old(program), old(scope), old(info)),
                scope.table() == old(scope).table(),
                old(scope).cur_func is Some ==> info.zero_array_infos@ == old(
                    info,
                ).zero_array_infos@,
                var_defs_lower(self.defs, k as nat, a, state(program, scope, info)),
            decreases self.defs.len() - k,
        {
            let ghost m = state(program, scope, info);
            self.defs[k].create(program, scope, info)?;
            proof {
                assert(follows(m, a));
            }
            k += 1;
        }
        Ok(())
    }
}

impl Decl {
    pub fn create(&self, program: &mut Prog, scope: &mut Scope, info: &mut Info) -> (r: Result<
        (),
        Error,
    >)
        requires
            ready(old(program), old(scope), old(info)),
        ensures
            r is Ok ==> {
                &&& carried(
                    final(program),
                    final(scope),
                    final(info),
                    old(program),
                    old(scope),
                    old(info),
                )
                &&& final(scope).table() == old(scope).table()
                &&& old(scope).cur_func is Some ==> final(info).zero_array_infos@ == old(
                    info,
                ).zero_array_infos@
                &&& self.lowers(
                    state(old(program), old(scope), old(info)),
                    state(final(program), final(scope), final(info)),
                )
            },
            self.sure(state(old(program), old(scope), old(info))) ==> r is Ok,
    {
        match self {
            Decl::Const(decl) => decl.create(program, scope, info),
            Decl::Var(decl) => decl.create(program, scope, info),
        }
    }
}

} // verus!

//! Lowering of the definitions of constants.

use vstd::prelude::*;
use crate::ast::{ConstDecl, ConstDef, ConstInitVal};
use crate::mem::array::declare_global_array;
use crate::mem::create::carried;
use crate::mem::decl::{all_zero, bind, copy_dims, declare, eval_dims};
use crate::mem::decl_owed::stored_sure;
use crate::mem::decl_rules::{
    all_zero_nums,
    built,
    const_array,
    const_defs_lower,
    global_script,
    integers,
    made_from,
    stored,
};
use crate::mem::emit::{emit_alloc, emit_dims, grows_from, ready, Error};
use crate::mem::info::Info;
use crate::mem::init::{flat, Init};
use crate::mem::owed::was;
use crate::mem::rules::{follows, one, runs, state, step_one, State, Step};
use crate::mem::scope::{Entry, Scope};
use crate::program::entities::Prog;
use crate::program::types::array_type;
use crate::tools::{array_type_of, global_const_array_init, local_const_array_init};

verus! {

impl ConstDef {
    /// A scalar constant is bound to its number and leaves no trace in the
    /// program. A constant array becomes a global allocation outside any
    /// function and a local allocation with stores inside one.
        pub fn create(&self, program: &mut Prog, scope: &mut Scope, info: &mut Info) -> (r: Result<
        (),
        Error,
    >)
        requires
            ready(old(program), old(scope), old(info)),
        ensures
            r is Ok ==> {
                &&& carried(
                    final(program),
                    final(scope),
                    final(info),
                    old(program),
                    old(scope),
                    old(info),
                )
                &&& final(scope).table() == old(scope).table()
                &&& old(scope).cur_func is Some ==> final(info).zero_array_infos@ == old(
                    info,
                ).zero_array_infos@
                &&& self.lowers(
                    state(old(program), old(scope), old(info)),
                    state(final(program), final(scope), final(info)),
                )
            },
            self.dims.len() == 0 ==> match r {
                Ok(_) => {
                    &&& self.init matches ConstInitVal::Exp(e)
                    &&& e.eval(old(scope).frames()) matches Some(n)
                    &&& final(scope).frames() == bind(old(scope).frames(), self.id@, Entry::Const(n))
                    &&& *final(program) == *old(program)
                    &&& *final(info) == *old(info)
                },
                Err(e) => match self.init {
                    ConstInitVal::Exp(x) => x.eval(old(scope).frames()) is None && e
                        == Error::NotConstant,
                    ConstInitVal::List(_) => e == Error::BadInitializer,
                },
            },
            self.sure(state(old(program), old(scope), old(info))) ==> r is Ok,
    {
        let ghost a = state(program, scope, info);
        proof {
            grows_from(program, program);
        }
        if self.dims.len() == 0 {
            let n = match &self.init {
                ConstInitVal::Exp(e) => match e.evaluate(scope) {
                    Some(_) => e.create(scope),
                    None => {
                        return Err(Error::NotConstant);
                    },
                },
                ConstInitVal::List(_) => {
                    return Err(Error::BadInitializer);
                },
            };
            declare(program, scope, info, &self.id, Entry::Const(n));
            proof {
                step_one(a, Step::Bind(self.id@, Entry::Const(n)), state(program, scope, info));
            }
            return Ok(());
        }
        let dims = eval_dims(&self.dims, scope)?;
        let ghost sizes = dims@;
        emit_dims(program, scope, info, copy_dims(&dims));
        let ghost m = state(program, scope, info);
        proof {
            step_one(a, Step::Dims(sizes), m);
        }
        let nums = self.init.create(scope)?;
        let ghost numbers = nums@;
        let ghost tree = choose|tree: Init<i32>| #[trigger]
            self.init.shaped(tree, scope.frames()) && flat(tree, scope.array_info@, 0i32) == Some(
                numbers,
            );
        if scope.is_global() {
            let zero = all_zero(&nums);
            let init = global_const_array_init(program, scope, info, nums, copy_dims(&dims))?;
            let ghost m2 = state(program, scope, info);
            let v = declare_global_array(program, scope, info, &self.id, init, dims, zero);
            proof {
                let b = state(program, scope, info);
                assert(zero == all_zero_nums(numbers));
                let m1 = choose|m1: State| #[trigger]
                    runs(m, integers(numbers), m1) && built(
                        made_from(m, numbers.len()),
                        0,
                        sizes,
                        m1,
                        m2,
                        init,
                    );
                assert(runs(m2, global_script(m2, init, sizes, all_zero_nums(numbers), self.id@), b));
                assert(const_array(numbers, sizes, self.id@, m, b));
                assert(flat(tree, sizes, 0i32) == Some(numbers));
                assert(self.lowers(a, b));
            }
        } else {
            let ty = array_type_of(&dims);
            let dest = emit_alloc(program, scope, info, ty)?;
            let ghost m1 = state(program, scope, info);
            proof {
                step_one(m, Step::Alloc(array_type(sizes)), m1);
                if self.sure(a) {
                    assert forall|m2: State| #[trigger]
                        runs(m1, integers(numbers), m2) implies stored_sure(
                        made_from(m1, numbers.len()),
                        0,
                        sizes,
                        dest,
                        m2,
                    ) by {
                        assert(was(m2));
                    }
                }
            }
            local_const_array_init(program, scope, info, nums, dims, dest)?;
            let ghost m3 = state(program, scope, info);
            declare(program, scope, info, &self.id, Entry::Value(dest));
            proof {
                let b = state(program, scope, info);
                step_one(m, Step::Alloc(array_type(sizes)), m1);
                step_one(m3, Step::Bind(self.id@, Entry::Value(dest)), b);
                assert(dest == m.next());
                let m2 = choose|m2: State| #[trigger]
                    runs(m1, integers(numbers), m2) && stored(
                        made_from(m1, numbers.len()),
                        0,
                        sizes,
                        dest,
                        m2,
                        m3,
                    );
                assert(runs(m1, integers(numbers), m2));
                assert(const_array(numbers, sizes, self.id@, m, b));
                assert(flat(tree, sizes, 0i32) == Some(numbers));
                assert(self.lowers(a, b));
            }
        }
        Ok(())
    }
}

impl ConstDecl {
    pub fn create(&self, program: &mut Prog, scope: &mut Scope, info: &mut Info) -> (r: Result<
        (),
        Error,
    >)
        requires
            ready(old(program), old(scope), old(info)),
        ensures
            r is Ok ==> {
                &&& carried(
                    final(program),
                    final(scope),
                    final(info),
                    old(program),
                    old(scope),
                    old(info),
                )
                &&& final(scope).table() == old(scope).table()
                &&& old(scope).cur_func is Some ==> final(info).zero_array_infos@ == old(
                    info,
                ).zero_array_infos@
                &&& self.lowers(
                    state(old(program), old(scope), old(info)),
                    state(final(program), final(scope), final(info)),
                )
            },
            self.sure(state(old(program), old(scope), old(info))) ==> r is Ok,
    {
        let ghost a = state(program, scope, info);
        proof {
            grows_from(program, program);
        }
        let mut k: usize = 0;
        while k < self.defs.len()
            invariant
                k <= self.defs.len(),
                a == state(old(program), old(scope), old(info)),
                carried(program, scope, info, old(program), old(scope), old(info)),
                scope.table() == old(scope).table(),
                old(scope).cur_func is Some ==> info.zero_array_infos@ == old(
                    info,
                ).zero_array_infos@,
                const_defs_lower(self.defs, k as nat, a, state(program, scope, info)),
            decreases self.defs.len() - k,
        {
            let ghost m = state(program, scope, info);
            self.defs[k].create(program, scope, info)?;
            proof {
                assert(follows(m, a));
            }
            k += 1;
        }
        Ok(())
    }
}

} // verus!

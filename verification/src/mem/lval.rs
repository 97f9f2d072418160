//! Lowering of l-values that are read.

use vstd::prelude::*;
use crate::ast::{Exp, LVal};
use crate::mem::create::{access_of, classify, fold, kept, lowered, Access};
use crate::mem::emit::{emit_index, emit_integer, emit_load, grows_from, lookup_ok, ready, Error};
use crate::mem::info::Info;
use crate::mem::owed::{came, came_to, indices_sure};
use crate::mem::rules::{
    decay_script,
    follows,
    index_step,
    indices_lower,
    one,
    runs,
    runs_none,
    runs_on,
    state,
    step_one,
    Step,
};
use crate::mem::scope::{lookup, Entry, Scope};
use crate::program::entities::{Prog, Val};

verus! {

/// Lowers the index expressions one after the other, stepping from `src` by
/// each: into the array pointed to, but for the first step when the pointer
/// came out of a pointer parameter, which goes along the pointer.
pub(crate) fn index_chain(
    indices: &Vec<Exp>,
    program: &mut Prog,
    scope: &mut Scope,
    info: &mut Info,
    src: Val,
    through_pointer: bool,
) -> (r: Result<Val, Error>)
    requires
        ready(old(program), old(scope), old(info)),
        old(program).operand(old(scope).cur_func, src, old(program).values.len() as int),
    ensures
        r matches Ok(v) ==> {
            &&& kept(final(program), final(scope), final(info), old(program), old(scope), old(info))
            &&& final(program).operand(final(scope).cur_func, v, final(program).values.len() as int)
            &&& indices_lower(
                *indices,
                indices.len() as nat,
                state(old(program), old(scope), old(info)),
                state(final(program), final(scope), final(info)),
                src,
                v,
                through_pointer,
            )
        },
        indices_sure(*indices, state(old(program), old(scope), old(info)), src, through_pointer)
            ==> r is Ok,
    decreases indices,
{
    let ghost a = state(program, scope, info);
    let mut at = src;
    let mut k: usize = 0;
    proof {
        grows_from(program, program);
    }
    while k < indices.len()
        invariant
            k <= indices.len(),
            a == state(old(program), old(scope), old(info)),
            kept(program, scope, info, old(program), old(scope), old(info)),
            program.operand(scope.cur_func, at, program.values.len() as int),
            indices_lower(*indices, k as nat, a, state(program, scope, info), src, at, through_pointer),
        decreases indices.len() - k,
    {
        let ghost m1 = state(program, scope, info);
        let ghost mid = at;
        proof {
            assert(came_to(k as nat, m1, seq![mid]));
        }
        let index = indices[k].create(program, scope, info)?;
        let ghost m2 = state(program, scope, info);
        proof {
            assert(came(m2, index));
        }
        at = emit_index(program, scope, info, at, index, !(through_pointer && k == 0))?;
        proof {
            let b = state(program, scope, info);
            runs_none(m2);
            runs_on(m2, Seq::empty(), m2, index_step(mid, index, through_pointer, (k + 1) as nat), b);
            assert(one(m2, index_step(mid, index, through_pointer, (k + 1) as nat), b));
            assert(follows(m1, a));
            assert(indices_lower(*indices, (k + 1) as nat, a, b, src, at, through_pointer));
        }
        k += 1;
    }
    Ok(at)
}

impl LVal {
    /// Reads an l-value: a constant becomes its number, a scalar or an
    /// element is loaded, and a sub-array decays to the address of its first
    /// element.
    pub fn create(&self, program: &mut Prog, scope: &mut Scope, info: &mut Info) -> (r: Result<
        Val,
        Error,
    >)
        requires
            ready(old(program), old(scope), old(info)),
        ensures
            lowered(
                r,
                self.eval(old(scope).frames()),
                final(program),
                final(scope),
                final(info),
                old(program),
                old(scope),
                old(info),
            ),
            r matches Ok(v) ==> self.lowers(
                state(old(program), old(scope), old(info)),
                state(final(program), final(scope), final(info)),
                v,
            ),
            old(scope).cur_func is Some && lookup(old(scope).frames(), self.id@) is None ==> r == Err::<
                Val,
                Error,
            >(Error::UnknownName),
            old(scope).cur_func is Some && (lookup(old(scope).frames(), self.id@) matches Some(
                Entry::Value(var),
            ) && access_of(old(program).ty(var), self.dims.len() as nat) is None) ==> r == Err::<
                Val,
                Error,
            >(Error::BadLVal),
            self.sure(state(old(program), old(scope), old(info))) ==> r is Ok,
        decreases self,
    {
        let ghost a = state(program, scope, info);
        let entry = scope.get(&self.id);
        match entry {
            Some(Entry::Const(n)) => {
                return fold(program, scope, info, n);
            },
            _ => {},
        }
        if scope.is_global() {
            return Err(Error::NotConstant);
        }
        let var = match entry {
            Some(Entry::Value(var)) => var,
            _ => {
                return Err(Error::UnknownName);
            },
        };
        proof {
            lookup_ok(scope.frames(), self.id@, program, scope.cur_func);
            grows_from(program, program);
        }
        let access = match classify(program.value_ty(var), self.dims.len()) {
            Some(access) => access,
            None => {
                return Err(Error::BadLVal);
            },
        };
        match access {
            Access::Scalar => {
                let v = emit_load(program, scope, info, var)?;
                proof {
                    runs_none(a);
                    runs_on(a, Seq::empty(), a, Step::Load(var), state(program, scope, info));
                }
                Ok(v)
            },
            Access::Element => {
                let at = index_chain(&self.dims, program, scope, info, var, false)?;
                let ghost m = state(program, scope, info);
                proof {
                    assert(came(m, at));
                }
                let v = emit_load(program, scope, info, at)?;
                proof {
                    let b = state(program, scope, info);
                    runs_none(m);
                    runs_on(m, Seq::empty(), m, Step::Load(at), b);
                    assert(one(m, Step::Load(at), b));
                    assert(follows(m, a));
                    assert(self.lowers(a, b, v));
                }
                Ok(v)
            },
            Access::Slice => {
                let at = index_chain(&self.dims, program, scope, info, var, false)?;
                let ghost m = state(program, scope, info);
                proof {
                    assert(came(m, at));
                }
                let zero = emit_integer(program, scope, info, 0);
                let ghost m1 = state(program, scope, info);
                proof {
                    step_one(m, Step::Integer(0), m1);
                }
                let v = emit_index(program, scope, info, at, zero, true)?;
                proof {
                    let b = state(program, scope, info);
                    let t0 = Seq::<Step>::empty().push(Step::Integer(0));
                    let t1 = t0.push(Step::Index(at, zero, true));
                    runs_none(m);
                    runs_on(m, Seq::empty(), m, Step::Integer(0), m1);
                    runs_on(m, t0, m1, Step::Index(at, zero, true), b);
                    assert(t1 =~= decay_script(m, at));
                    assert(runs(m, decay_script(m, at), b));
                    assert(follows(m, a));
                    assert(self.lowers(a, b, v));
                }
                Ok(v)
            },
            Access::PointerElement => {
                let pointer = emit_load(program, scope, info, var)?;
                let ghost m1 = state(program, scope, info);
                proof {
                    step_one(a, Step::Load(var), m1);
                }
                let at = index_chain(&self.dims, program, scope, info, pointer, true)?;
                let ghost m2 = state(program, scope, info);
                proof {
                    assert(came(m2, at));
                }
                let v = emit_load(program, scope, info, at)?;
                proof {
                    let b = state(program, scope, info);
                    runs_none(a);
                    runs_on(a, Seq::empty(), a, Step::Load(var), m1);
                    runs_none(m2);
                    runs_on(m2, Seq::empty(), m2, Step::Load(at), b);
                    assert(one(a, Step::Load(var), m1));
                    assert(one(m2, Step::Load(at), b));
                    assert(pointer == a.next());
                    assert(self.lowers(a, b, v));
                }
                Ok(v)
            },
            Access::PointerSlice => {
                let pointer = emit_load(program, scope, info, var)?;
                let ghost m1 = state(program, scope, info);
                proof {
                    runs_none(a);
                    runs_on(a, Seq::empty(), a, Step::Load(var), m1);
                    step_one(a, Step::Load(var), m1);
                }
                let at = index_chain(&self.dims, program, scope, info, pointer, true)?;
                let ghost m2 = state(program, scope, info);
                proof {
                    assert(came(m2, at));
                }
                if self.dims.len() > 0 {
                    let zero = emit_integer(program, scope, info, 0);
                    let ghost m3 = state(program, scope, info);
                    proof {
                        step_one(m2, Step::Integer(0), m3);
                    }
                    let v = emit_index(program, scope, info, at, zero, true)?;
                    proof {
                        let b = state(program, scope, info);
                        let t0 = Seq::<Step>::empty().push(Step::Integer(0));
                        let t1 = t0.push(Step::Index(at, zero, true));
                        runs_none(m2);
                        runs_on(m2, Seq::empty(), m2, Step::Integer(0), m3);
                        runs_on(m2, t0, m3, Step::Index(at, zero, true), b);
                        assert(t1 =~= decay_script(m2, at));
                        assert(runs(m2, decay_script(m2, at), b));
                        assert(one(a, Step::Load(var), m1));
                        assert(pointer == a.next());
                        assert(self.lowers(a, b, v));
                    }
                    Ok(v)
                } else {
                    proof {
                        assert(one(a, Step::Load(var), m1));
                    }
                    Ok(at)
                }
            },
        }
    }
}

} // verus!

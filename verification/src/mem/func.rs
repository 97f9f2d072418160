//! Lowering of functions and of the whole compilation unit.

use vstd::prelude::*;
use crate::ast::{CompItem, CompUnit, Decl, FuncDef, FuncParam};
use crate::mem::create::carried;
use crate::mem::decl::eval_dims;
use crate::mem::decl_owed::comp_items_sure;
use crate::mem::decl_rules::{
    comp_items_lower,
    end_script,
    head_script,
    library_script,
    params_typed,
    result_type,
};
use crate::mem::emit::{entry_ok, grows, grows_from, ready, Error};
use crate::mem::frame::{begin_function, bind_params, declare_runtime, end_function};
use crate::mem::info::Info;
use crate::mem::rules::{follows, runs, state, State};
use crate::mem::scope::{Frame, Scope};
use crate::program::entities::{Func, Prog};
use crate::program::types::Ty;
use crate::tools::array_type_of;

verus! {

/// One more parameter has its type.
proof fn next_typed(params: Seq<FuncParam>, k: int, frames: Seq<Frame>, tys: Seq<Ty>, ty: Ty)
    requires
        0 <= k < params.len(),
        params_typed(params.take(k), frames, tys),
        params[k].typed(frames, ty),
    ensures
        params_typed(params.take(k + 1), frames, tys.push(ty)),
{
    let next = params.take(k + 1);
    let more = tys.push(ty);
    assert forall|i: int| 0 <= i < next.len() implies (#[trigger] next[i]).typed(frames, more[i]) by {
        if i < k {
            assert(params.take(k)[i] == next[i]);
            assert(more[i] == tys[i]);
        } else {
            assert(next[i] == params[k]);
        }
    }
}

impl FuncParam {
    /// The type of a parameter: `i32`, or for an array parameter the pointer
    /// to an array of the dimensions after the first.
    pub fn create(&self, scope: &Scope) -> (r: Result<Ty, Error>)
        ensures
            match r {
                Ok(ty) => self.typed(scope.frames(), ty),
                Err(e) => self.dims is Some && (e == Error::NotConstant || e == Error::BadDimension),
            },
            r matches Ok(ty) ==> ty != Ty::Unit,
            self.fine(scope.frames()) ==> r is Ok,
    {
        match &self.dims {
            None => Ok(Ty::Int32),
            Some(dims) => {
                let sizes = eval_dims(dims, scope)?;
                Ok(Ty::Pointer(Box::new(array_type_of(&sizes))))
            },
        }
    }
}

/// The types of the parameters, in order.
pub(crate) fn param_types(params: &Vec<FuncParam>, scope: &Scope) -> (r: Result<Vec<Ty>, Error>)
    ensures
        r matches Ok(tys) ==> params_typed(params@, scope.frames(), tys@) && Prog::params_ty_ok(
            tys@,
        ),
        (forall|i: int| 0 <= i < params.len() ==> (#[trigger] params[i]).fine(scope.frames()))
            ==> r is Ok,
{
    let mut params_ty: Vec<Ty> = Vec::new();
    let mut k: usize = 0;
    while k < params.len()
        invariant
            k <= params.len(),
            params_ty.len() == k,
            forall|i: int| 0 <= i < k ==> #[trigger] params_ty[i] != Ty::Unit,
            params_typed(params@.take(k as int), scope.frames(), params_ty@),
        decreases params.len() - k,
    {
        let ty = params[k].create(scope)?;
        proof {
            next_typed(params@, k as int, scope.frames(), params_ty@, ty);
        }
        params_ty.push(ty);
        k += 1;
    }
    proof {
        assert(params@.take(k as int) =~= params@);
    }
    Ok(params_ty)
}

impl FuncDef {
    /// A function definition: the function enters the table under its name,
    /// its first block is `%entry`, its parameters live in words of the
    /// frame, and its body is lowered in a frame of names of its own.
    pub fn create(&self, program: &mut Prog, scope: &mut Scope, info: &mut Info) -> (r: Result<
        (),
        Error,
    >)
        requires
            ready(old(program), old(scope), old(info)),
        ensures
            r is Ok ==> {
                &&& carried(
                    final(program),
                    final(scope),
                    final(info),
                    old(program),
                    old(scope),
                    old(info),
                )
                &&& old(scope).cur_func is None
                &&& final(scope).frames() == old(scope).frames()
                &&& final(scope).table().len() == old(scope).table().len() + 1
                &&& final(scope).table().last().0 == self.id@
                &&& final(scope).table().last().1.id == old(program).funcs.len()
                &&& self.lowers(
                    state(old(program), old(scope), old(info)),
                    state(final(program), final(scope), final(info)),
                )
            },
            old(scope).cur_func is Some ==> r == Err::<(), Error>(Error::NestedFunction),
            self.sure(state(old(program), old(scope), old(info))) ==> r is Ok,
    {
        let ghost a = state(program, scope, info);
        if !scope.is_global() {
            return Err(Error::NestedFunction);
        }
        proof {
            grows_from(program, program);
        }
        let params_ty = param_types(&self.params, scope)?;
        let ghost tys = params_ty@;
        let ret_ty = self.ty.create();
        let func = begin_function(&self.id, params_ty, ret_ty, program, scope, info);
        let ghost m1 = state(program, scope, info);
        bind_params(&self.params, func, program, scope, info)?;
        let ghost m2 = state(program, scope, info);
        self.body.create(program, scope, info)?;
        let ghost m3 = state(program, scope, info);
        proof {
            if old(scope).loop_info.len() > 0 {
                assert(old(program).target(None, old(scope).loop_info[0].0));
            }
            assert(scope.loop_info@.len() == old(scope).loop_info@.len());
            let frames = scope.frames().drop_last();
            assert(frames =~= old(scope).frames());
            assert forall|i: int, j: int|
                0 <= i < frames.len() && 0 <= j < frames[i].len() implies entry_ok(
                program,
                None,
                (#[trigger] frames[i][j]).1,
            ) by {
                let e = old(scope).frames()[i][j].1;
                assert(entry_ok(old(program), None, e));
            }
        }
        end_function(program, scope, info);
        proof {
            let b = state(program, scope, info);
            assert(scope.frames() =~= old(scope).frames());
            assert(scope.table() =~= old(scope).table().push((self.id@, func)));
            assert(follows(m2, m1));
            assert(result_type(self.ty) == ret_ty);
            assert(runs(a, head_script(a, self.id@, tys, result_type(self.ty)), m1));
            assert(runs(m3, end_script(), b));
            assert(self.lowers(a, b));
        }
        Ok(())
    }
}

impl CompItem {
    pub fn create(&self, program: &mut Prog, scope: &mut Scope, info: &mut Info) -> (r: Result<
        (),
        Error,
    >)
        requires
            ready(old(program), old(scope), old(info)),
        ensures
            r is Ok ==> {
                &&& carried(
                    final(program),
                    final(scope),
                    final(info),
                    old(program),
                    old(scope),
                    old(info),
                )
                &&& self.lowers(
                    state(old(program), old(scope), old(info)),
                    state(final(program), final(scope), final(info)),
                )
            },
            self.sure(state(old(program), old(scope), old(info))) ==> r is Ok,
    {
        match self {
            CompItem::Func(func) => func.create(program, scope, info),
            CompItem::Decl(decl) => decl.create(program, scope, info),
        }
    }
}

/// One more item of a unit is lowered.
proof fn next_item(items: Vec<CompItem>, k: nat, a: State, m: State, b: State)
    requires
        k < items.len(),
        follows(m, a),
        comp_items_lower(items, k, a, m),
        items[k as int].lowers(m, b),
    ensures
        comp_items_lower(items, k + 1, a, b),
{
    assert(((k + 1) - 1) as nat == k);
}

impl CompUnit {
    /// Declares the runtime library, `getint`, `getch`, `getarray`, `putint`,
    /// `putch`, `putarray`, `starttime` and `stoptime`, then lowers the items
    /// in order.
    pub fn create(&self, program: &mut Prog, scope: &mut Scope, info: &mut Info) -> (r: Result<
        (),
        Error,
    >)
        requires
            ready(old(program), old(scope), old(info)),
        ensures
            r is Ok ==> {
                &&& ready(final(program), final(scope), final(info))
                &&& grows(final(program), old(program))
                &&& final(scope).cur_func == old(scope).cur_func
                &&& self.lowers(
                    state(old(program), old(scope), old(info)),
                    state(final(program), final(scope), final(info)),
                )
            },
            self.sure(state(old(program), old(scope), old(info))) ==> r is Ok,
    {
        let ghost a = state(program, scope, info);
        proof {
            grows_from(program, program);
        }
        declare_runtime(program, scope, info);
        let ghost m = state(program, scope, info);
        let mut k: usize = 0;
        while k < self.items.len()
            invariant
                k <= self.items.len(),
                ready(program, scope, info),
                grows(program, old(program)),
                scope.cur_func == old(scope).cur_func,
                program.values.len() >= m.program.values.len(),
                comp_items_lower(self.items, k as nat, m, state(program, scope, info)),
                self.sure(state(old(program), old(scope), old(info))) ==> comp_items_sure(
                    self.items,
                    m,
                ),
            decreases self.items.len() - k,
        {
            let ghost s = state(program, scope, info);
            proof {
                if comp_items_sure(self.items, m) {
                    assert(self.items[k as int].sure(s));
                }
            }
            self.items[k].create(program, scope, info)?;
            proof {
                assert(follows(s, m));
                next_item(self.items, k as nat, m, s, state(program, scope, info));
            }
            k += 1;
        }
        proof {
            assert(runs(a, library_script(a), m));
        }
        Ok(())
    }
}

} // verus!

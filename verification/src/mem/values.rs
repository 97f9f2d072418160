//! Lowering of the initializers of variables.

use vstd::prelude::*;
use crate::ast::InitVal;
use crate::mem::create::kept;
use crate::mem::decl::copy_dims;
use crate::mem::decl_owed::{consts, consts_grow, init_sure, list_sure};
use crate::mem::decl_rules::{init_lowers, list_shapes};
use crate::mem::emit::{emit_integer, grows_from, ready, Error};
use crate::mem::emit::constant_of;
use crate::mem::info::Info;
use crate::mem::init::{
    dims_ok,
    fill,
    fill_all,
    flat,
    flat_outline,
    flatten,
    leaves_all,
    leaves_mono,
    product,
    suffix_products,
    Init,
};
use crate::mem::rules::{follows, one, state, step_one, State, Step};
use crate::mem::scope::Scope;
use crate::program::entities::{Prog, Val};
use crate::program::types::Ty;

verus! {

/// One more initializer of a list is lowered.
pub proof fn next_shape(
    list: Vec<InitVal>,
    k: nat,
    a: State,
    m: State,
    b: State,
    items: Seq<Init<Val>>,
    item: Init<Val>,
)
    requires
        k < list.len(),
        items.len() == k,
        follows(m, a),
        list_shapes(list, k, a, m, items),
        list[k as int].shapes(m, b, item),
    ensures
        list_shapes(list, k + 1, a, b, items.push(item)),
{
    assert(((k + 1) - 1) as nat == k);
    assert(items.push(item).drop_last() =~= items);
}

/// Lowers the initializers of a list, in order.
pub(crate) fn shape_list(
    list: &Vec<InitVal>,
    program: &mut Prog,
    scope: &mut Scope,
    info: &mut Info,
) -> (r: Result<Vec<Init<Val>>, Error>)
    requires
        ready(old(program), old(scope), old(info)),
    ensures
        r matches Ok(items) ==> {
            &&& kept(final(program), final(scope), final(info), old(program), old(scope), old(info))
            &&& list_shapes(
                *list,
                list.len() as nat,
                state(old(program), old(scope), old(info)),
                state(final(program), final(scope), final(info)),
                items@,
            )
        },
        list_sure(*list, state(old(program), old(scope), old(info))) ==> r is Ok,
        r matches Ok(items) ==> items.len() == list.len() && forall|i: int|
            0 <= i < list.len() ==> (#[trigger] list[i]).outlined(items[i]),
        (forall|i: int| 0 <= i < list.len() ==> (#[trigger] list[i]).constant(old(scope).frames()))
            ==> r is Ok,
        old(scope).cur_func is None ==> (r matches Ok(items) ==> forall|i: int|
            0 <= i < items.len() ==> leaves_all(#[trigger] items[i], consts(*final(program)))),
    decreases list,
{
    let ghost a = state(program, scope, info);
    proof {
        grows_from(program, program);
    }
    let mut items: Vec<Init<Val>> = Vec::new();
    let mut k: usize = 0;
    while k < list.len()
        invariant
            k <= list.len(),
            a == state(old(program), old(scope), old(info)),
            kept(program, scope, info, old(program), old(scope), old(info)),
            items.len() == k,
            list_shapes(*list, k as nat, a, state(program, scope, info), items@),
            forall|i: int| 0 <= i < k ==> (#[trigger] list[i]).outlined(items[i]),
            old(scope).cur_func is None ==> forall|i: int|
                0 <= i < k ==> leaves_all(#[trigger] items[i], consts(*program)),
        decreases list.len() - k,
    {
        let ghost m = state(program, scope, info);
        let ghost before = items@;
        let item = list[k].shape(program, scope, info)?;
        proof {
            if old(scope).cur_func is None {
                consts_grow(*program, m.program);
                assert forall|i: int| 0 <= i < k implies leaves_all(
                    #[trigger] items[i],
                    consts(*program),
                ) by {
                    leaves_mono(items[i], consts(m.program), consts(*program));
                }
            }
        }
        items.push(item);
        proof {
            assert(follows(m, a));
            next_shape(*list, k as nat, a, m, state(program, scope, info), before, item);
        }
        k += 1;
    }
    Ok(items)
}

impl InitVal {
    /// Lowers every expression of the initializer, in order.
    pub fn shape(&self, program: &mut Prog, scope: &mut Scope, info: &mut Info) -> (r: Result<
        Init<Val>,
        Error,
    >)
        requires
            ready(old(program), old(scope), old(info)),
        ensures
            r matches Ok(tree) ==> {
                &&& kept(
                    final(program),
                    final(scope),
                    final(info),
                    old(program),
                    old(scope),
                    old(info),
                )
                &&& self.shapes(
                    state(old(program), old(scope), old(info)),
                    state(final(program), final(scope), final(info)),
                    tree,
                )
            },
            self.leaves_sure(state(old(program), old(scope), old(info))) ==> r is Ok,
            r matches Ok(tree) ==> self.outlined(tree),
            self.constant(old(scope).frames()) ==> r is Ok,
            old(scope).cur_func is None ==> (r matches Ok(tree) ==> leaves_all(
                tree,
                consts(*final(program)),
            )),
        decreases self,
    {
        match self {
            InitVal::Exp(e) => {
                let v = e.create(program, scope, info)?;
                Ok(Init::Item(v))
            },
            InitVal::List(list) => {
                let items = shape_list(list, program, scope, info)?;
                Ok(Init::List(items))
            },
        }
    }

    /// The flat contents of the array that is being declared, whose
    /// dimensions the scope holds: the values of the expressions, and one
    /// shared zero wherever the initializer leaves an element open.
    pub fn create(&self, program: &mut Prog, scope: &mut Scope, info: &mut Info) -> (r: Result<
        Vec<Val>,
        Error,
    >)
        requires
            ready(old(program), old(scope), old(info)),
        ensures
            r matches Ok(values) ==> {
                &&& kept(
                    final(program),
                    final(scope),
                    final(info),
                    old(program),
                    old(scope),
                    old(info),
                )
                &&& dims_ok(old(scope).array_info@)
                &&& values.len() == product(old(scope).array_info@)
                &&& self.lowers(
                    state(old(program), old(scope), old(info)),
                    state(final(program), final(scope), final(info)),
                    values@,
                )
            },
            self.sure(state(old(program), old(scope), old(info))) ==> r is Ok,
            dims_ok(old(scope).array_info@) && self.constant(old(scope).frames()) && (exists|
                t: Init<i32>,
            | #[trigger]
                self.valued(t, old(scope).frames()) && flat(t, old(scope).array_info@, 0i32)
                    is Some) ==> r is Ok,
            old(scope).cur_func is None ==> (r matches Ok(values) ==> forall|i: int|
                0 <= i < values.len() ==> constant_of(
                    final(program),
                    #[trigger] values[i],
                    Ty::Int32,
                )),
    {
        let ghost a = state(program, scope, info);
        let dims = copy_dims(scope.array_info());
        let zero = emit_integer(program, scope, info, 0);
        let ghost m = state(program, scope, info);
        proof {
            step_one(a, Step::Integer(0), m);
        }
        let tree = self.shape(program, scope, info)?;
        proof {
            assert forall|t: Init<i32>| #[trigger]
                self.valued(t, old(scope).frames()) implies (flat(t, dims@, 0i32) is Some
                <==> flat(tree, dims@, zero) is Some) by {
                self.valued_outlined(t, old(scope).frames());
                self.outlined_same(tree, t);
                flat_outline(tree, t, dims@, zero, 0i32);
            }
            if old(scope).cur_func is None {
                consts_grow(*program, m.program);
                assert(consts(m.program)(zero));

            }
        }
        let values = flatten(&tree, &dims, zero)?;
        proof {
            assert(flat(tree, a.scope.array_info@, a.next()) == Some(values@));
            if old(scope).cur_func is None {
                assert(tree is List);
                assert(fill(tree->List_0, 0, dims@, zero, Seq::empty()) == Some(values@));
                assert(consts(*program)(zero));
                fill_all(
                    tree->List_0,
                    0,
                    dims@,
                    zero,
                    Seq::<Val>::empty(),
                    consts(*program),
                );
                assert forall|i: int| 0 <= i < values.len() implies constant_of(
                    program,
                    #[trigger] values[i],
                    Ty::Int32,
                ) by {
                    let all = fill(tree->List_0, 0, dims@, zero, Seq::<Val>::empty())->Some_0;
                    assert(all[i] == values@[i]);
                    assert(consts(*program)(all[i]));
                }
            }
        }
        Ok(values)
    }
}

/// `n` times the value `v`.
pub(crate) fn repeat(v: Val, n: usize) -> (r: Vec<Val>)
    ensures
        r.len() == n,
        forall|i: int| 0 <= i < n ==> #[trigger] r[i] == v,
{
    let mut r: Vec<Val> = Vec::new();
    let mut k: usize = 0;
    while k < n
        invariant
            k <= n,
            r.len() == k,
            forall|i: int| 0 <= i < k ==> #[trigger] r[i] == v,
        decreases n - k,
    {
        r.push(v);
        k += 1;
    }
    r
}

/// What an array starts out as: the values of its initializer or, without
/// one, one zero for every element.
pub(crate) fn start_values(
    init: &Option<InitVal>,
    dims: &Vec<usize>,
    program: &mut Prog,
    scope: &mut Scope,
    info: &mut Info,
) -> (r: Result<Vec<Val>, Error>)
    requires
        ready(old(program), old(scope), old(info)),
        old(scope).array_info@ == dims@,
    ensures
        r matches Ok(values) ==> {
            &&& kept(final(program), final(scope), final(info), old(program), old(scope), old(info))
            &&& init_lowers(
                *init,
                state(old(program), old(scope), old(info)),
                state(final(program), final(scope), final(info)),
                values@,
            )
        },
        init_sure(*init, state(old(program), old(scope), old(info))) ==> r is Ok,
        dims_ok(dims@) && (*init matches Some(i) ==> i.constant(old(scope).frames()) && exists|
            t: Init<i32>,
        | #[trigger] i.valued(t, old(scope).frames()) && flat(t, dims@, 0i32) is Some) ==> r is Ok,
        old(scope).cur_func is None ==> (r matches Ok(values) ==> dims_ok(dims@) && values.len()
            == product(dims@) && forall|i: int|
            0 <= i < values.len() ==> constant_of(final(program), #[trigger] values[i], Ty::Int32)),
{
    let ghost a = state(program, scope, info);
    match init {
        Some(init) => init.create(program, scope, info),
        None => {
            let sizes = match suffix_products(dims) {
                Some(sizes) => sizes,
                None => {
                    return Err(Error::BadDimension);
                },
            };
            proof {
                assert(dims@.skip(0) =~= dims@);
                grows_from(program, program);
            }
            let zero = emit_integer(program, scope, info, 0);
            let values = repeat(zero, sizes[0]);
            proof {
                step_one(a, Step::Integer(0), state(program, scope, info));
                assert(values@ =~= Seq::new(product(a.scope.array_info@), |i: int| a.next()));
            }
            Ok(values)
        },
    }
}

} // verus!

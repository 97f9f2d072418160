//! When the lowering of declarations, functions and the unit is owed.

use vstd::prelude::*;
use crate::ast::{
    CompItem,
    CompUnit,
    ConstDecl,
    ConstDef,
    ConstExp,
    ConstInitVal,
    Decl,
    FuncDef,
    FuncParam,
    InitVal,
    VarDecl,
    VarDef,
};
use crate::mem::decl_rules::{
    comp_items_lower,
    const_defs_lower,
    head_script,
    init_lowers,
    inner,
    integers,
    library_script,
    list_shapes,
    local_scalar_init_script,
    made_from,
    param_script,
    params_lower,
    result_type,
    row_script,
    rows_stored,
    scalar_start,
    var_defs_lower,
};
use crate::mem::emit::constant_of;
use crate::mem::init::{dims_ok, flat, product, same_outline, Init};
use crate::mem::owed::{came, was};
use crate::mem::rules::{able, one, runs, script_sure, State, Step};
use crate::mem::scope::Frame;
use crate::program::entities::{Prog, Val};
use crate::program::types::{array_type, Ty};
use crate::tools::global_init_ok;

verus! {

/// The elements can be stored in the array of dimensions `dims` at `dest`:
/// no index is too large for a machine word, and no step to a row or store
/// of an element is refused where the rules let the rows before it lead.
pub open spec fn stored_sure(
    values: Seq<Val>,
    start: nat,
    dims: Seq<usize>,
    dest: Val,
    a: State,
) -> bool
    decreases dims.len(),
{
    if dims.len() == 0 {
        able(a, Step::Store(values[start as int], dest))
    } else {
        forall|i: nat, m1: State|
            i < dims[0] && #[trigger] rows_stored(values, start, dims, dest, i, a, m1) ==> {
                &&& i <= 0x7fff_ffff
                &&& script_sure(m1, row_script(m1, dest, i))
                &&& forall|m2: State| #[trigger]
                    runs(m1, row_script(m1, dest, i), m2) ==> stored_sure(
                        values,
                        (start + i * product(inner(dims))) as nat,
                        inner(dims),
                        m1.nth(1),
                        m2,
                    )
            }
    }
}

/// A local array of dimensions `dims` that starts out as `values` can be
/// declared in the state `a`: the dimensions are in order, there is a
/// value for each element, the function under construction can use each,
/// and they can be stored after the allocation.
pub open spec fn local_array_sure(values: Seq<Val>, dims: Seq<usize>, a: State) -> bool {
    &&& dims_ok(dims)
    &&& values.len() == product(dims)
    &&& forall|m1: State| #[trigger]
        one(a, Step::Alloc(array_type(dims)), m1) ==> {
            &&& forall|i: int|
                0 <= i < values.len() ==> m1.program.operand(
                    m1.scope.cur_func,
                    #[trigger] values[i],
                    m1.program.values.len() as int,
                )
            &&& stored_sure(values, 0, dims, a.next(), m1)
        }
}

/// Every dimension has a positive value.
pub open spec fn dims_fine(dims: Seq<ConstExp>, frames: Seq<Frame>) -> bool {
    forall|i: int|
        0 <= i < dims.len() ==> ((#[trigger] dims[i]).eval(frames) matches Some(n) && n > 0)
}

/// The dimensions that the expressions stand for.
pub open spec fn sizes_of(dims: Seq<ConstExp>, frames: Seq<Frame>) -> Seq<usize> {
    Seq::new(dims.len(), |i: int| dims[i].eval(frames)->Some_0 as usize)
}

/// Being a global constant of type `i32` in the program.
pub open spec fn consts(program: Prog) -> spec_fn(Val) -> bool {
    |v: Val| constant_of(&program, v, Ty::Int32)
}

/// A global constant stays one when the program grows.
pub proof fn consts_grow(new: Prog, old: Prog)
    requires
        new.extends(&old),
    ensures
        forall|v: Val| #[trigger] consts(old)(v) ==> consts(new)(v),
{
}

/// Every initializer of a list is sure where the rules let the initializers
/// before it lead.
pub open spec fn list_sure(list: Vec<InitVal>, a: State) -> bool
    decreases list,
{
    forall|k: nat, m: State, items: Seq<Init<Val>>|
        k < list.len() && #[trigger] list_shapes(list, k, a, m, items) ==> list[k as int].leaves_sure(
            m,
        )
}

impl InitVal {
    /// Every expression of the initializer has a value.
    pub open spec fn constant(&self, frames: Seq<Frame>) -> bool
        decreases self,
    {
        match self {
            InitVal::Exp(e) => e.eval(frames) is Some,
            InitVal::List(list) => forall|i: int|
                0 <= i < list.len() ==> (#[trigger] list[i]).constant(frames),
        }
    }

    /// `tree` is this initializer with each expression replaced by its
    /// value.
    pub open spec fn valued(&self, tree: Init<i32>, frames: Seq<Frame>) -> bool
        decreases self,
    {
        match (self, tree) {
            (InitVal::Exp(e), Init::Item(n)) => e.eval(frames) == Some(n),
            (InitVal::List(list), Init::List(items)) => {
                &&& list.len() == items.len()
                &&& forall|i: int|
                    0 <= i < list.len() ==> (#[trigger] list[i]).valued(items[i], frames)
            },
            _ => false,
        }
    }

    /// `tree` is nested as this initializer is.
    pub open spec fn outlined<T>(&self, tree: Init<T>) -> bool
        decreases self,
    {
        match (self, tree) {
            (InitVal::Exp(_), Init::Item(_)) => true,
            (InitVal::List(list), Init::List(items)) => {
                &&& list.len() == items.len()
                &&& forall|i: int| 0 <= i < list.len() ==> (#[trigger] list[i]).outlined(items[i])
            },
            _ => false,
        }
    }

    /// A tree of the values of an initializer is nested as it is.
    pub proof fn valued_outlined(&self, tree: Init<i32>, frames: Seq<Frame>)
        requires
            self.valued(tree, frames),
        ensures
            self.outlined(tree),
        decreases self,
    {
        match (self, tree) {
            (InitVal::List(list), Init::List(items)) => {
                assert forall|i: int| 0 <= i < list.len() implies (#[trigger] list[i]).outlined(
                    items[i],
                ) by {
                    list[i].valued_outlined(items[i], frames);
                }
            },
            _ => {},
        }
    }

    /// Trees nested as one initializer have one outline.
    pub proof fn outlined_same<T, U>(&self, t1: Init<T>, t2: Init<U>)
        requires
            self.outlined(t1),
            self.outlined(t2),
        ensures
            same_outline(t1, t2),
        decreases self,
    {
        match (self, t1, t2) {
            (InitVal::List(list), Init::List(x), Init::List(y)) => {
                assert forall|i: int| 0 <= i < x.len() implies same_outline(#[trigger] x[i], y[i]) by {
                    list[i].outlined_same(x[i], y[i]);
                }
            },
            _ => {},
        }
    }

    /// Every expression of the initializer is sure where the rules let the
    /// expressions before it lead.
    pub open spec fn leaves_sure(&self, a: State) -> bool
        decreases self,
    {
        match self {
            InitVal::Exp(e) => e.sure(a),
            InitVal::List(list) => list_sure(**list, a),
        }
    }

    /// The initializer of the array that is being declared is sure when the
    /// dimensions are in order, every expression is sure, and the
    /// initializer fits the dimensions.
    pub open spec fn sure(&self, a: State) -> bool {
        &&& dims_ok(a.scope.array_info@)
        &&& forall|m: State| #[trigger]
            one(a, Step::Integer(0), m) ==> {
                &&& self.leaves_sure(m)
                &&& forall|b: State, tree: Init<Val>| #[trigger]
                    self.shapes(m, b, tree) ==> flat(tree, a.scope.array_info@, a.next()) is Some
            }
    }
}

/// What an array starts out as can be made: the initializer is sure or,
/// without one, the dimensions are in order.
pub open spec fn init_sure(init: Option<InitVal>, a: State) -> bool {
    match init {
        Some(i) => i.sure(a),
        None => dims_ok(a.scope.array_info@),
    }
}

impl ConstDef {
    /// A scalar constant is sure when its initializer is an expression with
    /// a value. A constant array is sure when its dimensions have positive
    /// values and are in order, and its initializer has values throughout
    /// and fits the dimensions; inside a function its elements must be
    /// storable as well.
    pub open spec fn sure(&self, a: State) -> bool {
        let frames = a.scope.frames();
        if self.dims.len() == 0 {
            self.init matches ConstInitVal::Exp(e) && e.eval(frames) is Some
        } else {
            let sizes = sizes_of(self.dims@, frames);
            &&& dims_fine(self.dims@, frames)
            &&& dims_ok(sizes)
            &&& exists|tree: Init<i32>| #[trigger]
                self.init.shaped(tree, frames) && flat(tree, sizes, 0i32) is Some
            &&& a.scope.cur_func is Some ==> forall|tree: Init<i32>, m0: State, m1: State, m2: State|
                #![trigger self.init.shaped(tree, frames), one(m0, Step::Alloc(array_type(sizes)), m1), was(m2)]
                self.init.shaped(tree, frames) && flat(tree, sizes, 0i32) is Some && one(
                    a,
                    Step::Dims(sizes),
                    m0,
                ) && one(m0, Step::Alloc(array_type(sizes)), m1) && was(m2) && runs(
                    m1,
                    integers(flat(tree, sizes, 0i32)->Some_0),
                    m2,
                ) ==> stored_sure(
                    made_from(m1, flat(tree, sizes, 0i32)->Some_0.len()),
                    0,
                    sizes,
                    m0.next(),
                    m2,
                )
        }
    }
}

/// Every definition is sure where the rules let the definitions before it
/// lead.
pub open spec fn const_defs_sure(defs: Vec<ConstDef>, a: State) -> bool {
    forall|k: nat, m: State|
        k < defs.len() && #[trigger] const_defs_lower(defs, k, a, m) ==> defs[k as int].sure(m)
}

impl VarDef {
    /// A global scalar is sure when its initializer, if any, is an
    /// expression with a value. A local scalar is sure when its
    /// initializer, if any, is sure and can be stored. A global array is
    /// sure when its dimensions have positive values, what it starts out as
    /// can be made, and that is constant throughout. A local array is sure
    /// when its dimensions have positive values, what it starts out as can
    /// be made, and that can be stored.
    pub open spec fn sure(&self, a: State) -> bool {
        let frames = a.scope.frames();
        if self.dims.len() == 0 {
            if a.scope.cur_func is None {
                scalar_start(self.init, frames) is Some
            } else {
                match self.init {
                    None => true,
                    Some(InitVal::Exp(e)) => {
                        &&& e.sure(a)
                        &&& forall|m: State, x: Val| #[trigger]
                            came(m, x) && e.lowers(a, m, x) ==> script_sure(
                                m,
                                local_scalar_init_script(m, x, self.id@),
                            )
                    },
                    Some(InitVal::List(_)) => false,
                }
            }
        } else {
            let sizes = sizes_of(self.dims@, frames);
            &&& dims_fine(self.dims@, frames)
            &&& forall|m1: State| #[trigger]
                one(a, Step::Dims(sizes), m1) ==> {
                    &&& init_sure(self.init, m1)
                    &&& forall|m2: State, values: Seq<Val>| #[trigger]
                        init_lowers(self.init, m1, m2, values) ==> if a.scope.cur_func is None {
                            global_init_ok(&m2.program, values, sizes)
                        } else {
                            local_array_sure(values, sizes, m2)
                        }
                }
        }
    }
}

/// Every definition is sure where the rules let the definitions before it
/// lead.
pub open spec fn var_defs_sure(defs: Vec<VarDef>, a: State) -> bool {
    forall|k: nat, m: State|
        k < defs.len() && #[trigger] var_defs_lower(defs, k, a, m) ==> defs[k as int].sure(m)
}

impl ConstDecl {
    pub open spec fn sure(&self, a: State) -> bool {
        const_defs_sure(self.defs, a)
    }
}

impl VarDecl {
    pub open spec fn sure(&self, a: State) -> bool {
        var_defs_sure(self.defs, a)
    }
}

impl Decl {
    /// A declaration is sure when its definitions are, each where the rules
    /// let the ones before it lead.
    pub open spec fn sure(&self, a: State) -> bool {
        match self {
            Decl::Const(d) => d.sure(a),
            Decl::Var(d) => d.sure(a),
        }
    }
}

impl FuncParam {
    /// The dimensions of the parameter, if it has any, have positive
    /// values.
    pub open spec fn fine(&self, frames: Seq<Frame>) -> bool {
        self.dims matches Some(dims) ==> dims_fine(dims@, frames)
    }
}

/// Every parameter can be stored and bound where the rules let the
/// parameters before it lead.
pub open spec fn params_sure(params: Vec<FuncParam>, a: State) -> bool {
    forall|k: nat, m: State|
        k < params.len() && #[trigger] params_lower(params, k, a, m) ==> script_sure(
            m,
            param_script(m, params[k as int].id@, k as int),
        )
}

impl FuncDef {
    /// A function definition is sure outside any function when the
    /// dimensions of its parameters have positive values, the parameters
    /// can be stored, and the body is sure after them.
    pub open spec fn sure(&self, a: State) -> bool {
        &&& a.scope.cur_func is None
        &&& forall|i: int| 0 <= i < self.params.len() ==> (#[trigger] self.params[i]).fine(
            a.scope.frames(),
        )
        &&& forall|tys: Seq<Ty>, m1: State| #[trigger]
            runs(a, head_script(a, self.id@, tys, result_type(self.ty)), m1) ==> {
                &&& params_sure(self.params, m1)
                &&& forall|m2: State| #[trigger]
                    params_lower(self.params, self.params.len() as nat, m1, m2)
                        ==> self.body.sure(m2)
            }
    }
}

impl CompItem {
    pub open spec fn sure(&self, a: State) -> bool {
        match self {
            CompItem::Func(f) => f.sure(a),
            CompItem::Decl(d) => d.sure(a),
        }
    }
}

/// Every item of a unit is sure where the rules let the items before it
/// lead.
pub open spec fn comp_items_sure(items: Vec<CompItem>, a: State) -> bool {
    forall|k: nat, m: State|
        k < items.len() && #[trigger] comp_items_lower(items, k, a, m) ==> items[k as int].sure(m)
}

impl CompUnit {
    /// A unit is sure when its items are, after the declarations of the
    /// runtime library.
    pub open spec fn sure(&self, a: State) -> bool {
        forall|m: State| #[trigger] runs(a, library_script(a), m) ==> comp_items_sure(self.items, m)
    }
}

} // verus!

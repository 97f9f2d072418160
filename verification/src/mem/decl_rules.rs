//! The rules of lowering for declarations, functions and the whole unit.
//!
//! As the rules for expressions and statements, each says of a node which
//! steps, between the lowerings of its parts, lower it.

use vstd::prelude::*;
use crate::ast::{
    CompItem,
    CompUnit,
    ConstDecl,
    ConstDef,
    ConstInitVal,
    Decl,
    FuncDef,
    FuncParam,
    FuncType,
    InitVal,
    VarDecl,
    VarDef,
};
use crate::mem::decl::{dims_value, is_zero};
use crate::mem::info::ValueInfo;
use crate::mem::init::{flat, product, Init};
use crate::mem::rules::{follows, one, runs, State, Step};
use crate::mem::scope::{Entry, Frame};
use crate::program::entities::{Func, Val};
use crate::program::types::{array_type, Ty};

verus! {

/// One integer for each number, in order.
pub open spec fn integers(nums: Seq<i32>) -> Seq<Step> {
    Seq::new(nums.len(), |i: int| Step::Integer(nums[i]))
}

/// The values that `n` steps from the state `a` on make, when each makes
/// one.
pub open spec fn made_from(a: State, n: nat) -> Seq<Val> {
    Seq::new(n, |i: int| a.nth(i as nat))
}

/// The dimensions after the first.
pub open spec fn inner(dims: Seq<usize>) -> Seq<usize> {
    dims.skip(1)
}

/// The index `i` is made, and the step from `dest` by it into the array.
pub open spec fn row_script(a: State, dest: Val, i: nat) -> Seq<Step> {
    seq![Step::Integer(i as i32), Step::Index(dest, a.next(), true)]
}

/// The elements of `values` from `start` on are stored, in row-major order,
/// in the array of dimensions `dims` at `dest`: a scalar by one store, an
/// array row by row.
pub open spec fn stored(
    values: Seq<Val>,
    start: nat,
    dims: Seq<usize>,
    dest: Val,
    a: State,
    b: State,
) -> bool
    decreases dims.len(), if dims.len() == 0 {
        0
    } else {
        dims[0] + 1
    },
{
    if dims.len() == 0 {
        one(a, Step::Store(values[start as int], dest), b)
    } else {
        rows_stored(values, start, dims, dest, dims[0] as nat, a, b)
    }
}

/// The first `i` rows of the array of dimensions `dims` at `dest` are
/// stored: each is reached by its index and stored as an array of the
/// dimensions after the first.
pub open spec fn rows_stored(
    values: Seq<Val>,
    start: nat,
    dims: Seq<usize>,
    dest: Val,
    i: nat,
    a: State,
    b: State,
) -> bool
    decreases dims.len(), i,
{
    if i == 0 || dims.len() == 0 || i > dims[0] {
        b == a
    } else {
        exists|m1: State, m2: State|
            #![trigger follows(m1, a), runs(m1, row_script(m1, dest, (i - 1) as nat), m2)]
            {
                &&& follows(m1, a)
                &&& rows_stored(values, start, dims, dest, (i - 1) as nat, a, m1)
                &&& runs(m1, row_script(m1, dest, (i - 1) as nat), m2)
                &&& stored(
                    values,
                    (start + (i - 1) * product(inner(dims))) as nat,
                    inner(dims),
                    m1.nth(1),
                    m2,
                    b,
                )
            }
    }
}

/// The elements of `values` from `start` on are built into `v`, the
/// constant for an array of dimensions `dims`: a scalar is the element
/// itself, an array the aggregate of its rows.
pub open spec fn built(
    values: Seq<Val>,
    start: nat,
    dims: Seq<usize>,
    a: State,
    b: State,
    v: Val,
) -> bool
    decreases dims.len(), if dims.len() == 0 {
        0
    } else {
        dims[0] + 1
    },
{
    if dims.len() == 0 {
        b == a && v == values[start as int]
    } else {
        exists|m: State, elems: Seq<Val>|
            #![trigger one(m, Step::Aggregate(elems), b)]
            {
                &&& rows_built(values, start, dims, dims[0] as nat, a, m, elems)
                &&& one(m, Step::Aggregate(elems), b)
                &&& v == m.next()
            }
    }
}

/// The first `i` rows of the array of dimensions `dims` are built into
/// `elems`.
pub open spec fn rows_built(
    values: Seq<Val>,
    start: nat,
    dims: Seq<usize>,
    i: nat,
    a: State,
    b: State,
    elems: Seq<Val>,
) -> bool
    decreases dims.len(), i,
{
    if i == 0 || dims.len() == 0 || i > dims[0] {
        b == a && elems.len() == 0
    } else {
        &&& elems.len() == i
        &&& exists|m: State| #[trigger]
            follows(m, a) && rows_built(
                values,
                start,
                dims,
                (i - 1) as nat,
                a,
                m,
                elems.drop_last(),
            ) && built(
                values,
                (start + (i - 1) * product(inner(dims))) as nat,
                inner(dims),
                m,
                b,
                elems.last(),
            )
    }
}

/// The end of the declaration of a global array, in the state `a`, after
/// its initializer `init`: the global allocation is made; when the array
/// holds nothing but zeros, that is noted of the initializer; the name is
/// bound.
pub open spec fn global_script(
    a: State,
    init: Val,
    dims: Seq<usize>,
    zero: bool,
    id: Seq<char>,
) -> Seq<Step> {
    if zero {
        seq![
            Step::GlobalAlloc(init),
            Step::Zero(init, dims),
            Step::Bind(id, Entry::Value(a.next())),
        ]
    } else {
        seq![Step::GlobalAlloc(init), Step::Bind(id, Entry::Value(a.next()))]
    }
}

/// The array `id` of dimensions `dims` that holds the numbers `nums` is
/// declared. Outside any function: an integer for each number, the
/// aggregate of them, and the end of a global declaration. Inside one: the
/// allocation, an integer for each number, the stores, and the name is
/// bound.
pub open spec fn const_array(
    nums: Seq<i32>,
    dims: Seq<usize>,
    id: Seq<char>,
    a: State,
    b: State,
) -> bool {
    if a.scope.cur_func is None {
        exists|m1: State, m2: State, init: Val|
            #![trigger runs(a, integers(nums), m1), runs(m2, global_script(m2, init, dims, all_zero_nums(nums), id), b)]
            {
                &&& runs(a, integers(nums), m1)
                &&& built(made_from(a, nums.len()), 0, dims, m1, m2, init)
                &&& runs(m2, global_script(m2, init, dims, all_zero_nums(nums), id), b)
            }
    } else {
        exists|m1: State, m2: State, m3: State|
            #![trigger runs(m1, integers(nums), m2), one(m3, Step::Bind(id, Entry::Value(a.next())), b)]
            {
                &&& one(a, Step::Alloc(array_type(dims)), m1)
                &&& runs(m1, integers(nums), m2)
                &&& stored(made_from(m1, nums.len()), 0, dims, a.next(), m2, m3)
                &&& one(m3, Step::Bind(id, Entry::Value(a.next())), b)
            }
    }
}

/// Whether every number is zero.
pub open spec fn all_zero_nums(nums: Seq<i32>) -> bool {
    forall|i: int| 0 <= i < nums.len() ==> #[trigger] nums[i] == 0
}

/// Whether every value is the integer constant zero, in the state `a`.
pub open spec fn all_zero_vals(a: State, values: Seq<Val>) -> bool {
    forall|i: int| 0 <= i < values.len() ==> is_zero(&a.program, #[trigger] values[i])
}

/// The array `id` of dimensions `dims` that holds `values` is declared.
/// Outside any function: the aggregate of the values, and the end of a
/// global declaration. Inside one: the allocation, the stores, and the
/// name is bound.
pub open spec fn var_array(
    values: Seq<Val>,
    dims: Seq<usize>,
    id: Seq<char>,
    a: State,
    b: State,
) -> bool {
    if a.scope.cur_func is None {
        exists|m: State, init: Val|
            #![trigger runs(m, global_script(m, init, dims, all_zero_vals(a, values), id), b)]
            {
                &&& built(values, 0, dims, a, m, init)
                &&& runs(m, global_script(m, init, dims, all_zero_vals(a, values), id), b)
            }
    } else {
        exists|m1: State, m2: State|
            #![trigger one(a, Step::Alloc(array_type(dims)), m1), one(m2, Step::Bind(id, Entry::Value(a.next())), b)]
            {
                &&& one(a, Step::Alloc(array_type(dims)), m1)
                &&& stored(values, 0, dims, a.next(), m1, m2)
                &&& one(m2, Step::Bind(id, Entry::Value(a.next())), b)
            }
    }
}

/// The lowering of the first `k` initializers of a list leads from `a` to
/// `b` and gives `items`.
pub open spec fn list_shapes(
    list: Vec<InitVal>,
    k: nat,
    a: State,
    b: State,
    items: Seq<Init<Val>>,
) -> bool
    decreases list, k,
{
    if k == 0 || k > list.len() {
        b == a && items.len() == 0
    } else {
        &&& items.len() == k
        &&& exists|m: State| #[trigger]
            follows(m, a) && list_shapes(list, (k - 1) as nat, a, m, items.drop_last()) && list[k
                - 1].shapes(m, b, items.last())
    }
}

impl InitVal {
    /// `tree` is this initializer with each expression replaced by the
    /// value that its lowering gives; the expressions are lowered in order.
    pub open spec fn shapes(&self, a: State, b: State, tree: Init<Val>) -> bool
        decreases self,
    {
        match self {
            InitVal::Exp(e) => tree matches Init::Item(v) && e.lowers(a, b, v),
            InitVal::List(list) => tree matches Init::List(items) && list_shapes(
                **list,
                list.len() as nat,
                a,
                b,
                items@,
            ),
        }
    }

    /// The initializer gives `values` as the flat contents of the array
    /// that is being declared: a zero is made, for what the initializer
    /// leaves open; the expressions are lowered in order; their values are
    /// laid out in row-major order.
    pub open spec fn lowers(&self, a: State, b: State, values: Seq<Val>) -> bool {
        exists|m: State, tree: Init<Val>|
            #![trigger one(a, Step::Integer(0), m), flat(tree, a.scope.array_info@, a.next())]
            {
                &&& one(a, Step::Integer(0), m)
                &&& self.shapes(m, b, tree)
                &&& flat(tree, a.scope.array_info@, a.next()) == Some(values)
            }
    }
}

/// What an array starts out as: the values of its initializer or, without
/// one, one zero for every element.
pub open spec fn init_lowers(init: Option<InitVal>, a: State, b: State, values: Seq<Val>) -> bool {
    match init {
        Some(i) => i.lowers(a, b, values),
        None => one(a, Step::Integer(0), b) && values == Seq::new(
            product(a.scope.array_info@),
            |i: int| a.next(),
        ),
    }
}

impl ConstDef {
    /// A scalar constant is bound to its value and leaves no other trace.
    /// For a constant array the dimensions are worked out and noted, the
    /// initializer is evaluated and laid out in row-major order, and the
    /// array is declared with these numbers.
    pub open spec fn lowers(&self, a: State, b: State) -> bool {
        let frames = a.scope.frames();
        if self.dims.len() == 0 {
            &&& self.init matches ConstInitVal::Exp(e)
            &&& e.eval(frames) matches Some(n)
            &&& one(a, Step::Bind(self.id@, Entry::Const(n)), b)
        } else {
            exists|sizes: Seq<usize>, tree: Init<i32>, nums: Seq<i32>, m: State|
                #![trigger one(a, Step::Dims(sizes), m), flat(tree, sizes, 0i32), const_array(nums, sizes, self.id@, m, b)]
                {
                    &&& dims_value(self.dims@, frames, sizes)
                    &&& self.init.shaped(tree, frames)
                    &&& flat(tree, sizes, 0i32) == Some(nums)
                    &&& one(a, Step::Dims(sizes), m)
                    &&& const_array(nums, sizes, self.id@, m, b)
                }
        }
    }
}

/// The lowering of the first `k` definitions leads from `a` to `b`.
pub open spec fn const_defs_lower(defs: Vec<ConstDef>, k: nat, a: State, b: State) -> bool
    decreases k,
{
    if k == 0 || k > defs.len() {
        b == a
    } else {
        exists|m: State| #[trigger]
            follows(m, a) && const_defs_lower(defs, (k - 1) as nat, a, m) && defs[k - 1].lowers(
                m,
                b,
            )
    }
}

/// What a global scalar starts out as: the value of its initializer, which
/// must have one, or zero.
pub open spec fn scalar_start(init: Option<InitVal>, frames: Seq<Frame>) -> Option<i32> {
    match init {
        None => Some(0i32),
        Some(InitVal::Exp(e)) => e.eval(frames),
        Some(InitVal::List(_)) => None,
    }
}

/// A global scalar: the integer that it starts out as, the global
/// allocation, and the name is bound.
pub open spec fn global_scalar_script(a: State, n: i32, id: Seq<char>) -> Seq<Step> {
    seq![Step::Integer(n), Step::GlobalAlloc(a.next()), Step::Bind(id, Entry::Value(a.nth(1)))]
}

/// A local scalar without an initializer: the allocation, and the name is
/// bound.
pub open spec fn local_scalar_script(a: State, id: Seq<char>) -> Seq<Step> {
    seq![Step::Alloc(Ty::Int32), Step::Bind(id, Entry::Value(a.next()))]
}

/// A local scalar, in the state `a`, after its initializer `x`: the
/// allocation, the store, and the name is bound.
pub open spec fn local_scalar_init_script(a: State, x: Val, id: Seq<char>) -> Seq<Step> {
    seq![
        Step::Alloc(Ty::Int32),
        Step::Store(x, a.next()),
        Step::Bind(id, Entry::Value(a.next())),
    ]
}

impl VarDef {
    /// A global scalar starts out as the value of its initializer, or as
    /// zero. A local scalar is allocated after its initializer is lowered,
    /// and set to it. For an array the dimensions are worked out and
    /// noted, the initializer is lowered and laid out in row-major order,
    /// and the array is declared with these values.
    pub open spec fn lowers(&self, a: State, b: State) -> bool {
        let frames = a.scope.frames();
        if self.dims.len() == 0 {
            if a.scope.cur_func is None {
                scalar_start(self.init, frames) matches Some(n) && runs(
                    a,
                    global_scalar_script(a, n, self.id@),
                    b,
                )
            } else {
                match self.init {
                    None => runs(a, local_scalar_script(a, self.id@), b),
                    Some(InitVal::Exp(e)) => exists|m: State, x: Val|
                        #![trigger runs(m, local_scalar_init_script(m, x, self.id@), b)]
                        {
                            &&& e.lowers(a, m, x)
                            &&& runs(m, local_scalar_init_script(m, x, self.id@), b)
                        },
                    Some(InitVal::List(_)) => false,
                }
            }
        } else {
            exists|sizes: Seq<usize>, m1: State, values: Seq<Val>, m2: State|
                #![trigger one(a, Step::Dims(sizes), m1), var_array(values, sizes, self.id@, m2, b)]
                {
                    &&& dims_value(self.dims@, frames, sizes)
                    &&& one(a, Step::Dims(sizes), m1)
                    &&& init_lowers(self.init, m1, m2, values)
                    &&& var_array(values, sizes, self.id@, m2, b)
                }
        }
    }
}

/// The lowering of the first `k` definitions leads from `a` to `b`.
pub open spec fn var_defs_lower(defs: Vec<VarDef>, k: nat, a: State, b: State) -> bool
    decreases k,
{
    if k == 0 || k > defs.len() {
        b == a
    } else {
        exists|m: State| #[trigger]
            follows(m, a) && var_defs_lower(defs, (k - 1) as nat, a, m) && defs[k - 1].lowers(m, b)
    }
}

impl ConstDecl {
    /// The definitions are lowered in order.
    pub open spec fn lowers(&self, a: State, b: State) -> bool {
        const_defs_lower(self.defs, self.defs.len() as nat, a, b)
    }
}

impl VarDecl {
    /// The definitions are lowered in order.
    pub open spec fn lowers(&self, a: State, b: State) -> bool {
        var_defs_lower(self.defs, self.defs.len() as nat, a, b)
    }
}

impl Decl {
    /// A declaration is lowered as what it is.
    pub open spec fn lowers(&self, a: State, b: State) -> bool {
        match self {
            Decl::Const(d) => d.lowers(a, b),
            Decl::Var(d) => d.lowers(a, b),
        }
    }
}

impl FuncParam {
    /// The type of the parameter: `i32`, or for an array parameter the
    /// pointer to an array of the dimensions after the first.
    pub open spec fn typed(&self, frames: Seq<Frame>, ty: Ty) -> bool {
        match self.dims {
            None => ty == Ty::Int32,
            Some(dims) => exists|sizes: Seq<usize>| #[trigger]
                dims_value(dims@, frames, sizes) && ty == Ty::Pointer(Box::new(array_type(sizes))),
        }
    }
}

/// The types of the parameters, in order.
pub open spec fn params_typed(params: Seq<FuncParam>, frames: Seq<Frame>, tys: Seq<Ty>) -> bool {
    &&& tys.len() == params.len()
    &&& forall|i: int| 0 <= i < params.len() ==> (#[trigger] params[i]).typed(frames, tys[i])
}

/// The IR type of what a function returns.
pub open spec fn result_type(ty: FuncType) -> Ty {
    match ty {
        FuncType::Void => Ty::Unit,
        FuncType::Int => Ty::Int32,
    }
}

/// The head of the definition of the function `id`, in the state `a`: the
/// function is made, under the name `@id`, and entered into the table; it
/// becomes the function under construction; its first block, `%entry`, is
/// made and entered; a frame of names is opened.
pub open spec fn head_script(a: State, id: Seq<char>, tys: Seq<Ty>, ret: Ty) -> Seq<Step> {
    let f = Func { id: a.program.funcs.len() };
    seq![
        Step::Function("@"@ + id, tys, ret, true),
        Step::Name(id, f),
        Step::Start(f),
        Step::Block("%entry"@),
        Step::Enter(a.next_bb()),
        Step::Open,
    ]
}

/// The parameter number `k` of the function under construction gets a word
/// of the frame, is stored there, and its name is bound to the word.
pub open spec fn param_script(a: State, id: Seq<char>, k: int) -> Seq<Step> {
    let fd = a.program.funcs[a.scope.cur_func->Some_0.id as int];
    seq![
        Step::Alloc(fd.params_ty[k]),
        Step::Store(fd.params[k], a.next()),
        Step::Bind(id, Entry::Value(a.next())),
    ]
}

/// The first `k` parameters are stored and bound, in order.
pub open spec fn params_lower(params: Vec<FuncParam>, k: nat, a: State, b: State) -> bool
    decreases k,
{
    if k == 0 || k > params.len() {
        b == a
    } else {
        exists|m: State| #[trigger]
            follows(m, a) && params_lower(params, (k - 1) as nat, a, m) && runs(
                m,
                param_script(m, params[k - 1].id@, k - 1),
                b,
            )
    }
}

/// The end of the definition of a function: the frame of names is closed,
/// and no function is under construction.
pub open spec fn end_script() -> Seq<Step> {
    seq![Step::Close, Step::Leave]
}

impl FuncDef {
    /// A function definition, outside any function: the head, the
    /// parameters, the body, and the end.
    pub open spec fn lowers(&self, a: State, b: State) -> bool {
        &&& a.scope.cur_func is None
        &&& exists|tys: Seq<Ty>, m1: State, m2: State, m3: State|
            #![trigger runs(a, head_script(a, self.id@, tys, result_type(self.ty)), m1), follows(m2, m1), runs(m3, end_script(), b)]
            {
                &&& params_typed(self.params@, a.scope.frames(), tys)
                &&& runs(a, head_script(a, self.id@, tys, result_type(self.ty)), m1)
                &&& follows(m2, m1)
                &&& params_lower(self.params, self.params.len() as nat, m1, m2)
                &&& self.body.lowers(m2, m3)
                &&& runs(m3, end_script(), b)
            }
    }
}

impl CompItem {
    /// An item of a unit is lowered as what it is.
    pub open spec fn lowers(&self, a: State, b: State) -> bool {
        match self {
            CompItem::Func(f) => f.lowers(a, b),
            CompItem::Decl(d) => d.lowers(a, b),
        }
    }
}

/// The lowering of the first `k` items of a unit leads from `a` to `b`.
pub open spec fn comp_items_lower(items: Vec<CompItem>, k: nat, a: State, b: State) -> bool
    decreases k,
{
    if k == 0 || k > items.len() {
        b == a
    } else {
        exists|m: State| #[trigger]
            follows(m, a) && comp_items_lower(items, (k - 1) as nat, a, m) && items[k - 1].lowers(
                m,
                b,
            )
    }
}

/// The declaration of a function of the runtime library, the `n`th
/// function of the program: it is made, under the name `@id`, and entered
/// into the table.
pub open spec fn library_function(n: nat, id: Seq<char>, tys: Seq<Ty>, ret: Ty) -> Seq<Step> {
    seq![Step::Function("@"@ + id, tys, ret, false), Step::Name(id, Func { id: n as usize })]
}

/// The declarations of the runtime library, in the state `a`.
pub open spec fn library_script(a: State) -> Seq<Step> {
    let n = a.program.funcs.len() as nat;
    let word = Ty::Int32;
    let words = Ty::Pointer(Box::new(Ty::Int32));
    library_function(n, "getint"@, seq![], word) + library_function(n + 1, "getch"@, seq![], word)
        + library_function(n + 2, "getarray"@, seq![words], word) + library_function(
        n + 3,
        "putint"@,
        seq![word],
        Ty::Unit,
    ) + library_function(n + 4, "putch"@, seq![word], Ty::Unit) + library_function(
        n + 5,
        "putarray"@,
        seq![word, words],
        Ty::Unit,
    ) + library_function(n + 6, "starttime"@, seq![], Ty::Unit) + library_function(
        n + 7,
        "stoptime"@,
        seq![],
        Ty::Unit,
    )
}

impl CompUnit {
    /// A unit: the runtime library is declared, then the items are lowered
    /// in order.
    pub open spec fn lowers(&self, a: State, b: State) -> bool {
        exists|m: State| #[trigger]
            runs(a, library_script(a), m) && comp_items_lower(
                self.items,
                self.items.len() as nat,
                m,
                b,
            )
    }
}

/// The state before anything is lowered: an empty program, one empty frame
/// of names, an empty table of functions, the clock at zero.
pub open spec fn fresh(a: State) -> bool {
    &&& a.program.values.len() == 0
    &&& a.program.bbs.len() == 0
    &&& a.program.funcs.len() == 0
    &&& a.program.inst_layout.len() == 0
    &&& a.scope.frames() == seq![Seq::<(Seq<char>, Entry)>::empty()]
    &&& a.scope.table().len() == 0
    &&& a.scope.cur_func is None
    &&& a.scope.cur_bb is None
    &&& a.scope.loop_info.len() == 0
    &&& a.scope.label.if_counter == 0
    &&& a.scope.label.while_counter == 0
    &&& a.info.counter == 0
    &&& a.info.value_infos@ == Map::<usize, ValueInfo>::empty()
    &&& a.info.zero_array_infos@ == Map::<usize, Vec<usize>>::empty()
}

} // verus!

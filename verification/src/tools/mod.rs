//! Arrays: their types and sizes, and how a flat list of elements becomes a
//! nested aggregate (for a global) or a run of stores (for a local).

use vstd::prelude::*;
use crate::mem::create::kept;
use crate::mem::decl_owed::stored_sure;
use crate::mem::decl_rules::{
    built,
    inner,
    integers,
    made_from,
    row_script,
    rows_built,
    rows_stored,
    stored,
};
use crate::mem::emit::{
    constant_of,
    emit_aggregate,
    emit_index,
    emit_integer,
    emit_store,
    grows,
    grows_from,
    is_constant_of,
    ready,
    Error,
};
use crate::mem::info::Info;
use crate::mem::init::{dims_ok, product, suffix_products};
use crate::mem::rules::{
    follows,
    runs,
    runs_none,
    runs_on,
    script_sure,
    state,
    step_one,
    step_two,
    sure_at,
    State,
    Step,
};
use crate::mem::scope::Scope;
use crate::program::entities::{Prog, Val, ValueKind};
use crate::program::types::{array_type, Ty};

verus! {

/// The array type with the dimensions from `from` on; `i32` when none is left.
pub fn array_type_from(dims: &Vec<usize>, from: usize) -> (ty: Ty)
    requires
        from <= dims.len(),
    ensures
        ty == array_type(dims@.skip(from as int)),
    decreases dims.len() - from,
{
    if from == dims.len() {
        Ty::Int32
    } else {
        let base = array_type_from(dims, from + 1);
        proof {
            assert(dims@.skip(from as int).drop_first() =~= dims@.skip(from + 1));
        }
        Ty::Array(Box::new(base), dims[from])
    }
}

/// The array type with the given dimensions, outermost first.
pub fn array_type_of(dims: &Vec<usize>) -> (ty: Ty)
    ensures
        ty == array_type(dims@),
{
    proof {
        assert(dims@.skip(0) =~= dims@);
    }
    array_type_from(dims, 0)
}

/// The number of dimensions of `i32` (none) or of an array of scalars.
pub fn rank_of(ty: &Ty) -> (r: usize)
    requires
        ty.is_scalar_or_array(),
        ty.rank() <= usize::MAX,
    ensures
        r == ty.rank(),
    decreases ty,
{
    match ty {
        Ty::Array(base, _) => 1 + rank_of(base),
        _ => 0,
    }
}

/// The size of `i32` or of an array of scalars, in words.
pub fn get_size_form_ty(ty: &Ty) -> (size: usize)
    requires
        ty.is_scalar_or_array(),
        ty.words() <= usize::MAX,
    ensures
        size == ty.words(),
    decreases ty,
{
    match ty {
        Ty::Array(base, len) => {
            if *len == 0 {
                assert((*len as nat) * base.words() == 0) by (nonlinear_arith)
                    requires
                        *len == 0,
                ;
                0
            } else {
                assert(base.words() <= (*len as nat) * base.words()) by (nonlinear_arith)
                    requires
                        *len >= 1,
                ;
                *len * get_size_form_ty(base)
            }
        },
        _ => 1,
    }
}

/// The size of an array with the given dimensions is that of its type.
pub proof fn words_of_array_type(dims: Seq<usize>)
    ensures
        array_type(dims).words() == product(dims),
        array_type(dims).is_scalar_or_array(),
        array_type(dims).rank() == dims.len(),
    decreases dims.len(),
{
    if dims.len() > 0 {
        words_of_array_type(dims.drop_first());
    }
}

/// Builds the nested aggregate of the elements from `start` on for the
/// dimensions from `from` on.
fn build_aggregate(
    program: &mut Prog,
    scope: &Scope,
    info: &mut Info,
    values: &Vec<Val>,
    start: usize,
    dims: &Vec<usize>,
    sizes: &Vec<usize>,
    from: usize,
) -> (v: Val)
    requires
        ready(old(program), scope, old(info)),
        scope.cur_func is None,
        dims_ok(dims@),
        from <= dims.len(),
        sizes.len() == dims.len() + 1,
        forall|k: int|
            0 <= k <= dims.len() ==> #[trigger] sizes[k] == product(dims@.skip(k)) && sizes[k] > 0,
        start + sizes[from as int] <= values.len(),
        forall|i: int|
            0 <= i < values.len() ==> constant_of(old(program), #[trigger] values[i], Ty::Int32),
    ensures
        ready(final(program), scope, final(info)),
        grows(final(program), old(program)),
        constant_of(final(program), v, array_type(dims@.skip(from as int))),
        final(info).zero_array_infos == old(info).zero_array_infos,
        final(program).inst_layout == old(program).inst_layout,
        final(program).values.len() >= old(program).values.len(),
        built(
            values@,
            start as nat,
            dims@.skip(from as int),
            state(old(program), scope, old(info)),
            state(final(program), scope, final(info)),
            v,
        ),
    decreases dims.len() - from,
{
    let ghost a = state(program, scope, info);
    let ghost shape = dims@.skip(from as int);
    proof {
        grows_from(program, program);
    }
    if from == dims.len() {
        proof {
            assert(dims@.skip(from as int).len() == 0);
        }
        return values[start];
    }
    let count = dims[from];
    let step = sizes[from + 1];
    let ghost elem_ty = array_type(dims@.skip(from + 1));
    proof {
        assert(dims@.skip(from as int).drop_first() =~= dims@.skip(from + 1));
        assert(sizes[from as int] == count * step);
        assert(dims@[from as int] > 0);
        words_of_array_type(dims@.skip(from + 1));
    }
    proof {
        assert(inner(shape) =~= dims@.skip(from + 1));
    }
    let mut elems: Vec<Val> = Vec::new();
    let mut offset: usize = start;
    let mut i: usize = 0;
    while i < count
        invariant
            i <= count,
            count == dims[from as int],
            count > 0,
            step == sizes[from + 1],
            from < dims.len(),
            offset == start + i * step,
            sizes[from as int] == count * step,
            start + sizes[from as int] <= values.len(),
            elems.len() == i,
            ready(program, scope, info),
            scope.cur_func is None,
            grows(program, old(program)),
            dims_ok(dims@),
            sizes.len() == dims.len() + 1,
            forall|k: int|
                0 <= k <= dims.len() ==> #[trigger] sizes[k] == product(dims@.skip(k)) && sizes[k]
                    > 0,
            forall|j: int|
                0 <= j < values.len() ==> constant_of(program, #[trigger] values[j], Ty::Int32),
            forall|j: int| 0 <= j < i ==> constant_of(program, #[trigger] elems[j], elem_ty),
            elem_ty == array_type(dims@.skip(from + 1)),
            elem_ty != Ty::Unit,
            info.zero_array_infos == old(info).zero_array_infos,
            program.inst_layout == old(program).inst_layout,
            program.values.len() >= old(program).values.len(),
            a == state(old(program), scope, old(info)),
            shape == dims@.skip(from as int),
            inner(shape) == dims@.skip(from + 1),
            rows_built(values@, start as nat, shape, i as nat, a, state(program, scope, info), elems@),
        decreases count - i,
    {
        proof {
            assert((i + 1) * step <= count * step) by (nonlinear_arith)
                requires
                    i + 1 <= count,
            ;
            assert((i + 1) * step == i * step + step) by (nonlinear_arith);
        }
        let ghost m = state(program, scope, info);
        let ghost before = elems@;
        let elem = build_aggregate(program, scope, info, values, offset, dims, sizes, from + 1);
        elems.push(elem);
        proof {
            next_row_built(
                values@,
                start as nat,
                shape,
                i as nat,
                a,
                m,
                state(program, scope, info),
                before,
                elem,
            );
        }
        offset = offset + step;
        i += 1;
    }
    let ghost filled = state(program, scope, info);
    let ghost rows = elems@;
    proof {
        assert(program.elems_ok(elems@, program.values.len() as int)) by {
            assert(constant_of(program, elems@[0], elem_ty));
            assert forall|j: int| 0 <= j < elems@.len() implies {
                &&& program.operand(None, #[trigger] elems@[j], program.values.len() as int)
                &&& program.kind(elems@[j]).is_const()
                &&& program.ty(elems@[j]) == program.ty(elems@[0])
            } by {
                assert(constant_of(program, elems[j], elem_ty));
            }
        }
    }
    let v = emit_aggregate(program, scope, info, elems);
    proof {
        step_one(filled, Step::Aggregate(rows), state(program, scope, info));
    }
    v
}

/// Makes an integer for each number, in order.
fn make_integers(program: &mut Prog, scope: &Scope, info: &mut Info, nums: &Vec<i32>) -> (values:
    Vec<Val>)
    requires
        ready(old(program), scope, old(info)),
    ensures
        ready(final(program), scope, final(info)),
        grows(final(program), old(program)),
        final(info).zero_array_infos == old(info).zero_array_infos,
        final(program).inst_layout == old(program).inst_layout,
        final(program).funcs == old(program).funcs,
        final(program).values.len() == old(program).values.len() + nums.len(),
        values@ == made_from(state(old(program), scope, old(info)), nums.len() as nat),
        runs(
            state(old(program), scope, old(info)),
            integers(nums@),
            state(final(program), scope, final(info)),
        ),
        forall|i: int|
            0 <= i < values.len() ==> final(program).operand(
                scope.cur_func,
                #[trigger] values[i],
                final(program).values.len() as int,
            ),
        forall|i: int|
            0 <= i < values.len() ==> final(program).kind(#[trigger] values[i])
                == ValueKind::Integer(nums[i]),
        scope.cur_func is None ==> forall|i: int|
            0 <= i < values.len() ==> constant_of(final(program), #[trigger] values[i], Ty::Int32),
{
    let ghost a = state(program, scope, info);
    proof {
        grows_from(program, program);
        runs_none(a);
        assert(integers(nums@.take(0)) =~= Seq::<Step>::empty());
    }
    let mut values: Vec<Val> = Vec::new();
    let mut k: usize = 0;
    while k < nums.len()
        invariant
            k <= nums.len(),
            values.len() == k,
            a == state(old(program), scope, old(info)),
            ready(program, scope, info),
            grows(program, old(program)),
            info.zero_array_infos == old(info).zero_array_infos,
            program.inst_layout == old(program).inst_layout,
            program.funcs == old(program).funcs,
            program.values.len() == old(program).values.len() + k,
            values@ == made_from(a, k as nat),
            runs(a, integers(nums@.take(k as int)), state(program, scope, info)),
            forall|i: int|
                0 <= i < k ==> program.operand(
                    scope.cur_func,
                    #[trigger] values[i],
                    program.values.len() as int,
                ),
            forall|i: int|
                0 <= i < k ==> program.kind(#[trigger] values[i]) == ValueKind::Integer(nums[i]),
            scope.cur_func is None ==> forall|i: int|
                0 <= i < k ==> constant_of(program, #[trigger] values[i], Ty::Int32),
        decreases nums.len() - k,
    {
        let ghost m = state(program, scope, info);
        let v = emit_integer(program, scope, info, nums[k]);
        values.push(v);
        proof {
            runs_on(a, integers(nums@.take(k as int)), m, Step::Integer(nums[k as int]), state(
                program,
                scope,
                info,
            ));
            assert(integers(nums@.take(k as int)).push(Step::Integer(nums[k as int])) =~= integers(
                nums@.take(k + 1),
            ));
            assert(values@ =~= made_from(a, (k + 1) as nat));
        }
        k += 1;
    }
    proof {
        assert(nums@.take(k as int) =~= nums@);
    }
    values
}

/// Whether every one of the values is a global integer constant.
fn all_constants(program: &Prog, values: &Vec<Val>) -> (r: bool)
    ensures
        r == forall|i: int|
            0 <= i < values.len() ==> constant_of(program, #[trigger] values[i], Ty::Int32),
{
    let ty = Ty::Int32;
    let mut k: usize = 0;
    while k < values.len()
        invariant
            k <= values.len(),
            ty == Ty::Int32,
            forall|i: int| 0 <= i < k ==> constant_of(program, #[trigger] values[i], Ty::Int32),
        decreases values.len() - k,
    {
        if !is_constant_of(program, values[k], &ty) {
            return false;
        }
        k += 1;
    }
    true
}

/// What [`global_array_init`] asks of its arguments: well-formed dimensions,
/// one value for each element, and every value a global integer constant.
pub open spec fn global_init_ok(program: &Prog, values: Seq<Val>, dims: Seq<usize>) -> bool {
    &&& dims_ok(dims)
    &&& values.len() == product(dims)
    &&& forall|i: int| 0 <= i < values.len() ==> constant_of(program, #[trigger] values[i], Ty::Int32)
}

/// The initializer of a global array: the aggregate, nested as the
/// dimensions are, of the given elements in row-major order. Only outside
/// any function.
pub fn global_array_init(
    program: &mut Prog,
    scope: &Scope,
    info: &mut Info,
    values: Vec<Val>,
    array_info: Vec<usize>,
) -> (r: Result<Val, Error>)
    requires
        ready(old(program), scope, old(info)),
    ensures
        grows(final(program), old(program)),
        match r {
            Ok(v) => {
                &&& scope.cur_func is None
                &&& global_init_ok(old(program), values@, array_info@)
                &&& ready(final(program), scope, final(info))
                &&& constant_of(final(program), v, array_type(array_info@))
                &&& final(info).zero_array_infos == old(info).zero_array_infos
                &&& final(program).inst_layout == old(program).inst_layout
                &&& built(
                    values@,
                    0,
                    array_info@,
                    state(old(program), scope, old(info)),
                    state(final(program), scope, final(info)),
                    v,
                )
            },
            Err(e) => {
                &&& *final(program) == *old(program)
                &&& *final(info) == *old(info)
                &&& scope.cur_func is Some || !global_init_ok(old(program), values@, array_info@)
                &&& e == if scope.cur_func is Some {
                    Error::TypeMismatch
                } else if !dims_ok(array_info@) || values.len() != product(array_info@) {
                    Error::BadDimension
                } else {
                    Error::TypeMismatch
                }
            },
        },
{
    proof {
        grows_from(program, program);
    }
    if !scope.is_global() {
        return Err(Error::TypeMismatch);
    }
    let sizes = match suffix_products(&array_info) {
        Some(sizes) => sizes,
        None => {
            return Err(Error::BadDimension);
        },
    };
    proof {
        assert(array_info@.skip(0) =~= array_info@);
    }
    if values.len() != sizes[0] {
        return Err(Error::BadDimension);
    }
    if !all_constants(program, &values) {
        return Err(Error::TypeMismatch);
    }
    Ok(build_aggregate(program, scope, info, &values, 0, &array_info, &sizes, 0))
}

/// As [`global_array_init`], from numbers: an integer constant is made for
/// each, in order, before the aggregates.
pub fn global_const_array_init(
    program: &mut Prog,
    scope: &Scope,
    info: &mut Info,
    nums: Vec<i32>,
    array_info: Vec<usize>,
) -> (r: Result<Val, Error>)
    requires
        ready(old(program), scope, old(info)),
    ensures
        grows(final(program), old(program)),
        match r {
            Ok(v) => {
                &&& scope.cur_func is None
                &&& dims_ok(array_info@)
                &&& nums.len() == product(array_info@)
                &&& ready(final(program), scope, final(info))
                &&& constant_of(final(program), v, array_type(array_info@))
                &&& final(info).zero_array_infos == old(info).zero_array_infos
                &&& final(program).inst_layout == old(program).inst_layout
                &&& exists|m: State| #[trigger]
                    runs(state(old(program), scope, old(info)), integers(nums@), m) && built(
                        made_from(state(old(program), scope, old(info)), nums.len() as nat),
                        0,
                        array_info@,
                        m,
                        state(final(program), scope, final(info)),
                        v,
                    )
            },
            Err(e) => {
                &&& *final(program) == *old(program)
                &&& *final(info) == *old(info)
                &&& scope.cur_func is Some || !dims_ok(array_info@) || nums.len() != product(
                    array_info@,
                )
                &&& e == if scope.cur_func is Some {
                    Error::TypeMismatch
                } else {
                    Error::BadDimension
                }
            },
        },
{
    proof {
        grows_from(program, program);
    }
    if !scope.is_global() {
        return Err(Error::TypeMismatch);
    }
    let sizes = match suffix_products(&array_info) {
        Some(sizes) => sizes,
        None => {
            return Err(Error::BadDimension);
        },
    };
    proof {
        assert(array_info@.skip(0) =~= array_info@);
    }
    if nums.len() != sizes[0] {
        return Err(Error::BadDimension);
    }
    let values = make_integers(program, scope, info, &nums);
    let ghost m = state(program, scope, info);
    let v = build_aggregate(program, scope, info, &values, 0, &array_info, &sizes, 0);
    proof {
        assert(runs(state(old(program), scope, old(info)), integers(nums@), m));
    }
    Ok(v)
}

/// One more row is stored.
proof fn next_row_stored(
    values: Seq<Val>,
    start: nat,
    shape: Seq<usize>,
    dest: Val,
    i: nat,
    a: State,
    m1: State,
    m2: State,
    b: State,
)
    requires
        shape.len() > 0,
        i < shape[0],
        follows(m1, a),
        rows_stored(values, start, shape, dest, i, a, m1),
        runs(m1, row_script(m1, dest, i), m2),
        stored(values, start + i * product(inner(shape)), inner(shape), m1.nth(1), m2, b),
    ensures
        rows_stored(values, start, shape, dest, i + 1, a, b),
{
    assert(((i + 1) - 1) as nat == i);
}

/// One more row is built.
proof fn next_row_built(
    values: Seq<Val>,
    start: nat,
    shape: Seq<usize>,
    i: nat,
    a: State,
    m: State,
    b: State,
    elems: Seq<Val>,
    elem: Val,
)
    requires
        shape.len() > 0,
        i < shape[0],
        elems.len() == i,
        follows(m, a),
        rows_built(values, start, shape, i, a, m, elems),
        built(values, start + i * product(inner(shape)), inner(shape), m, b, elem),
    ensures
        rows_built(values, start, shape, i + 1, a, b, elems.push(elem)),
{
    assert(((i + 1) - 1) as nat == i);
    assert(elems.push(elem).drop_last() =~= elems);
}

/// Stores the elements from `start` on through `dest` for the dimensions
/// from `from` on: element by element, each reached by one index step per
/// dimension.
fn store_elements(
    program: &mut Prog,
    scope: &mut Scope,
    info: &mut Info,
    values: &Vec<Val>,
    start: usize,
    dims: &Vec<usize>,
    sizes: &Vec<usize>,
    from: usize,
    dest: Val,
) -> (r: Result<(), Error>)
    requires
        ready(old(program), old(scope), old(info)),
        dims_ok(dims@),
        from <= dims.len(),
        sizes.len() == dims.len() + 1,
        forall|k: int|
            0 <= k <= dims.len() ==> #[trigger] sizes[k] == product(dims@.skip(k)) && sizes[k] > 0,
        start + sizes[from as int] <= values.len(),
        old(program).operand(old(scope).cur_func, dest, old(program).values.len() as int),
        forall|i: int|
            0 <= i < values.len() ==> old(program).operand(
                old(scope).cur_func,
                #[trigger] values[i],
                old(program).values.len() as int,
            ),
    ensures
        *final(scope) == *old(scope),
        r is Ok ==> kept(
            final(program),
            final(scope),
            final(info),
            old(program),
            old(scope),
            old(info),
        ),
        r is Ok ==> final(program).values.len() >= old(program).values.len(),
        r is Ok ==> stored(
            values@,
            start as nat,
            dims@.skip(from as int),
            dest,
            state(old(program), old(scope), old(info)),
            state(final(program), final(scope), final(info)),
        ),
        stored_sure(
            values@,
            start as nat,
            dims@.skip(from as int),
            dest,
            state(old(program), old(scope), old(info)),
        ) ==> r is Ok,
    decreases dims.len() - from,
{
    let ghost a = state(program, scope, info);
    let ghost shape = dims@.skip(from as int);
    proof {
        grows_from(program, program);
    }
    if from == dims.len() {
        emit_store(program, scope, info, values[start], dest)?;
        proof {
            step_one(a, Step::Store(values[start as int], dest), state(program, scope, info));
        }
        return Ok(());
    }
    proof {
        assert(inner(shape) =~= dims@.skip(from + 1));
    }
    let count = dims[from];
    let step = sizes[from + 1];
    proof {
        assert(dims@.skip(from as int).drop_first() =~= dims@.skip(from + 1));
        assert(sizes[from as int] == count * step);
    }
    let mut offset: usize = start;
    let mut i: usize = 0;
    while i < count
        invariant
            i <= count,
            count == dims[from as int],
            step == sizes[from + 1],
            from < dims.len(),
            offset == start + i * step,
            sizes[from as int] == count * step,
            start + sizes[from as int] <= values.len(),
            *scope == *old(scope),
            kept(program, scope, info, old(program), old(scope), old(info)),
            dims_ok(dims@),
            sizes.len() == dims.len() + 1,
            forall|k: int|
                0 <= k <= dims.len() ==> #[trigger] sizes[k] == product(dims@.skip(k)) && sizes[k]
                    > 0,
            program.operand(scope.cur_func, dest, program.values.len() as int),
            forall|j: int|
                0 <= j < values.len() ==> program.operand(
                    scope.cur_func,
                    #[trigger] values[j],
                    program.values.len() as int,
                ),
            program.values.len() >= old(program).values.len(),
            a == state(old(program), old(scope), old(info)),
            shape == dims@.skip(from as int),
            inner(shape) == dims@.skip(from + 1),
            rows_stored(values@, start as nat, shape, dest, i as nat, a, state(program, scope, info)),
        decreases count - i,
    {
        proof {
            assert((i + 1) * step <= count * step) by (nonlinear_arith)
                requires
                    i + 1 <= count,
            ;
            assert((i + 1) * step == i * step + step) by (nonlinear_arith);
        }
        if i > 0x7fff_ffff {
            return Err(Error::BadDimension);
        }
        let ghost m1 = state(program, scope, info);
        let index = emit_integer(program, scope, info, i as i32);
        let ghost s1 = state(program, scope, info);
        proof {
            let script = row_script(m1, dest, i as nat);
            if script_sure(m1, script) {
                let t0 = Seq::<Step>::empty().push(Step::Integer(i as i32));
                runs_none(m1);
                runs_on(m1, Seq::empty(), m1, Step::Integer(i as i32), s1);
                assert(script.take(1) =~= t0);
                sure_at(m1, script, 1, t0, s1);
            }
        }
        let at = emit_index(program, scope, info, dest, index, true)?;
        let ghost m2 = state(program, scope, info);
        proof {
            step_two(m1, Step::Integer(i as i32), s1, Step::Index(dest, index, true), m2);
        }
        store_elements(program, scope, info, values, offset, dims, sizes, from + 1, at)?;
        proof {
            next_row_stored(
                values@,
                start as nat,
                shape,
                dest,
                i as nat,
                a,
                m1,
                m2,
                state(program, scope, info),
            );
        }
        offset = offset + step;
        i += 1;
    }
    Ok(())
}

/// Whether every one of the values can be used by the function under
/// construction.
fn all_operands(program: &Prog, scope: &Scope, values: &Vec<Val>) -> (r: bool)
    ensures
        r == forall|i: int|
            0 <= i < values.len() ==> program.operand(
                scope.cur_func,
                #[trigger] values[i],
                program.values.len() as int,
            ),
{
    let mut k: usize = 0;
    while k < values.len()
        invariant
            k <= values.len(),
            forall|i: int|
                0 <= i < k ==> program.operand(
                    scope.cur_func,
                    #[trigger] values[i],
                    program.values.len() as int,
                ),
        decreases values.len() - k,
    {
        if !program.is_operand(scope.cur_func, values[k]) {
            return false;
        }
        k += 1;
    }
    true
}

/// Initializes a local array: stores the given elements, in row-major
/// order, through `dest`, the address of the array.
pub fn local_array_init(
    program: &mut Prog,
    scope: &mut Scope,
    info: &mut Info,
    values: Vec<Val>,
    array_info: Vec<usize>,
    dest: Val,
) -> (r: Result<(), Error>)
    requires
        ready(old(program), old(scope), old(info)),
    ensures
        *final(scope) == *old(scope),
        r is Ok ==> {
            &&& dims_ok(array_info@)
            &&& values.len() == product(array_info@)
            &&& kept(final(program), final(scope), final(info), old(program), old(scope), old(info))
            &&& stored(
                values@,
                0,
                array_info@,
                dest,
                state(old(program), old(scope), old(info)),
                state(final(program), final(scope), final(info)),
            )
        },
        !dims_ok(array_info@) || values.len() != product(array_info@) ==> r == Err::<(), Error>(
            Error::BadDimension,
        ),
        dims_ok(array_info@) && values.len() == product(array_info@) && old(program).operand(
            old(scope).cur_func,
            dest,
            old(program).values.len() as int,
        ) && (forall|i: int|
            0 <= i < values.len() ==> old(program).operand(
                old(scope).cur_func,
                #[trigger] values[i],
                old(program).values.len() as int,
            )) && stored_sure(
            values@,
            0,
            array_info@,
            dest,
            state(old(program), old(scope), old(info)),
        ) ==> r is Ok,
{
    let sizes = match suffix_products(&array_info) {
        Some(sizes) => sizes,
        None => {
            return Err(Error::BadDimension);
        },
    };
    proof {
        assert(array_info@.skip(0) =~= array_info@);
    }
    if values.len() != sizes[0] {
        return Err(Error::BadDimension);
    }
    if !program.is_operand(scope.cur_func, dest) || !all_operands(program, scope, &values) {
        return Err(Error::TypeMismatch);
    }
    store_elements(program, scope, info, &values, 0, &array_info, &sizes, 0, dest)
}

/// As [`local_array_init`], from numbers: an integer is made for each, in
/// order, before the stores.
pub fn local_const_array_init(
    program: &mut Prog,
    scope: &mut Scope,
    info: &mut Info,
    nums: Vec<i32>,
    array_info: Vec<usize>,
    dest: Val,
) -> (r: Result<(), Error>)
    requires
        ready(old(program), old(scope), old(info)),
    ensures
        *final(scope) == *old(scope),
        r is Ok ==> {
            &&& dims_ok(array_info@)
            &&& nums.len() == product(array_info@)
            &&& kept(final(program), final(scope), final(info), old(program), old(scope), old(info))
            &&& exists|m: State| #[trigger]
                runs(state(old(program), old(scope), old(info)), integers(nums@), m) && stored(
                    made_from(state(old(program), old(scope), old(info)), nums.len() as nat),
                    0,
                    array_info@,
                    dest,
                    m,
                    state(final(program), final(scope), final(info)),
                )
        },
        !dims_ok(array_info@) || nums.len() != product(array_info@) ==> r == Err::<(), Error>(
            Error::BadDimension,
        ),
        dims_ok(array_info@) && nums.len() == product(array_info@) && old(scope).cur_func is Some
            && old(program).operand(old(scope).cur_func, dest, old(program).values.len() as int)
            && (forall|m: State| #[trigger]
            runs(state(old(program), old(scope), old(info)), integers(nums@), m) ==> stored_sure(
                made_from(state(old(program), old(scope), old(info)), nums.len() as nat),
                0,
                array_info@,
                dest,
                m,
            )) ==> r is Ok,
{
    let sizes = match suffix_products(&array_info) {
        Some(sizes) => sizes,
        None => {
            return Err(Error::BadDimension);
        },
    };
    proof {
        assert(array_info@.skip(0) =~= array_info@);
        grows_from(program, program);
    }
    if nums.len() != sizes[0] {
        return Err(Error::BadDimension);
    }
    if scope.is_global() || !program.is_operand(scope.cur_func, dest) {
        return Err(Error::TypeMismatch);
    }
    let values = make_integers(program, scope, info, &nums);
    let ghost m = state(program, scope, info);
    let r = store_elements(program, scope, info, &values, 0, &array_info, &sizes, 0, dest);
    proof {
        assert(runs(state(old(program), old(scope), old(info)), integers(nums@), m));
    }
    r
}

} // verus!

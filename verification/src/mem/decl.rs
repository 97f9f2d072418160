//! Lowering of declarations: what the definitions of constants and
//! variables share.

use vstd::prelude::*;
use crate::ast::{ConstExp, ConstInitVal};
use crate::mem::create::carried;
use crate::mem::decl_owed::{dims_fine, sizes_of};
use crate::mem::emit::{entry_ok, grows_from, ready, Error};
use crate::mem::info::Info;
use crate::mem::init::{dims_ok, flat, flat_outline, flatten, product, same_outline, Init};
use crate::mem::rules::{bind_step, does, state, Step};
use crate::mem::scope::{Entry, Frame, Scope};
use crate::program::entities::{Prog, Val, ValueKind};

verus! {

/// The dimensions that the expressions stand for, when each has a positive
/// value.
pub open spec fn dims_value(dims: Seq<ConstExp>, frames: Seq<Frame>, sizes: Seq<usize>) -> bool {
    &&& sizes.len() == dims.len()
    &&& forall|i: int|
        0 <= i < dims.len() ==> ((#[trigger] dims[i]).eval(frames) matches Some(n) && n > 0
            && sizes[i] == n)
}

/// One more dimension is worked out.
proof fn next_dim(dims: Seq<ConstExp>, k: int, frames: Seq<Frame>, sizes: Seq<usize>, n: i32)
    requires
        0 <= k < dims.len(),
        dims_value(dims.take(k), frames, sizes),
        dims[k].eval(frames) == Some(n),
        n > 0,
    ensures
        dims_value(dims.take(k + 1), frames, sizes.push(n as usize)),
{
    let next = dims.take(k + 1);
    let more = sizes.push(n as usize);
    assert forall|i: int| 0 <= i < next.len() implies ((#[trigger] next[i]).eval(frames) matches Some(
        m,
    ) && m > 0 && more[i] == m) by {
        if i < k {
            assert(dims.take(k)[i] == next[i]);
            assert(more[i] == sizes[i]);
        } else {
            assert(next[i] == dims[k]);
        }
    }
}

/// Works out the dimensions of an array: each must be a positive constant.
pub fn eval_dims(dims: &Vec<ConstExp>, scope: &Scope) -> (r: Result<Vec<usize>, Error>)
    ensures
        match r {
            Ok(sizes) => dims_value(dims@, scope.frames(), sizes@),
            Err(e) => exists|i: int|
                0 <= i < dims.len() && match (#[trigger] dims[i]).eval(scope.frames()) {
                    Some(n) => n <= 0 && e == Error::BadDimension,
                    None => e == Error::NotConstant,
                },
        },
        dims_fine(dims@, scope.frames()) ==> (r matches Ok(sizes) && sizes@ == sizes_of(
            dims@,
            scope.frames(),
        )),
{
    let mut sizes: Vec<usize> = Vec::new();
    let mut k: usize = 0;
    while k < dims.len()
        invariant
            k <= dims.len(),
            dims_value(dims@.take(k as int), scope.frames(), sizes@),
        decreases dims.len() - k,
    {
        let n = match dims[k].evaluate(scope) {
            Some(_) => dims[k].create(scope),
            None => {
                return Err(Error::NotConstant);
            },
        };
        if n <= 0 {
            return Err(Error::BadDimension);
        }
        proof {
            next_dim(dims@, k as int, scope.frames(), sizes@, n);
        }
        sizes.push(n as usize);
        k += 1;
    }
    proof {
        assert(dims@.take(k as int) =~= dims@);
        if dims_fine(dims@, scope.frames()) {
            assert(sizes@ =~= sizes_of(dims@, scope.frames()));
        }
    }
    Ok(sizes)
}

pub(crate) fn copy_dims(dims: &Vec<usize>) -> (r: Vec<usize>)
    ensures
        r@ == dims@,
{
    let mut r: Vec<usize> = Vec::new();
    let mut k: usize = 0;
    while k < dims.len()
        invariant
            k <= dims.len(),
            r@ == dims@.take(k as int),
        decreases dims.len() - k,
    {
        r.push(dims[k]);
        assert(dims@.take(k + 1) =~= dims@.take(k as int).push(dims@[k as int]));
        k += 1;
    }
    assert(dims@.take(k as int) =~= dims@);
    r
}

impl ConstInitVal {
    /// `tree` is this initializer with each expression replaced by its value.
    pub open spec fn shaped(&self, tree: Init<i32>, frames: Seq<Frame>) -> bool
        decreases self,
    {
        match (self, tree) {
            (ConstInitVal::Exp(e), Init::Item(n)) => e.eval(frames) == Some(n),
            (ConstInitVal::List(list), Init::List(items)) => {
                &&& list.len() == items.len()
                &&& forall|i: int|
                    0 <= i < list.len() ==> (#[trigger] list[i]).shaped(items[i], frames)
            },
            _ => false,
        }
    }

    /// Every expression of the initializer has a value.
    pub open spec fn constant(&self, frames: Seq<Frame>) -> bool
        decreases self,
    {
        match self {
            ConstInitVal::Exp(e) => e.eval(frames) is Some,
            ConstInitVal::List(list) => forall|i: int|
                0 <= i < list.len() ==> (#[trigger] list[i]).constant(frames),
        }
    }

    /// An initializer that has a tree of values is constant.
    pub proof fn shaped_constant(&self, tree: Init<i32>, frames: Seq<Frame>)
        requires
            self.shaped(tree, frames),
        ensures
            self.constant(frames),
        decreases self,
    {
        match (self, tree) {
            (ConstInitVal::List(list), Init::List(items)) => {
                assert forall|i: int| 0 <= i < list.len() implies (#[trigger] list[i]).constant(
                    frames,
                ) by {
                    list[i].shaped_constant(items[i], frames);
                }
            },
            _ => {},
        }
    }

    /// The trees of values of one initializer have one outline.
    pub proof fn shaped_outline(&self, t1: Init<i32>, t2: Init<i32>, frames: Seq<Frame>)
        requires
            self.shaped(t1, frames),
            self.shaped(t2, frames),
        ensures
            same_outline(t1, t2),
        decreases self,
    {
        match (self, t1, t2) {
            (ConstInitVal::List(list), Init::List(x), Init::List(y)) => {
                assert forall|i: int| 0 <= i < x.len() implies same_outline(#[trigger] x[i], y[i]) by {
                    list[i].shaped_outline(x[i], y[i], frames);
                }
            },
            _ => {},
        }
    }

    /// Evaluates every expression of the initializer: the tree of their
    /// values when each has one, `NotConstant` when one has none.
    pub fn shape(&self, scope: &Scope) -> (r: Result<Init<i32>, Error>)
        ensures
            match r {
                Ok(tree) => self.shaped(tree, scope.frames()) && self.constant(scope.frames()),
                Err(e) => e == Error::NotConstant && !self.constant(scope.frames()),
            },
        decreases self,
    {
        match self {
            ConstInitVal::Exp(e) => match e.evaluate(scope) {
                Some(_) => Ok(Init::Item(e.create(scope))),
                None => Err(Error::NotConstant),
            },
            ConstInitVal::List(list) => {
                let mut items: Vec<Init<i32>> = Vec::new();
                let mut k: usize = 0;
                while k < list.len()
                    invariant
                        k <= list.len(),
                        items.len() == k,
                        self is List,
                        self->List_0 == *list,
                        forall|i: int|
                            0 <= i < k ==> (#[trigger] list[i]).shaped(items[i], scope.frames()),
                        forall|i: int| 0 <= i < k ==> (#[trigger] list[i]).constant(scope.frames()),
                    decreases list.len() - k,
                {
                    let item = match list[k].shape(scope) {
                        Ok(item) => item,
                        Err(e) => {
                            proof {
                                assert(!list[k as int].constant(scope.frames()));
                            }
                            return Err(e);
                        },
                    };
                    items.push(item);
                    k += 1;
                }
                Ok(Init::List(items))
            },
        }
    }

    /// The flat contents of the constant array that is being declared, whose
    /// dimensions the scope holds. It succeeds exactly when every expression
    /// has a value, the dimensions are in order, and the initializer fits
    /// them.
    pub fn create(&self, scope: &Scope) -> (r: Result<Vec<i32>, Error>)
        ensures
            match r {
                Ok(nums) => {
                    &&& dims_ok(scope.array_info@)
                    &&& nums.len() == product(scope.array_info@)
                    &&& exists|tree: Init<i32>| #[trigger]
                        self.shaped(tree, scope.frames()) && flat(tree, scope.array_info@, 0i32)
                            == Some(nums@)
                },
                Err(e) => {
                    &&& e == if !self.constant(scope.frames()) {
                        Error::NotConstant
                    } else if !dims_ok(scope.array_info@) {
                        Error::BadDimension
                    } else {
                        Error::BadInitializer
                    }
                    &&& self.constant(scope.frames()) && dims_ok(scope.array_info@) ==> forall|
                        tree: Init<i32>,
                    | #[trigger]
                        self.shaped(tree, scope.frames()) ==> flat(tree, scope.array_info@, 0i32)
                            is None
                },
            },
            dims_ok(scope.array_info@) && (exists|tree: Init<i32>| #[trigger]
                self.shaped(tree, scope.frames()) && flat(tree, scope.array_info@, 0i32) is Some)
                ==> r is Ok,
    {
        proof {
            assert forall|tree: Init<i32>| #[trigger]
                self.shaped(tree, scope.frames()) implies self.constant(scope.frames()) by {
                self.shaped_constant(tree, scope.frames());
            }
        }
        let mine = self.shape(scope)?;
        proof {
            assert forall|tree: Init<i32>| #[trigger]
                self.shaped(tree, scope.frames()) implies (flat(tree, scope.array_info@, 0i32)
                is Some <==> flat(mine, scope.array_info@, 0i32) is Some) by {
                self.shaped_outline(mine, tree, scope.frames());
                flat_outline(mine, tree, scope.array_info@, 0i32, 0i32);
            }
        }
        flatten(&mine, scope.array_info(), 0)
    }
}

/// `frames` with `entry` bound to `id` in the innermost frame.
pub open spec fn bind(frames: Seq<Frame>, id: Seq<char>, entry: Entry) -> Seq<Frame> {
    frames.update(frames.len() - 1, frames.last().push((id, entry)))
}

/// Binds a name to a value that code of the function under construction may
/// use.
pub(crate) fn declare(program: &Prog, scope: &mut Scope, info: &Info, id: &String, entry: Entry)
    requires
        ready(program, old(scope), info),
        entry_ok(program, old(scope).cur_func, entry),
    ensures
        ready(program, final(scope), info),
        final(scope).frames() == bind(old(scope).frames(), id@, entry),
        final(scope).funcs == old(scope).funcs,
        final(scope).cur_func == old(scope).cur_func,
        final(scope).cur_bb == old(scope).cur_bb,
        final(scope).loop_info == old(scope).loop_info,
        final(scope).array_info == old(scope).array_info,
        final(scope).label == old(scope).label,
        carried(program, final(scope), info, program, old(scope), info),
        does(
            state(program, old(scope), info),
            Step::Bind(id@, entry),
            state(program, final(scope), info),
        ),
{
    scope.new_value(id.clone(), entry);
    proof {
        bind_step(
            state(program, old(scope), info),
            state(program, scope, info),
            id@,
            entry,
        );
        grows_from(program, program);
        let frames = scope.frames();
        assert forall|i: int, j: int|
            0 <= i < frames.len() && 0 <= j < frames[i].len() implies entry_ok(
            program,
            scope.cur_func,
            (#[trigger] frames[i][j]).1,
        ) by {
            if i == frames.len() - 1 && j == frames[i].len() - 1 {
            } else {
                assert(frames[i][j] == old(scope).frames()[i][j]);
            }
        }
        assert(scope.frames().drop_last() =~= old(scope).frames().drop_last());
    }
}

/// Whether every number is zero.
pub(crate) fn all_zero(nums: &Vec<i32>) -> (r: bool)
    ensures
        r == forall|i: int| 0 <= i < nums.len() ==> #[trigger] nums[i] == 0,
{
    let mut k: usize = 0;
    while k < nums.len()
        invariant
            k <= nums.len(),
            forall|i: int| 0 <= i < k ==> #[trigger] nums[i] == 0,
        decreases nums.len() - k,
    {
        if nums[k] != 0 {
            return false;
        }
        k += 1;
    }
    true
}

/// Whether a value is the integer constant zero.
pub open spec fn is_zero(program: &Prog, v: Val) -> bool {
    program.has_value(v) && program.kind(v) == ValueKind::Integer(0)
}

/// Whether every value is the integer constant zero.
pub(crate) fn all_zero_values(program: &Prog, values: &Vec<Val>) -> (r: bool)
    ensures
        r == forall|i: int| 0 <= i < values.len() ==> is_zero(program, #[trigger] values[i]),
{
    let mut k: usize = 0;
    while k < values.len()
        invariant
            k <= values.len(),
            forall|i: int| 0 <= i < k ==> is_zero(program, #[trigger] values[i]),
        decreases values.len() - k,
    {
        if values[k].id >= program.values.len() {
            return false;
        }
        match program.value_kind(values[k]) {
            ValueKind::Integer(n) => {
                if *n != 0 {
                    return false;
                }
            },
            _ => {
                return false;
            },
        }
        k += 1;
    }
    true
}

} // verus!

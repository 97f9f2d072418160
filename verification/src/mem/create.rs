//! Lowering of the syntax tree into the program.
//!
//! Every node has a `create` that appends what the node stands for to the
//! program: values to the block under construction, blocks to the function
//! under construction, functions and global allocations to the program.
//! Expressions that have a value at compile time become that one integer.

use vstd::prelude::*;
use crate::ast::{Block, ConstExp, FuncType};
use crate::mem::emit::{
    emit_integer,
    emitted,
    grows,
    grows_from,
    ready,
    scope_ok_extends,
    stamped,
    Error,
};
use crate::mem::info::Info;
use crate::mem::rules::{does, one, runs_none, runs_on, state, Step};
use crate::mem::scope::Scope;
use crate::program::entities::{Bb, Prog, Val, ValueData, ValueKind};
use crate::program::types::Ty;

verus! {

/// The state after lowering a node, against the state before: the program
/// has grown, the clock has not gone back, and the scope is where it was, but
/// for the block under construction and the labels used up.
pub open spec fn carried(
    p1: &Prog,
    s1: &Scope,
    i1: &Info,
    p0: &Prog,
    s0: &Scope,
    i0: &Info,
) -> bool {
    &&& ready(p1, s1, i1)
    &&& grows(p1, p0)
    &&& s1.cur_func == s0.cur_func
    &&& s1.loop_info@ == s0.loop_info@
    &&& s0.table().is_prefix_of(s1.table())
    &&& s1.frames().len() == s0.frames().len()
    &&& s1.frames().drop_last() == s0.frames().drop_last()
    &&& s0.frames().last().is_prefix_of(s1.frames().last())
    &&& s1.label.if_counter >= s0.label.if_counter
    &&& s1.label.while_counter >= s0.label.while_counter
}

/// As [`carried`], for a node that declares nothing: the names in sight and
/// the function table are what they were.
pub open spec fn kept(
    p1: &Prog,
    s1: &Scope,
    i1: &Info,
    p0: &Prog,
    s0: &Scope,
    i0: &Info,
) -> bool {
    &&& carried(p1, s1, i1, p0, s0, i0)
    &&& s1.frames() == s0.frames()
    &&& s1.table() == s0.table()
    &&& i1.zero_array_infos@ == i0.zero_array_infos@
}

/// An expression with the value `n` at compile time is lowered to the one
/// integer `n` and nothing else.
pub open spec fn folded(
    r: Result<Val, Error>,
    n: i32,
    p1: &Prog,
    s1: &Scope,
    i1: &Info,
    p0: &Prog,
    s0: &Scope,
    i0: &Info,
) -> bool {
    &&& r matches Ok(v)
    &&& emitted(
        p1,
        p0,
        s0,
        v,
        ValueData { ty: Ty::Int32, kind: ValueKind::Integer(n), func: s0.cur_func },
    )
    &&& stamped(i1, i0, v, Seq::<Val>::empty())
    &&& *s1 == *s0
}

/// What lowering an expression promises: on success the state is carried
/// over and the result can be used by the function under construction; an
/// expression with a value is folded; outside any function nothing but a
/// constant will do.
pub open spec fn lowered(
    r: Result<Val, Error>,
    value: Option<i32>,
    p1: &Prog,
    s1: &Scope,
    i1: &Info,
    p0: &Prog,
    s0: &Scope,
    i0: &Info,
) -> bool {
    &&& r matches Ok(v) ==> kept(p1, s1, i1, p0, s0, i0) && p1.operand(
        s1.cur_func,
        v,
        p1.values.len() as int,
    )
    &&& value matches Some(n) ==> folded(r, n, p1, s1, i1, p0, s0, i0)
    &&& value is None && s0.cur_func is None ==> r == Err::<Val, Error>(Error::NotConstant)
}

/// Lowers an expression that has the value `n`.
pub(crate) fn fold(program: &mut Prog, scope: &Scope, info: &mut Info, n: i32) -> (r: Result<Val, Error>)
    requires
        ready(old(program), scope, old(info)),
    ensures
        folded(r, n, final(program), scope, final(info), old(program), scope, old(info)),
        lowered(r, Some(n), final(program), scope, final(info), old(program), scope, old(info)),
        r matches Ok(v) && v == state(old(program), scope, old(info)).next() && one(
            state(old(program), scope, old(info)),
            Step::Integer(n),
            state(final(program), scope, final(info)),
        ),
{
    let ghost a = state(program, scope, info);
    let v = emit_integer(program, scope, info, n);
    proof {
        runs_none(a);
        runs_on(a, Seq::empty(), a, Step::Integer(n), state(program, scope, info));
    }
    Ok(v)
}

/// A new block of the function under construction, in no layout yet.
pub fn new_block(program: &mut Prog, scope: &Scope, info: &Info, name: String) -> (bb:
    Bb)
    requires
        ready(old(program), scope, info),
        scope.cur_func is Some,
    ensures
        does(
            state(old(program), scope, info),
            Step::Block(name@),
            state(final(program), scope, info),
        ),
        ready(final(program), scope, info),
        grows(final(program), old(program)),
        final(program).target(scope.cur_func, bb),
        bb.id == old(program).bbs.len(),
        final(program).bbs.len() == old(program).bbs.len() + 1,
        final(program).bbs[bb.id as int].name == name,
        final(program).insts(bb) == Seq::<Val>::empty(),
        final(program).values == old(program).values,
        final(program).funcs == old(program).funcs,
        final(program).inst_layout == old(program).inst_layout,
        forall|b: int|
            0 <= b < old(program).bbs.len() ==> final(program).bbs[b] == old(program).bbs[b],
{
    let func = scope.cur_func();
    let bb = program.new_bb(func, name);
    proof {
        scope_ok_extends(program, old(program), scope);
        grows_from(program, old(program));
        reveal(does);
    }
    bb
}

/// Lays a block out at the end of the function under construction and makes
/// it the block under construction.
pub fn enter_block(program: &mut Prog, scope: &mut Scope, info: &Info, bb: Bb)
    requires
        ready(old(program), old(scope), info),
        old(program).target(old(scope).cur_func, bb),
    ensures
        does(
            state(old(program), old(scope), info),
            Step::Enter(bb),
            state(final(program), final(scope), info),
        ),
        ready(final(program), final(scope), info),
        grows(final(program), old(program)),
        *final(scope) == (Scope { cur_bb: Some(bb), ..*old(scope) }),
        final(program).values == old(program).values,
        final(program).bbs == old(program).bbs,
        final(program).inst_layout == old(program).inst_layout,
        final(program).funcs.len() == old(program).funcs.len(),
        old(scope).cur_func matches Some(f) && final(program).funcs[f.id as int].bbs@ == old(
            program,
        ).funcs[f.id as int].bbs@.push(bb),
        old(scope).cur_func matches Some(f) && final(program).funcs[f.id as int].params == old(
            program,
        ).funcs[f.id as int].params,
{
    let func = scope.cur_func();
    program.push_bb(func, bb);
    proof {
        scope_ok_extends(program, old(program), scope);
        grows_from(program, old(program));
    }
    scope.set_cur_bb(Some(bb));
    proof {
        reveal(does);
    }
}

/// Draws the next triple of `if` labels.
pub fn next_if_label(scope: &mut Scope) -> (r: Result<(String, String, String), Error>)
    ensures
        match r {
            Ok(l) => {
                &&& old(scope).label.if_counter < usize::MAX
                &&& *final(scope) == (Scope {
                    label: crate::mem::label::Label {
                        if_counter: (old(scope).label.if_counter + 1) as usize,
                        while_counter: old(scope).label.while_counter,
                    },
                    ..*old(scope)
                })
                &&& l.0@ == crate::mem::label::numbered("%Then_"@, old(scope).label.if_counter as nat)
                &&& l.1@ == crate::mem::label::numbered("%Else_"@, old(scope).label.if_counter as nat)
                &&& l.2@ == crate::mem::label::numbered("%End_"@, old(scope).label.if_counter as nat)
            },
            Err(e) => {
                &&& e == Error::TooManyLabels
                &&& old(scope).label.if_counter == usize::MAX
                &&& *final(scope) == *old(scope)
            },
        },
{
    if scope.label.if_counter == usize::MAX {
        return Err(Error::TooManyLabels);
    }
    Ok(scope.label_mut().if_label())
}

/// Draws the next triple of `while` labels.
pub fn next_while_label(scope: &mut Scope) -> (r: Result<(String, String, String), Error>)
    ensures
        match r {
            Ok(l) => {
                &&& old(scope).label.while_counter < usize::MAX
                &&& *final(scope) == (Scope {
                    label: crate::mem::label::Label {
                        if_counter: old(scope).label.if_counter,
                        while_counter: (old(scope).label.while_counter + 1) as usize,
                    },
                    ..*old(scope)
                })
                &&& l.0@ == crate::mem::label::numbered(
                    "%Entry_"@,
                    old(scope).label.while_counter as nat,
                )
                &&& l.1@ == crate::mem::label::numbered(
                    "%Body_"@,
                    old(scope).label.while_counter as nat,
                )
                &&& l.2@ == crate::mem::label::numbered(
                    "%While_End_"@,
                    old(scope).label.while_counter as nat,
                )
            },
            Err(e) => {
                &&& e == Error::TooManyLabels
                &&& old(scope).label.while_counter == usize::MAX
                &&& *final(scope) == *old(scope)
            },
        },
{
    if scope.label.while_counter == usize::MAX {
        return Err(Error::TooManyLabels);
    }
    Ok(scope.label_mut().while_label())
}

/// How an l-value reaches what it names.
#[derive(Clone, Copy, Debug, PartialEq, Eq, Structural)]
pub enum Access {
    /// A scalar variable, no index.
    Scalar,
    /// An element of an array: as many indices as dimensions.
    Element,
    /// A sub-array: fewer indices than dimensions.
    Slice,
    /// An element through a pointer parameter: one index for the pointer
    /// and one for each dimension of what it points to.
    PointerElement,
    /// A sub-array through a pointer parameter.
    PointerSlice,
}

/// The access of an l-value with `indices` indices to a variable whose
/// address has the type `ty`; None when the two do not go together.
pub open spec fn access_of(ty: Ty, indices: nat) -> Option<Access> {
    match ty {
        Ty::Pointer(base) => match *base {
            Ty::Int32 => if indices == 0 {
                Some(Access::Scalar)
            } else {
                None
            },
            Ty::Array(_, _) => if indices > base.rank() {
                None
            } else if indices == base.rank() {
                Some(Access::Element)
            } else {
                Some(Access::Slice)
            },
            Ty::Pointer(to) => if indices > to.rank() + 1 {
                None
            } else if indices == to.rank() + 1 {
                Some(Access::PointerElement)
            } else {
                Some(Access::PointerSlice)
            },
            Ty::Unit => None,
        },
        _ => None,
    }
}

/// Holds `indices` against the number of dimensions of `ty`: None when there
/// are more indices than dimensions, otherwise whether there are as many.
pub(crate) fn measure(ty: &Ty, indices: usize) -> (r: Option<bool>)
    ensures
        r is None <==> indices > ty.rank(),
        r matches Some(all) ==> all == (indices == ty.rank()),
    decreases ty,
{
    match ty {
        Ty::Array(base, _) => if indices == 0 {
            Some(false)
        } else {
            measure(base, indices - 1)
        },
        _ => if indices == 0 {
            Some(true)
        } else {
            None
        },
    }
}

/// Works out the access of an l-value from the type of the variable's
/// address and the number of indices.
pub fn classify(ty: &Ty, indices: usize) -> (r: Option<Access>)
    ensures
        r == access_of(*ty, indices as nat),
{
    match ty {
        Ty::Pointer(base) => match &**base {
            Ty::Int32 => if indices == 0 {
                Some(Access::Scalar)
            } else {
                None
            },
            Ty::Array(_, _) => match measure(base, indices) {
                Some(true) => Some(Access::Element),
                Some(false) => Some(Access::Slice),
                None => None,
            },
            Ty::Pointer(to) => if indices == 0 {
                Some(Access::PointerSlice)
            } else {
                match measure(to, indices - 1) {
                    Some(true) => Some(Access::PointerElement),
                    Some(false) => Some(Access::PointerSlice),
                    None => None,
                }
            },
            Ty::Unit => None,
        },
        _ => None,
    }
}

impl ConstExp {
    /// The value of an expression that has one.
    pub fn create(&self, scope: &Scope) -> (n: i32)
        requires
            self.eval(scope.frames()) is Some,
        ensures
            self.eval(scope.frames()) == Some(n),
    {
        match self.evaluate(scope) {
            Some(n) => n,
            None => vstd::pervasive::unreached(),
        }
    }
}

impl FuncType {
    /// The IR type of what a function returns.
    pub fn create(&self) -> (ty: Ty)
        ensures
            ty == match self {
                FuncType::Void => Ty::Unit,
                FuncType::Int => Ty::Int32,
            },
    {
        match self {
            FuncType::Void => Ty::Unit,
            FuncType::Int => Ty::Int32,
        }
    }
}

} // verus!

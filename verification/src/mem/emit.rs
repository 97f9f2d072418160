//! The steps the front end is made of: make one value, put it at the end of
//! the block under construction, stamp it, and note the use of its operands.
//!
//! Each step checks what the typing rule of its value asks for and refuses,
//! leaving everything as it was, when the check fails.

use vstd::prelude::*;
use crate::mem::info::{born, touched, Info, ValueInfo};
use crate::mem::rules::{born_in_a_row, does, state, Step};
use crate::mem::scope::{find, find_func, lookup, Entry, Frame, Scope};
use crate::program::entities::{Bb, BinOp, Func, Prog, Val, ValueData, ValueKind};
use crate::program::types::Ty;

verus! {

/// Why a program cannot be lowered.
#[derive(Clone, Copy, Debug, PartialEq, Eq, Structural)]
pub enum Error {
    /// A name is used that no declaration in sight binds.
    UnknownName,
    /// A function is called that has not been declared.
    UnknownFunction,
    /// A constant stands on the left of an assignment.
    ConstAssign,
    /// An l-value has more indices than its type has dimensions, or is
    /// assigned to with fewer.
    BadLVal,
    /// An operand has the wrong type for the instruction that uses it.
    TypeMismatch,
    /// An expression that must be constant cannot be evaluated.
    NotConstant,
    /// An initializer does not fit what it initializes: a list for a scalar,
    /// an expression for an array, more elements than the array holds, or a
    /// list nested deeper than the array has dimensions.
    BadInitializer,
    /// An array dimension is not positive, or the array is too large.
    BadDimension,
    /// `break` or `continue` outside any loop.
    OutsideLoop,
    /// Code that needs a function around it stands outside every function.
    OutsideFunction,
    /// A function is defined inside another.
    NestedFunction,
    /// The program needs more labels than there are numbers.
    TooManyLabels,
}

/// A name bound to a value is bound to a pointer that code of `owner` may use.
pub open spec fn entry_ok(program: &Prog, owner: Option<Func>, e: Entry) -> bool {
    e matches Entry::Value(v) ==> program.operand(owner, v, program.values.len() as int)
        && program.ty(v) is Pointer
}

pub open spec fn frames_ok(frames: Seq<Frame>, program: &Prog, owner: Option<Func>) -> bool {
    forall|i: int, j: int|
        0 <= i < frames.len() && 0 <= j < frames[i].len() ==> entry_ok(
            program,
            owner,
            (#[trigger] frames[i][j]).1,
        )
}

pub open spec fn table_ok(table: Seq<(Seq<char>, Func)>, program: &Prog) -> bool {
    forall|k: int| 0 <= k < table.len() ==> program.has_func((#[trigger] table[k]).1)
}

/// The scope speaks of what the program holds: the function and block under
/// construction, the loop targets, the functions of the table and the values
/// that names are bound to all exist, and all belong together.
pub open spec fn scope_ok(program: &Prog, scope: &Scope) -> bool {
    &&& scope.values.len() > 0
    &&& frames_ok(scope.frames(), program, scope.cur_func)
    &&& table_ok(scope.table(), program)
    &&& match scope.cur_func {
        Some(f) => program.has_func(f) && scope.cur_bb is Some && program.target(
            Some(f),
            scope.cur_bb->Some_0,
        ),
        None => scope.cur_bb is None,
    }
    &&& forall|k: int|
        0 <= k < scope.loop_info.len() ==> program.target(
            scope.cur_func,
            (#[trigger] scope.loop_info[k]).0,
        ) && program.target(scope.cur_func, scope.loop_info[k].1)
}

/// The first `n` values have stamps, made in the order of the values: each
/// was born at the time that is its index and last used no earlier than that
/// and no later than now.
pub open spec fn stamps_ok(info: &Info, n: nat) -> bool {
    &&& info.counter == n
    &&& forall|i: usize|
        i < n ==> {
            &&& #[trigger] info.value_infos@.contains_key(i)
            &&& info.value_infos@[i].birth == i
            &&& i <= info.value_infos@[i].death <= info.counter
        }
}

/// The three parts of the front end's state fit together.
pub open spec fn ready(program: &Prog, scope: &Scope, info: &Info) -> bool {
    &&& program.wf()
    &&& scope_ok(program, scope)
    &&& stamps_ok(info, program.values.len() as nat)
}

/// `new` has grown out of `old`, and so out of whatever `old` grew out of.
pub open spec fn grows(new: &Prog, old: &Prog) -> bool {
    &&& new.extends(old)
    &&& forall|base: Prog| #[trigger] old.extends(&base) ==> new.extends(&base)
}

pub proof fn grows_from(new: &Prog, old: &Prog)
    requires
        new.extends(old),
    ensures
        grows(new, old),
{
    assert forall|base: Prog| #[trigger] old.extends(&base) implies new.extends(&base) by {
        new.extends_trans(old, &base);
    }
}

pub proof fn scope_ok_extends(new: &Prog, old: &Prog, scope: &Scope)
    requires
        new.extends(old),
        scope_ok(old, scope),
    ensures
        scope_ok(new, scope),
{
    let frames = scope.frames();
    assert forall|i: int, j: int| 0 <= i < frames.len() && 0 <= j < frames[i].len() implies entry_ok(
        new,
        scope.cur_func,
        (#[trigger] frames[i][j]).1,
    ) by {
        assert(entry_ok(old, scope.cur_func, frames[i][j].1));
    }
    assert forall|k: int| 0 <= k < scope.table().len() implies new.has_func(
        (#[trigger] scope.table()[k]).1,
    ) by {
        assert(old.has_func(scope.table()[k].1));
    }
}

proof fn find_ok(frame: Frame, id: Seq<char>, program: &Prog, owner: Option<Func>)
    requires
        forall|j: int| 0 <= j < frame.len() ==> entry_ok(program, owner, (#[trigger] frame[j]).1),
    ensures
        find(frame, id) matches Some(e) ==> entry_ok(program, owner, e),
    decreases frame.len(),
{
    if frame.len() > 0 {
        assert(entry_ok(program, owner, frame[frame.len() - 1].1));
        if frame.last().0 != id {
            find_ok(frame.drop_last(), id, program, owner);
        }
    }
}

/// What a lookup finds is a binding of some frame, and as good as they all are.
pub proof fn lookup_ok(frames: Seq<Frame>, id: Seq<char>, program: &Prog, owner: Option<Func>)
    requires
        frames_ok(frames, program, owner),
    ensures
        lookup(frames, id) matches Some(e) ==> entry_ok(program, owner, e),
    decreases frames.len(),
{
    if frames.len() > 0 {
        let last = frames.last();
        assert forall|j: int| 0 <= j < last.len() implies entry_ok(
            program,
            owner,
            (#[trigger] last[j]).1,
        ) by {
            assert(entry_ok(program, owner, frames[frames.len() - 1][j].1));
        }
        find_ok(last, id, program, owner);
        if find(last, id) is None {
            let rest = frames.drop_last();
            assert forall|i: int, j: int|
                0 <= i < rest.len() && 0 <= j < rest[i].len() implies entry_ok(
                program,
                owner,
                (#[trigger] rest[i][j]).1,
            ) by {
                assert(entry_ok(program, owner, frames[i][j].1));
            }
            lookup_ok(rest, id, program, owner);
        }
    }
}

/// What the function table finds is a function of the program.
pub proof fn find_func_ok(table: Seq<(Seq<char>, Func)>, id: Seq<char>, program: &Prog)
    requires
        table_ok(table, program),
    ensures
        find_func(table, id) matches Some(f) ==> program.has_func(f),
    decreases table.len(),
{
    if table.len() > 0 {
        assert(program.has_func(table[table.len() - 1].1));
        if table.last().0 != id {
            let rest = table.drop_last();
            assert forall|k: int| 0 <= k < rest.len() implies program.has_func(
                (#[trigger] rest[k]).1,
            ) by {
                assert(program.has_func(table[k].1));
            }
            find_func_ok(rest, id, program);
        }
    }
}

/// The table of stamps after the uses `uses`, one after the other, at `now`.
pub open spec fn touch_all(m: Map<usize, ValueInfo>, uses: Seq<Val>, now: usize) -> Map<
    usize,
    ValueInfo,
>
    decreases uses.len(),
{
    if uses.len() == 0 {
        m
    } else {
        touched(touch_all(m, uses.drop_last(), now), uses.last(), now)
    }
}

/// `new` is `old` after the making of `v` and one use of each of `uses`:
/// `v` is born at the old time, the clock has ticked once, and every operand
/// was last used at the new time.
pub open spec fn stamped(new: &Info, old: &Info, v: Val, uses: Seq<Val>) -> bool {
    &&& new.counter == old.counter + 1
    &&& new.zero_array_infos == old.zero_array_infos
    &&& new.value_infos@ == touch_all(
        old.value_infos@.insert(v.id, born(old.counter)),
        uses,
        new.counter,
    )
}

/// `new` is `old` with the value `v` of content `data` added and, inside a
/// function, appended to the block under construction; nothing else differs.
pub open spec fn emitted(new: &Prog, old: &Prog, scope: &Scope, v: Val, data: ValueData) -> bool {
    &&& v.id == old.values.len()
    &&& new.values@ == old.values@.push(data)
    &&& new.funcs == old.funcs
    &&& new.inst_layout == old.inst_layout
    &&& new.bbs.len() == old.bbs.len()
    &&& forall|b: int|
        0 <= b < old.bbs.len() && Some(Bb { id: b as usize }) != scope.cur_bb
            ==> #[trigger] new.bbs[b] == old.bbs[b]
    &&& scope.cur_bb matches Some(bb) ==> {
        &&& new.insts(bb) == old.insts(bb).push(v)
        &&& new.bbs[bb.id as int].name == old.bbs[bb.id as int].name
        &&& new.bbs[bb.id as int].func == old.bbs[bb.id as int].func
    }
}

proof fn touch_all_keeps(m: Map<usize, ValueInfo>, uses: Seq<Val>, now: usize, n: nat)
    requires
        forall|i: usize|
            i < n ==> {
                &&& #[trigger] m.contains_key(i)
                &&& m[i].birth == i
                &&& i <= m[i].death <= now
            },
    ensures
        forall|i: usize|
            i < n ==> {
                &&& #[trigger] touch_all(m, uses, now).contains_key(i)
                &&& touch_all(m, uses, now)[i].birth == i
                &&& i <= touch_all(m, uses, now)[i].death <= now
            },
        touch_all(m, uses, now).dom() == m.dom(),
    decreases uses.len(),
{
    if uses.len() > 0 {
        touch_all_keeps(m, uses.drop_last(), now, n);
        let prev = touch_all(m, uses.drop_last(), now);
        assert(touched(prev, uses.last(), now).dom() =~= prev.dom());
        assert forall|i: usize| i < n implies {
            &&& #[trigger] touch_all(m, uses, now).contains_key(i)
            &&& touch_all(m, uses, now)[i].birth == i
            &&& i <= touch_all(m, uses, now)[i].death <= now
        } by {
            assert(prev.contains_key(i));
        }
    }
}

/// Puts a value just made where it belongs and stamps it.
fn settle(program: &mut Prog, scope: &Scope, info: &mut Info, v: Val)
    requires
        old(program).wf(),
        scope_ok(old(program), scope),
        v.id + 1 == old(program).values.len(),
        old(program).data(v).func == scope.cur_func,
        stamps_ok(old(info), v.id as nat),
    ensures
        ready(final(program), scope, final(info)),
        final(program).extends(old(program)),
        final(program).values == old(program).values,
        final(program).funcs == old(program).funcs,
        final(program).inst_layout == old(program).inst_layout,
        final(program).bbs.len() == old(program).bbs.len(),
        forall|b: int|
            0 <= b < old(program).bbs.len() && Some(Bb { id: b as usize }) != scope.cur_bb
                ==> #[trigger] final(program).bbs[b] == old(program).bbs[b],
        scope.cur_bb matches Some(bb) ==> {
            &&& final(program).insts(bb) == old(program).insts(bb).push(v)
            &&& final(program).bbs[bb.id as int].name == old(program).bbs[bb.id as int].name
            &&& final(program).bbs[bb.id as int].func == old(program).bbs[bb.id as int].func
        },
        stamped(final(info), old(info), v, Seq::<Val>::empty()),
{
    match scope.cur_bb {
        Some(bb) => {
            program.push_inst(bb, v);
        },
        None => {},
    }
    proof {
        scope_ok_extends(program, old(program), scope);
    }
    info.new_info(v);
}

/// Notes the use of each of `uses` now.
fn touch_each(info: &mut Info, uses: &Vec<Val>, Ghost(n): Ghost<nat>)
    requires
        stamps_ok(old(info), n),
    ensures
        stamps_ok(final(info), n),
        final(info).counter == old(info).counter,
        final(info).zero_array_infos == old(info).zero_array_infos,
        final(info).value_infos@ == touch_all(old(info).value_infos@, uses@, old(info).counter),
{
    let mut k: usize = 0;
    while k < uses.len()
        invariant
            k <= uses.len(),
            info.counter == old(info).counter,
            info.zero_array_infos == old(info).zero_array_infos,
            info.value_infos@ == touch_all(
                old(info).value_infos@,
                uses@.take(k as int),
                old(info).counter,
            ),
        decreases uses.len() - k,
    {
        info.touch(uses[k]);
        proof {
            assert(uses@.take(k + 1).drop_last() =~= uses@.take(k as int));
        }
        k += 1;
    }
    proof {
        assert(uses@.take(k as int) =~= uses@);
        touch_all_keeps(old(info).value_infos@, uses@, old(info).counter, n);
    }
}

/// Settles the value `v` that was just added to `before`, and notes the use
/// of its operands.
fn install(
    program: &mut Prog,
    scope: &Scope,
    info: &mut Info,
    v: Val,
    uses: Vec<Val>,
    Ghost(before): Ghost<Prog>,
    Ghost(data): Ghost<ValueData>,
)
    requires
        ready(&before, scope, old(info)),
        old(program).wf(),
        old(program).added(&before, v, data),
        data.func == scope.cur_func,
    ensures
        ready(final(program), scope, final(info)),
        grows(final(program), &before),
        emitted(final(program), &before, scope, v, data),
        stamped(final(info), old(info), v, uses@),
{
    proof {
        assert(program.extends(&before));
        scope_ok_extends(program, &before, scope);
    }
    let ghost made = *program;
    settle(program, scope, info, v);
    touch_each(info, &uses, Ghost(program.values.len() as nat));
    proof {
        program.extends_trans(&made, &before);
        grows_from(program, &before);
    }
}

/// Makes the integer constant `n`: a global value outside any function, an
/// instruction of the block under construction inside one.
pub fn emit_integer(program: &mut Prog, scope: &Scope, info: &mut Info, n: i32) -> (v: Val)
    requires
        ready(old(program), scope, old(info)),
    ensures
        does(
            state(old(program), scope, old(info)),
            Step::Integer(n),
            state(final(program), scope, final(info)),
        ),
        ready(final(program), scope, final(info)),
        grows(final(program), old(program)),
        emitted(
            final(program),
            old(program),
            scope,
            v,
            (ValueData { ty: Ty::Int32, kind: ValueKind::Integer(n), func: scope.cur_func }),
        ),
        stamped(final(info), old(info), v, Seq::<Val>::empty()),
{
    let v = program.integer(scope.cur_func, n);
    install(program, scope, info, v, Vec::new(), Ghost(*old(program)), Ghost(program.data(v)));
    proof {
        reveal(does);
    }
    v
}

/// Makes room for a `ty` in the frame of the function under construction.
pub fn emit_alloc(program: &mut Prog, scope: &Scope, info: &mut Info, ty: Ty) -> (r: Result<
    Val,
    Error,
>)
    requires
        ready(old(program), scope, old(info)),
    ensures
        r is Ok ==> does(
            state(old(program), scope, old(info)),
            Step::Alloc(ty),
            state(final(program), scope, final(info)),
        ),
        grows(final(program), old(program)),
        match r {
            Ok(v) => {
                &&& scope.cur_func is Some
                &&& ty != Ty::Unit
                &&& ready(final(program), scope, final(info))
                &&& emitted(
                    final(program),
                    old(program),
                    scope,
                    v,
                    (ValueData {
                        ty: Ty::Pointer(Box::new(ty)),
                        kind: ValueKind::Alloc,
                        func: scope.cur_func,
                    }),
                )
                &&& stamped(final(info), old(info), v, Seq::<Val>::empty())
            },
            Err(e) => {
                &&& *final(program) == *old(program)
                &&& *final(info) == *old(info)
                &&& e == if scope.cur_func is None {
                    Error::OutsideFunction
                } else {
                    Error::TypeMismatch
                }
                &&& scope.cur_func is None || ty == Ty::Unit
            },
        },
{
    proof {
        grows_from(program, program);
    }
    let func = match scope.cur_func {
        Some(f) => f,
        None => {
            return Err(Error::OutsideFunction);
        },
    };
    if ty.check_unit() {
        return Err(Error::TypeMismatch);
    }
    let v = program.local_alloc(func, ty);
    install(program, scope, info, v, Vec::new(), Ghost(*old(program)), Ghost(program.data(v)));
    proof {
        reveal(does);
    }
    Ok(v)
}

/// Loads through the pointer `src`.
pub fn emit_load(program: &mut Prog, scope: &Scope, info: &mut Info, src: Val) -> (r: Result<
    Val,
    Error,
>)
    requires
        ready(old(program), scope, old(info)),
        old(program).operand(scope.cur_func, src, old(program).values.len() as int),
    ensures
        r is Ok ==> does(
            state(old(program), scope, old(info)),
            Step::Load(src),
            state(final(program), scope, final(info)),
        ),
        grows(final(program), old(program)),
        match r {
            Ok(v) => {
                &&& scope.cur_func is Some
                &&& old(program).ty(src) is Pointer
                &&& ready(final(program), scope, final(info))
                &&& emitted(
                    final(program),
                    old(program),
                    scope,
                    v,
                    (ValueData {
                        ty: *old(program).ty(src)->Pointer_0,
                        kind: ValueKind::Load(src),
                        func: scope.cur_func,
                    }),
                )
                &&& stamped(final(info), old(info), v, seq![src])
            },
            Err(e) => {
                &&& *final(program) == *old(program)
                &&& *final(info) == *old(info)
                &&& e == if scope.cur_func is None {
                    Error::OutsideFunction
                } else {
                    Error::TypeMismatch
                }
                &&& scope.cur_func is None || !(old(program).ty(src) is Pointer)
            },
        },
{
    proof {
        grows_from(program, program);
    }
    let func = match scope.cur_func {
        Some(f) => f,
        None => {
            return Err(Error::OutsideFunction);
        },
    };
    match program.value_ty(src) {
        Ty::Pointer(_) => {},
        _ => {
            return Err(Error::TypeMismatch);
        },
    }
    let v = program.load(func, src);
    let uses = vec![src];
    assert(uses@ =~= seq![src]);
    install(program, scope, info, v, uses, Ghost(*old(program)), Ghost(program.data(v)));
    proof {
        reveal(does);
    }
    Ok(v)
}

/// Stores `value` through the pointer `dest`.
pub fn emit_store(
    program: &mut Prog,
    scope: &Scope,
    info: &mut Info,
    value: Val,
    dest: Val,
) -> (r: Result<Val, Error>)
    requires
        ready(old(program), scope, old(info)),
        old(program).operand(scope.cur_func, value, old(program).values.len() as int),
        old(program).operand(scope.cur_func, dest, old(program).values.len() as int),
    ensures
        r is Ok ==> does(
            state(old(program), scope, old(info)),
            Step::Store(value, dest),
            state(final(program), scope, final(info)),
        ),
        grows(final(program), old(program)),
        match r {
            Ok(v) => {
                &&& scope.cur_func is Some
                &&& old(program).ty(dest) == Ty::Pointer(Box::new(old(program).ty(value)))
                &&& ready(final(program), scope, final(info))
                &&& emitted(
                    final(program),
                    old(program),
                    scope,
                    v,
                    (ValueData {
                        ty: Ty::Unit,
                        kind: ValueKind::Store(value, dest),
                        func: scope.cur_func,
                    }),
                )
                &&& stamped(final(info), old(info), v, seq![value, dest])
            },
            Err(e) => {
                &&& *final(program) == *old(program)
                &&& *final(info) == *old(info)
                &&& e == if scope.cur_func is None {
                    Error::OutsideFunction
                } else {
                    Error::TypeMismatch
                }
                &&& scope.cur_func is None || old(program).ty(dest) != Ty::Pointer(
                    Box::new(old(program).ty(value)),
                )
            },
        },
{
    proof {
        grows_from(program, program);
    }
    let func = match scope.cur_func {
        Some(f) => f,
        None => {
            return Err(Error::OutsideFunction);
        },
    };
    if !program.value_ty(dest).points_to(program.value_ty(value)) {
        return Err(Error::TypeMismatch);
    }
    let v = program.store(func, value, dest);
    let uses = vec![value, dest];
    assert(uses@ =~= seq![value, dest]);
    install(program, scope, info, v, uses, Ghost(*old(program)), Ghost(program.data(v)));
    proof {
        reveal(does);
    }
    Ok(v)
}

/// What an index step needs: a pointer to step from and an integer to step by;
/// a step into an element also needs the pointer to point to an array.
pub open spec fn can_index(program: &Prog, src: Val, index: Val, into_elem: bool) -> bool {
    &&& program.ty(src) is Pointer
    &&& program.ty(index) == Ty::Int32
    &&& into_elem ==> *program.ty(src)->Pointer_0 is Array
}

/// The value of an index step: `getelemptr` into an element of the array
/// pointed to, or `getptr` along the pointer.
pub open spec fn index_data(
    program: &Prog,
    owner: Option<Func>,
    src: Val,
    index: Val,
    into_elem: bool,
) -> ValueData {
    if into_elem {
        ValueData {
            ty: Ty::Pointer(program.ty(src)->Pointer_0->Array_0),
            kind: ValueKind::GetElemPtr(src, index),
            func: owner,
        }
    } else {
        ValueData { ty: program.ty(src), kind: ValueKind::GetPtr(src, index), func: owner }
    }
}

/// Steps from the pointer `src` by `index`: into the array it points to
/// (`into_elem`), or along the pointer.
pub fn emit_index(
    program: &mut Prog,
    scope: &Scope,
    info: &mut Info,
    src: Val,
    index: Val,
    into_elem: bool,
) -> (r: Result<Val, Error>)
    requires
        ready(old(program), scope, old(info)),
        old(program).operand(scope.cur_func, src, old(program).values.len() as int),
        old(program).operand(scope.cur_func, index, old(program).values.len() as int),
    ensures
        r is Ok ==> does(
            state(old(program), scope, old(info)),
            Step::Index(src, index, into_elem),
            state(final(program), scope, final(info)),
        ),
        grows(final(program), old(program)),
        match r {
            Ok(v) => {
                &&& scope.cur_func is Some
                &&& can_index(old(program), src, index, into_elem)
                &&& ready(final(program), scope, final(info))
                &&& emitted(
                    final(program),
                    old(program),
                    scope,
                    v,
                    index_data(old(program), scope.cur_func, src, index, into_elem),
                )
                &&& stamped(final(info), old(info), v, seq![index, src])
            },
            Err(e) => {
                &&& *final(program) == *old(program)
                &&& *final(info) == *old(info)
                &&& e == if scope.cur_func is None {
                    Error::OutsideFunction
                } else {
                    Error::TypeMismatch
                }
                &&& scope.cur_func is None || !can_index(old(program), src, index, into_elem)
            },
        },
{
    proof {
        grows_from(program, program);
    }
    let func = match scope.cur_func {
        Some(f) => f,
        None => {
            return Err(Error::OutsideFunction);
        },
    };
    if !program.value_ty(index).check_i32() {
        return Err(Error::TypeMismatch);
    }
    let fits = match program.value_ty(src) {
        Ty::Pointer(base) => !into_elem || match &**base {
            Ty::Array(_, _) => true,
            _ => false,
        },
        _ => false,
    };
    if !fits {
        return Err(Error::TypeMismatch);
    }
    let v = if into_elem {
        program.get_elem_ptr(func, src, index)
    } else {
        program.get_ptr(func, src, index)
    };
    let uses = vec![index, src];
    assert(uses@ =~= seq![index, src]);
    install(program, scope, info, v, uses, Ghost(*old(program)), Ghost(program.data(v)));
    proof {
        reveal(does);
    }
    Ok(v)
}

/// Applies `op` to two integers.
pub fn emit_binary(
    program: &mut Prog,
    scope: &Scope,
    info: &mut Info,
    op: BinOp,
    lhs: Val,
    rhs: Val,
) -> (r: Result<Val, Error>)
    requires
        ready(old(program), scope, old(info)),
        old(program).operand(scope.cur_func, lhs, old(program).values.len() as int),
        old(program).operand(scope.cur_func, rhs, old(program).values.len() as int),
    ensures
        r is Ok ==> does(
            state(old(program), scope, old(info)),
            Step::Binary(op, lhs, rhs),
            state(final(program), scope, final(info)),
        ),
        grows(final(program), old(program)),
        match r {
            Ok(v) => {
                &&& scope.cur_func is Some
                &&& old(program).ty(lhs) == Ty::Int32
                &&& old(program).ty(rhs) == Ty::Int32
                &&& ready(final(program), scope, final(info))
                &&& emitted(
                    final(program),
                    old(program),
                    scope,
                    v,
                    (ValueData {
                        ty: Ty::Int32,
                        kind: ValueKind::Binary(op, lhs, rhs),
                        func: scope.cur_func,
                    }),
                )
                &&& stamped(final(info), old(info), v, seq![lhs, rhs])
            },
            Err(e) => {
                &&& *final(program) == *old(program)
                &&& *final(info) == *old(info)
                &&& e == if scope.cur_func is None {
                    Error::OutsideFunction
                } else {
                    Error::TypeMismatch
                }
                &&& scope.cur_func is None || old(program).ty(lhs) != Ty::Int32 || old(
                    program,
                ).ty(rhs) != Ty::Int32
            },
        },
{
    proof {
        grows_from(program, program);
    }
    let func = match scope.cur_func {
        Some(f) => f,
        None => {
            return Err(Error::OutsideFunction);
        },
    };
    if !program.value_ty(lhs).check_i32() || !program.value_ty(rhs).check_i32() {
        return Err(Error::TypeMismatch);
    }
    let v = program.binary(func, op, lhs, rhs);
    let uses = vec![lhs, rhs];
    assert(uses@ =~= seq![lhs, rhs]);
    install(program, scope, info, v, uses, Ghost(*old(program)), Ghost(program.data(v)));
    proof {
        reveal(does);
    }
    Ok(v)
}

/// Branches on the integer `cond`.
pub fn emit_branch(
    program: &mut Prog,
    scope: &Scope,
    info: &mut Info,
    cond: Val,
    on_true: Bb,
    on_false: Bb,
) -> (r: Result<Val, Error>)
    requires
        ready(old(program), scope, old(info)),
        old(program).operand(scope.cur_func, cond, old(program).values.len() as int),
        old(program).target(scope.cur_func, on_true),
        old(program).target(scope.cur_func, on_false),
    ensures
        r is Ok ==> does(
            state(old(program), scope, old(info)),
            Step::Branch(cond, on_true, on_false),
            state(final(program), scope, final(info)),
        ),
        grows(final(program), old(program)),
        match r {
            Ok(v) => {
                &&& old(program).ty(cond) == Ty::Int32
                &&& ready(final(program), scope, final(info))
                &&& emitted(
                    final(program),
                    old(program),
                    scope,
                    v,
                    (ValueData {
                        ty: Ty::Unit,
                        kind: ValueKind::Branch(cond, on_true, on_false),
                        func: scope.cur_func,
                    }),
                )
                &&& stamped(final(info), old(info), v, seq![cond])
            },
            Err(e) => {
                &&& *final(program) == *old(program)
                &&& *final(info) == *old(info)
                &&& e == Error::TypeMismatch
                &&& old(program).ty(cond) != Ty::Int32
            },
        },
{
    proof {
        grows_from(program, program);
    }
    let func = match scope.cur_func {
        Some(f) => f,
        None => Func { id: 0 },
    };
    if !program.value_ty(cond).check_i32() {
        return Err(Error::TypeMismatch);
    }
    let v = program.branch(func, cond, on_true, on_false);
    let uses = vec![cond];
    assert(uses@ =~= seq![cond]);
    install(program, scope, info, v, uses, Ghost(*old(program)), Ghost(program.data(v)));
    proof {
        reveal(does);
    }
    Ok(v)
}

/// Jumps to a block of the function under construction.
pub fn emit_jump(program: &mut Prog, scope: &Scope, info: &mut Info, to: Bb) -> (v:
    Val)
    requires
        ready(old(program), scope, old(info)),
        old(program).target(scope.cur_func, to),
    ensures
        does(
            state(old(program), scope, old(info)),
            Step::Jump(to),
            state(final(program), scope, final(info)),
        ),
        grows(final(program), old(program)),
        ready(final(program), scope, final(info)),
        emitted(
            final(program),
            old(program),
            scope,
            v,
            (ValueData { ty: Ty::Unit, kind: ValueKind::Jump(to), func: scope.cur_func }),
        ),
        stamped(final(info), old(info), v, Seq::<Val>::empty()),
{
    let func = match scope.cur_func {
        Some(f) => f,
        None => Func { id: 0 },
    };
    let v = program.jump(func, to);
    install(program, scope, info, v, Vec::new(), Ghost(*old(program)), Ghost(program.data(v)));
    proof {
        reveal(does);
    }
    v
}

/// Returns from the function under construction, with or without a value.
pub fn emit_ret(program: &mut Prog, scope: &Scope, info: &mut Info, value: Option<Val>) -> (r:
    Result<Val, Error>)
    requires
        ready(old(program), scope, old(info)),
        value matches Some(x) ==> old(program).operand(
            scope.cur_func,
            x,
            old(program).values.len() as int,
        ),
    ensures
        r is Ok ==> does(
            state(old(program), scope, old(info)),
            Step::Ret(value),
            state(final(program), scope, final(info)),
        ),
        grows(final(program), old(program)),
        match r {
            Ok(v) => {
                &&& scope.cur_func is Some
                &&& value matches Some(x) ==> old(program).ty(x) != Ty::Unit
                &&& ready(final(program), scope, final(info))
                &&& emitted(
                    final(program),
                    old(program),
                    scope,
                    v,
                    (ValueData {
                        ty: Ty::Unit,
                        kind: ValueKind::Return(value),
                        func: scope.cur_func,
                    }),
                )
                &&& stamped(
                    final(info),
                    old(info),
                    v,
                    match value {
                        Some(x) => seq![x],
                        None => Seq::<Val>::empty(),
                    },
                )
            },
            Err(e) => {
                &&& *final(program) == *old(program)
                &&& *final(info) == *old(info)
                &&& e == if scope.cur_func is None {
                    Error::OutsideFunction
                } else {
                    Error::TypeMismatch
                }
                &&& scope.cur_func is None || (value matches Some(x) && old(program).ty(x)
                    == Ty::Unit)
            },
        },
{
    proof {
        grows_from(program, program);
    }
    let func = match scope.cur_func {
        Some(f) => f,
        None => {
            return Err(Error::OutsideFunction);
        },
    };
    let mut uses: Vec<Val> = Vec::new();
    match value {
        Some(x) => {
            if program.value_ty(x).check_unit() {
                return Err(Error::TypeMismatch);
            }
            uses.push(x);
            assert(uses@ =~= seq![x]);
        },
        None => {},
    }
    let v = program.ret(func, value);
    install(program, scope, info, v, uses, Ghost(*old(program)), Ghost(program.data(v)));
    proof {
        reveal(does);
    }
    Ok(v)
}

/// Whether the arguments have the types of the parameters, one for one.
pub open spec fn args_fit(program: &Prog, args: Seq<Val>, params_ty: Seq<Ty>) -> bool {
    &&& args.len() == params_ty.len()
    &&& forall|i: int| 0 <= i < args.len() ==> program.ty(#[trigger] args[i]) == params_ty[i]
}

fn check_args(program: &Prog, args: &Vec<Val>, callee: Func) -> (r: bool)
    requires
        program.has_func(callee),
        forall|i: int| 0 <= i < args.len() ==> program.has_value(#[trigger] args[i]),
    ensures
        r == args_fit(program, args@, program.funcs[callee.id as int].params_ty@),
{
    let params_ty = &program.funcs[callee.id].params_ty;
    if args.len() != params_ty.len() {
        return false;
    }
    let mut k: usize = 0;
    while k < args.len()
        invariant
            k <= args.len(),
            args.len() == params_ty.len(),
            program.has_func(callee),
            *params_ty == program.funcs[callee.id as int].params_ty,
            forall|i: int| 0 <= i < args.len() ==> program.has_value(#[trigger] args[i]),
            forall|i: int| 0 <= i < k ==> program.ty(#[trigger] args[i]) == params_ty[i],
        decreases args.len() - k,
    {
        if !program.value_ty(args[k]).same(&params_ty[k]) {
            assert(program.ty(args@[k as int]) != params_ty@[k as int]);
            return false;
        }
        k += 1;
    }
    true
}

/// Calls `callee` with the given arguments.
pub fn emit_call(
    program: &mut Prog,
    scope: &Scope,
    info: &mut Info,
    callee: Func,
    args: Vec<Val>,
) -> (r: Result<Val, Error>)
    requires
        ready(old(program), scope, old(info)),
        old(program).has_func(callee),
        forall|i: int|
            0 <= i < args.len() ==> old(program).operand(
                scope.cur_func,
                #[trigger] args[i],
                old(program).values.len() as int,
            ),
    ensures
        r is Ok ==> does(
            state(old(program), scope, old(info)),
            Step::Call(callee, args@),
            state(final(program), scope, final(info)),
        ),
        grows(final(program), old(program)),
        match r {
            Ok(v) => {
                &&& scope.cur_func is Some
                &&& args_fit(old(program), args@, old(program).funcs[callee.id as int].params_ty@)
                &&& ready(final(program), scope, final(info))
                &&& v.id == old(program).values.len()
                &&& final(program).ty(v) == old(program).funcs[callee.id as int].ret_ty
                &&& final(program).kind(v) matches ValueKind::Call(f, a) && f == callee && a@
                    == args@
                &&& final(program).data(v).func == scope.cur_func
                &&& emitted(final(program), old(program), scope, v, final(program).data(v))
                &&& stamped(final(info), old(info), v, args@)
            },
            Err(e) => {
                &&& *final(program) == *old(program)
                &&& *final(info) == *old(info)
                &&& e == if scope.cur_func is None {
                    Error::OutsideFunction
                } else {
                    Error::TypeMismatch
                }
                &&& scope.cur_func is None || !args_fit(
                    old(program),
                    args@,
                    old(program).funcs[callee.id as int].params_ty@,
                )
            },
        },
{
    proof {
        grows_from(program, program);
    }
    let func = match scope.cur_func {
        Some(f) => f,
        None => {
            return Err(Error::OutsideFunction);
        },
    };
    if !check_args(program, &args, callee) {
        return Err(Error::TypeMismatch);
    }
    let mut uses: Vec<Val> = Vec::new();
    let mut k: usize = 0;
    while k < args.len()
        invariant
            k <= args.len(),
            uses@ == args@.take(k as int),
        decreases args.len() - k,
    {
        uses.push(args[k]);
        assert(args@.take(k + 1) =~= args@.take(k as int).push(args@[k as int]));
        k += 1;
    }
    assert(uses@ =~= args@) by {
        assert(args@.take(args.len() as int) =~= args@);
    }
    let v = program.call(func, callee, args);
    install(program, scope, info, v, uses, Ghost(*old(program)), Ghost(program.data(v)));
    proof {
        reveal(does);
    }
    Ok(v)
}

/// What a global initializer may be made of: a global constant of type `ty`.
pub open spec fn constant_of(program: &Prog, v: Val, ty: Ty) -> bool {
    &&& program.operand(None, v, program.values.len() as int)
    &&& program.kind(v).is_const()
    &&& program.ty(v) == ty
}

/// Checks that a value is a global constant of type `ty`.
pub fn is_constant_of(program: &Prog, v: Val, ty: &Ty) -> (r: bool)
    ensures
        r == constant_of(program, v, *ty),
{
    program.is_operand(None, v) && program.value_kind(v).check_const() && program.value_ty(v).same(
        ty,
    )
}

/// Makes the aggregate of the given global constants, which all have one
/// type that is not unit. Only outside any function.
pub fn emit_aggregate(program: &mut Prog, scope: &Scope, info: &mut Info, elems: Vec<Val>) -> (v:
    Val)
    requires
        ready(old(program), scope, old(info)),
        scope.cur_func is None,
        old(program).elems_ok(elems@, old(program).values.len() as int),
    ensures
        ready(final(program), scope, final(info)),
        grows(final(program), old(program)),
        v.id == old(program).values.len(),
        final(program).kind(v) matches ValueKind::Aggregate(e) && e == elems,
        constant_of(
            final(program),
            v,
            Ty::Array(Box::new(old(program).ty(elems[0])), elems.len()),
        ),
        emitted(final(program), old(program), scope, v, final(program).data(v)),
        stamped(final(info), old(info), v, Seq::<Val>::empty()),
        does(
            state(old(program), scope, old(info)),
            Step::Aggregate(elems@),
            state(final(program), scope, final(info)),
        ),
{
    let v = program.aggregate(elems);
    install(program, scope, info, v, Vec::new(), Ghost(*old(program)), Ghost(program.data(v)));
    proof {
        reveal(does);
    }
    v
}

/// Makes a global variable that starts out as the constant `init`. Only
/// outside any function.
pub fn emit_global_alloc(program: &mut Prog, scope: &Scope, info: &mut Info, init: Val) -> (v:
    Val)
    requires
        ready(old(program), scope, old(info)),
        scope.cur_func is None,
        old(program).operand(None, init, old(program).values.len() as int),
        old(program).ty(init) != Ty::Unit,
    ensures
        ready(final(program), scope, final(info)),
        grows(final(program), old(program)),
        final(program).added_global(
            old(program),
            v,
            (ValueData {
                ty: Ty::Pointer(Box::new(old(program).ty(init))),
                kind: ValueKind::GlobalAlloc(init),
                func: None,
            }),
        ),
        stamped(final(info), old(info), v, Seq::<Val>::empty()),
        does(
            state(old(program), scope, old(info)),
            Step::GlobalAlloc(init),
            state(final(program), scope, final(info)),
        ),
{
    let v = program.global_alloc(init);
    proof {
        scope_ok_extends(program, old(program), scope);
        grows_from(program, old(program));
    }
    info.new_info(v);
    proof {
        reveal(does);
    }
    v
}

/// Declares a function: a signature without a body. The scope is not told.
pub fn emit_func_decl(
    program: &mut Prog,
    scope: &Scope,
    info: &Info,
    name: String,
    params_ty: Vec<Ty>,
    ret_ty: Ty,
) -> (f: Func)
    requires
        ready(old(program), scope, info),
    ensures
        ready(final(program), scope, info),
        grows(final(program), old(program)),
        final(program).added_func(old(program), f, name, params_ty, ret_ty, false),
        does(
            state(old(program), scope, info),
            Step::Function(name@, params_ty@, ret_ty, false),
            state(final(program), scope, info),
        ),
{
    let f = program.new_func_decl(name, params_ty, ret_ty);
    proof {
        scope_ok_extends(program, old(program), scope);
        grows_from(program, old(program));
        assert(program.values@ =~= old(program).values@);
        reveal(does);
    }
    f
}

/// Starts the definition of a function: its parameter values are made and
/// stamped; it has no block yet. The scope is not told.
pub fn emit_func_def(
    program: &mut Prog,
    scope: &Scope,
    info: &mut Info,
    name: String,
    params_ty: Vec<Ty>,
    ret_ty: Ty,
) -> (f: Func)
    requires
        ready(old(program), scope, old(info)),
        Prog::params_ty_ok(params_ty@),
    ensures
        ready(final(program), scope, final(info)),
        grows(final(program), old(program)),
        final(program).added_func(old(program), f, name, params_ty, ret_ty, true),
        final(info).zero_array_infos == old(info).zero_array_infos,
        does(
            state(old(program), scope, old(info)),
            Step::Function(name@, params_ty@, ret_ty, true),
            state(final(program), scope, final(info)),
        ),
{
    let f = program.new_func_def(name, params_ty, ret_ty);
    proof {
        scope_ok_extends(program, old(program), scope);
        grows_from(program, old(program));
    }
    let n = program.funcs[f.id].params.len();
    let mut k: usize = 0;
    while k < n
        invariant
            k <= n,
            program.has_func(f),
            n == program.funcs[f.id as int].params.len(),
            program.values.len() == old(program).values.len() + n,
            forall|j: int|
                0 <= j < n ==> (#[trigger] program.funcs[f.id as int].params[j]).id == old(
                    program,
                ).values.len() + j,
            stamps_ok(info, (old(program).values.len() + k) as nat),
            info.zero_array_infos == old(info).zero_array_infos,
            old(info).counter == old(program).values.len(),
            info.value_infos@ == born_in_a_row(
                old(info).value_infos@,
                old(program).values.len() as nat,
                old(info).counter as nat,
                k as nat,
            ),
        decreases n - k,
    {
        let v = program.funcs[f.id].params[k];
        info.new_info(v);
        k += 1;
    }
    proof {
        reveal(does);
    }
    f
}

/// Notes the dimensions of the array that is being declared.
pub fn emit_dims(program: &Prog, scope: &mut Scope, info: &Info, dims: Vec<usize>)
    requires
        ready(program, old(scope), info),
    ensures
        ready(program, final(scope), info),
        does(
            state(program, old(scope), info),
            Step::Dims(dims@),
            state(program, final(scope), info),
        ),
        *final(scope) == (Scope { array_info: dims, ..*old(scope) }),
{
    scope.set_array_info(dims);
    proof {
        assert(scope.frames() =~= old(scope).frames());
        assert(scope.table() =~= old(scope).table());
        reveal(does);
    }
}

/// Notes that the constant `init` is an array of the given dimensions with
/// nothing but zeros in it.
pub fn emit_zero(program: &Prog, scope: &Scope, info: &mut Info, init: Val, dims: Vec<usize>)
    requires
        ready(program, scope, old(info)),
    ensures
        ready(program, scope, final(info)),
        does(
            state(program, scope, old(info)),
            Step::Zero(init, dims@),
            state(program, scope, final(info)),
        ),
        final(info).zero_dims(init) == Some(dims@),
        final(info).value_infos == old(info).value_infos,
        final(info).counter == old(info).counter,
{
    info.new_array_info(init, dims);
    proof {
        reveal(does);
    }
}

/// Enters a function into the table of functions under its name.
pub fn emit_name(program: &Prog, scope: &mut Scope, info: &Info, id: String, func: Func)
    requires
        ready(program, old(scope), info),
        program.has_func(func),
    ensures
        ready(program, final(scope), info),
        does(
            state(program, old(scope), info),
            Step::Name(id@, func),
            state(program, final(scope), info),
        ),
        final(scope).table() == old(scope).table().push((id@, func)),
        final(scope).values == old(scope).values,
        final(scope).cur_func == old(scope).cur_func,
        final(scope).cur_bb == old(scope).cur_bb,
        final(scope).loop_info == old(scope).loop_info,
        final(scope).array_info == old(scope).array_info,
        final(scope).label == old(scope).label,
{
    scope.new_func(id, func);
    proof {
        assert forall|q: int| 0 <= q < scope.table().len() implies program.has_func(
            (#[trigger] scope.table()[q]).1,
        ) by {
            if q < old(scope).table().len() {
                assert(scope.table()[q] == old(scope).table()[q]);
                assert(program.has_func(old(scope).table()[q].1));
            }
        }
        reveal(does);
    }
}

} // verus!

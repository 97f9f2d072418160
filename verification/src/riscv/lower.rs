//! From the program to assembly.
//!
//! Every value that an instruction computes gets a word of the frame of its
//! own; an allocation gets as many words as what it allocates. An
//! instruction loads its operands into temporaries, works on them, and
//! stores its result in its word. Arguments beyond the eighth travel in the
//! lowest words of the caller's frame.

use vstd::prelude::*;
use vstd::string::{StrSliceExecFns, StringExecFns};
use crate::ir::translate::{plan, written, Emitted};
use crate::mem::info::Info;
use crate::mem::init::{product, suffix_products};
use crate::program::entities::{Bb, BinOp, Func, Prog, Val, ValueKind};
use crate::program::types::Ty;
use crate::riscv::code::{
    addr_sp_lines,
    after,
    after_after,
    args_lines,
    binary_lines,
    block_insts,
    block_lines,
    blocks_lines,
    both,
    branch_lines,
    call_lines,
    index_lines,
    inst_lines,
    insts_lines,
    just,
    layout,
    load_lines,
    load_sp_lines,
    lowered,
    need,
    operand_lines,
    operation_lines,
    place_blocks,
    place_insts,
    result_lines,
    return_lines,
    scan_blocks,
    scan_insts,
    step_lines,
    store_lines,
    store_sp_lines,
    Calls,
    Slots,
};
use crate::riscv::inst::{framed, Alu, Inst, Line, Reg};
use crate::riscv::scope::{Entry, Scope};
use crate::riscv::writer::{data_ok, data_text, epilogue_text, prologue_text, Writer};
use crate::text::{decimal, decimal_string};

verus! {

/// Why a program cannot be turned into assembly.
#[derive(Clone, Copy, Debug, PartialEq, Eq, Structural)]
pub enum AsmError {
    /// A value is used that has no place, because what made it was not
    /// written.
    Unplaced,
    /// A value stands where its kind cannot stand.
    Unsupported,
    /// A frame, an array or a parameter list is larger than the code can
    /// address.
    FrameTooLarge,
    /// More labels are needed than there are numbers.
    TooManyNames,
}

/// The most words that a frame, or anything in one, may have.
pub const FRAME_LIMIT: usize = 0x1fff_ffff;

/// The size of a value of the type in words: one for an integer or a
/// pointer, none for unit.
pub open spec fn size_of(ty: Ty) -> nat
    decreases ty,
{
    match ty {
        Ty::Int32 => 1,
        Ty::Pointer(_) => 1,
        Ty::Unit => 0,
        Ty::Array(base, len) => (len as nat) * size_of(*base),
    }
}

/// The size of a value of the type in words, unless it is over the limit.
pub fn words(ty: &Ty) -> (r: Option<usize>)
    ensures
        match r {
            Some(n) => n == size_of(*ty) && n <= FRAME_LIMIT,
            None => size_of(*ty) > FRAME_LIMIT,
        },
    decreases ty,
{
    match ty {
        Ty::Int32 => Some(1),
        Ty::Pointer(_) => Some(1),
        Ty::Unit => Some(0),
        Ty::Array(base, len) => {
            let elem = match words(base) {
                Some(n) => n,
                None => {
                    if *len == 0 {
                        assert((*len as nat) * size_of(**base) == 0) by (nonlinear_arith)
                            requires
                                *len == 0,
                        ;
                        return Some(0);
                    }
                    assert((*len as nat) * size_of(**base) >= size_of(**base)) by (nonlinear_arith)
                        requires
                            *len >= 1,
                    ;
                    return None;
                },
            };
            if elem == 0 {
                assert((*len as nat) * size_of(**base) == 0) by (nonlinear_arith)
                    requires
                        size_of(**base) == 0,
                ;
                return Some(0);
            }
            if *len > FRAME_LIMIT / elem {
                assert((*len as nat) * (elem as nat) > FRAME_LIMIT) by (nonlinear_arith)
                    requires
                        *len > FRAME_LIMIT / elem,
                        elem > 0,
                ;
                return None;
            }
            assert((*len as nat) * (elem as nat) <= FRAME_LIMIT) by (nonlinear_arith)
                requires
                    *len <= FRAME_LIMIT / elem,
                    elem > 0,
            ;
            Some(*len * elem)
        },
    }
}

/// A name without its first character, the sigil.
pub open spec fn bare(name: Seq<char>) -> Seq<char> {
    if name.len() == 0 {
        name
    } else {
        name.subrange(1, name.len() as int)
    }
}

/// Takes the sigil off a name.
pub fn strip(name: &String) -> (s: String)
    ensures
        s@ == bare(name@),
{
    let n = name.as_str().unicode_len();
    if n == 0 {
        String::new()
    } else {
        String::from_str(name.as_str().substring_char(1, n))
    }
}

/// `new` is `old` and then lines of the body of a function: none opens a
/// frame, and none is a call unless the function is a caller.
pub open spec fn body(new: Seq<Line>, old: Seq<Line>, caller: bool) -> bool {
    &&& old.is_prefix_of(new)
    &&& forall|i: int|
        old.len() <= i < new.len() ==> {
            &&& !((#[trigger] new[i]) is Open)
            &&& caller || !(new[i] matches Line::Inst(Inst::Call(_)))
        }
}

proof fn body_trans(c: Seq<Line>, b: Seq<Line>, a: Seq<Line>, caller: bool)
    requires
        body(c, b, caller),
        body(b, a, caller),
    ensures
        body(c, a, caller),
{
    assert forall|i: int| a.len() <= i < c.len() implies {
        &&& !((#[trigger] c[i]) is Open)
        &&& caller || !(c[i] matches Line::Inst(Inst::Call(_)))
    } by {
        if i < b.len() {
            assert(c[i] == b[i]);
        }
    }
}

fn put(lines: &mut Vec<Line>, inst: Inst, Ghost(caller): Ghost<bool>)
    requires
        caller || !(inst is Call),
    ensures
        final(lines)@ == old(lines)@ + just(inst),
        body(final(lines)@, old(lines)@, caller),
{
    lines.push(Line::Inst(inst));
    proof {
        assert(lines@ =~= old(lines)@ + just(inst));
    }
}

/// Loads the word at `off` bytes above `sp`.
fn load_sp(lines: &mut Vec<Line>, rd: Reg, off: usize, Ghost(caller): Ghost<bool>)
    requires
        off <= 0x7fff_ffff,
    ensures
        body(final(lines)@, old(lines)@, caller),
        final(lines)@ == old(lines)@ + load_sp_lines(rd, off),
{
    if off < 2048 {
        put(lines, Inst::LwSp(rd, off), Ghost(caller));
    } else {
        let ghost l0 = lines@;
        put(lines, Inst::Li(Reg::T6, off as i32), Ghost(caller));
        let ghost l1 = lines@;
        put(lines, Inst::AddSp(Reg::T6, Reg::T6), Ghost(caller));
        let ghost l2 = lines@;
        put(lines, Inst::Lw(rd, Reg::T6), Ghost(caller));
        proof {
            body_trans(l2, l1, l0, caller);
            body_trans(lines@, l2, l0, caller);
            assert(lines@ =~= l0 + load_sp_lines(rd, off));
        }
    }
}

/// Stores `rs` at `off` bytes above `sp`.
fn store_sp(lines: &mut Vec<Line>, rs: Reg, off: usize, Ghost(caller): Ghost<bool>)
    requires
        off <= 0x7fff_ffff,
    ensures
        body(final(lines)@, old(lines)@, caller),
        final(lines)@ == old(lines)@ + store_sp_lines(rs, off),
{
    if off < 2048 {
        put(lines, Inst::SwSp(rs, off), Ghost(caller));
    } else {
        let ghost l0 = lines@;
        put(lines, Inst::Li(Reg::T6, off as i32), Ghost(caller));
        let ghost l1 = lines@;
        put(lines, Inst::AddSp(Reg::T6, Reg::T6), Ghost(caller));
        let ghost l2 = lines@;
        put(lines, Inst::Sw(rs, Reg::T6), Ghost(caller));
        proof {
            body_trans(l2, l1, l0, caller);
            body_trans(lines@, l2, l0, caller);
            assert(lines@ =~= l0 + store_sp_lines(rs, off));
        }
    }
}

/// Computes the address `off` bytes above `sp`.
fn addr_sp(lines: &mut Vec<Line>, rd: Reg, off: usize, Ghost(caller): Ghost<bool>)
    requires
        off <= 0x7fff_ffff,
    ensures
        body(final(lines)@, old(lines)@, caller),
        final(lines)@ == old(lines)@ + addr_sp_lines(rd, off),
{
    if off < 2048 {
        put(lines, Inst::AddiSp(rd, off), Ghost(caller));
    } else {
        let ghost l0 = lines@;
        put(lines, Inst::Li(rd, off as i32), Ghost(caller));
        let ghost l1 = lines@;
        put(lines, Inst::AddSp(rd, rd), Ghost(caller));
        proof {
            body_trans(lines@, l1, l0, caller);
            assert(lines@ =~= l0 + addr_sp_lines(rd, off));
        }
    }
}

/// The byte offset of a slot, when the slot is within the limit.
fn offset_of(slot: usize) -> (r: Result<usize, AsmError>)
    ensures
        match r {
            Ok(off) => off == 4 * slot && slot <= FRAME_LIMIT,
            Err(e) => e == AsmError::FrameTooLarge && slot > FRAME_LIMIT,
        },
{
    if slot > FRAME_LIMIT {
        Err(AsmError::FrameTooLarge)
    } else {
        Ok(4 * slot)
    }
}

/// Brings the value `v` into the register `rd`, as [`operand_lines`] has
/// it.
fn load_operand(
    program: &Prog,
    scope: &Scope,
    v: Val,
    rd: Reg,
    lines: &mut Vec<Line>,
) -> (r: Result<(), AsmError>)
    requires
        program.has_value(v),
    ensures
        r is Ok ==> body(final(lines)@, old(lines)@, scope.caller),
        match operand_lines(program, scope.frame(), v, rd) {
            Some(t) => r is Ok && final(lines)@ == old(lines)@ + t,
            None => r is Err,
        },
{
    let ghost caller = scope.caller;
    proof {
        body_trans(lines@, lines@, lines@, caller);
    }
    match program.value_kind(v) {
        ValueKind::Integer(n) => {
            put(lines, Inst::Li(rd, *n), Ghost(caller));
            Ok(())
        },
        ValueKind::FuncArgRef(i) => {
            if *i < 8 {
                put(lines, Inst::Mv(rd, Reg::A(*i as u8)), Ghost(caller));
            } else {
                if scope.total_slots > FRAME_LIMIT || *i - 8 > FRAME_LIMIT - scope.total_slots {
                    return Err(AsmError::FrameTooLarge);
                }
                load_sp(lines, rd, 4 * (scope.total_slots + (*i - 8)), Ghost(caller));
            }
            Ok(())
        },
        kind => match scope.get(&v) {
            None => Err(AsmError::Unplaced),
            Some(Entry::Slot(slot)) => {
                let off = offset_of(*slot)?;
                match kind {
                    ValueKind::Alloc => addr_sp(lines, rd, off, Ghost(caller)),
                    _ => load_sp(lines, rd, off, Ghost(caller)),
                }
                Ok(())
            },
            Some(Entry::Label(label)) => {
                put(lines, Inst::La(rd, label.clone()), Ghost(caller));
                Ok(())
            },
            Some(Entry::Register(_)) => Err(AsmError::Unsupported),
        },
    }
}

/// Stores `rs` in the word of the frame that the value `v` has, as
/// [`result_lines`] has it.
fn store_result(scope: &Scope, v: Val, rs: Reg, lines: &mut Vec<Line>) -> (r: Result<
    (),
    AsmError,
>)
    ensures
        r is Ok ==> body(final(lines)@, old(lines)@, scope.caller),
        match result_lines(scope.frame(), v, rs) {
            Some(t) => r is Ok && final(lines)@ == old(lines)@ + t,
            None => r is Err,
        },
{
    let ghost caller = scope.caller;
    proof {
        body_trans(lines@, lines@, lines@, caller);
    }
    match scope.get(&v) {
        Some(Entry::Slot(slot)) => {
            let off = offset_of(*slot)?;
            store_sp(lines, rs, off, Ghost(caller));
            Ok(())
        },
        Some(_) => Err(AsmError::Unsupported),
        None => Err(AsmError::Unplaced),
    }
}

/// Writes the instructions of a binary operation, as [`binary_lines`] has
/// them.
fn binary_code(op: BinOp, lines: &mut Vec<Line>, Ghost(caller): Ghost<bool>)
    ensures
        body(final(lines)@, old(lines)@, caller),
        final(lines)@ == old(lines)@ + binary_lines(op),
{
    let t0 = Reg::T0;
    let t1 = Reg::T1;
    let ghost l0 = lines@;
    match op {
        BinOp::Add => put(lines, Inst::Op(Alu::Add, t0, t0, t1), Ghost(caller)),
        BinOp::Sub => put(lines, Inst::Op(Alu::Sub, t0, t0, t1), Ghost(caller)),
        BinOp::Mul => put(lines, Inst::Op(Alu::Mul, t0, t0, t1), Ghost(caller)),
        BinOp::Div => put(lines, Inst::Op(Alu::Div, t0, t0, t1), Ghost(caller)),
        BinOp::Mod => put(lines, Inst::Op(Alu::Rem, t0, t0, t1), Ghost(caller)),
        BinOp::And => put(lines, Inst::Op(Alu::And, t0, t0, t1), Ghost(caller)),
        BinOp::Or => put(lines, Inst::Op(Alu::Or, t0, t0, t1), Ghost(caller)),
        BinOp::Lt => put(lines, Inst::Op(Alu::Slt, t0, t0, t1), Ghost(caller)),
        BinOp::Gt => put(lines, Inst::Op(Alu::Sgt, t0, t0, t1), Ghost(caller)),
        BinOp::Eq => {
            put(lines, Inst::Op(Alu::Xor, t0, t0, t1), Ghost(caller));
            let ghost l1 = lines@;
            put(lines, Inst::Seqz(t0, t0), Ghost(caller));
            proof {
                body_trans(lines@, l1, l0, caller);
            }
        },
        BinOp::NotEq => {
            put(lines, Inst::Op(Alu::Xor, t0, t0, t1), Ghost(caller));
            let ghost l1 = lines@;
            put(lines, Inst::Snez(t0, t0), Ghost(caller));
            proof {
                body_trans(lines@, l1, l0, caller);
            }
        },
        BinOp::Le => {
            put(lines, Inst::Op(Alu::Sgt, t0, t0, t1), Ghost(caller));
            let ghost l1 = lines@;
            put(lines, Inst::Seqz(t0, t0), Ghost(caller));
            proof {
                body_trans(lines@, l1, l0, caller);
            }
        },
        BinOp::Ge => {
            put(lines, Inst::Op(Alu::Slt, t0, t0, t1), Ghost(caller));
            let ghost l1 = lines@;
            put(lines, Inst::Seqz(t0, t0), Ghost(caller));
            proof {
                body_trans(lines@, l1, l0, caller);
            }
        },
    }
    proof {
        assert(lines@ =~= l0 + binary_lines(op));
    }
}

/// The code of a step from a pointer by an index, as [`index_lines`] has
/// it: the index times the size of what is stepped over, added to the
/// pointer.
fn index_code(
    program: &Prog,
    scope: &Scope,
    v: Val,
    src: Val,
    index: Val,
    lines: &mut Vec<Line>,
) -> (r: Result<(), AsmError>)
    requires
        program.has_value(v),
        program.has_value(src),
        program.has_value(index),
    ensures
        r is Ok ==> body(final(lines)@, old(lines)@, scope.caller),
        match index_lines(program, scope.frame(), v, src, index) {
            Some(t) => r is Ok && final(lines)@ == old(lines)@ + t,
            None => r is Err,
        },
{
    let ghost caller = scope.caller;
    let ghost f = scope.frame();
    let ghost l0 = lines@;
    proof {
        body_trans(lines@, lines@, lines@, caller);
    }
    let step = match program.value_ty(v) {
        Ty::Pointer(to) => match words(to) {
            Some(n) => n,
            None => {
                return Err(AsmError::FrameTooLarge);
            },
        },
        _ => {
            return Err(AsmError::Unsupported);
        },
    };
    load_operand(program, scope, src, Reg::T0, lines)?;
    let ghost l1 = lines@;
    load_operand(program, scope, index, Reg::T1, lines)?;
    let ghost l2 = lines@;
    put(lines, Inst::Li(Reg::T2, (4 * step) as i32), Ghost(caller));
    let ghost l3 = lines@;
    put(lines, Inst::Op(Alu::Mul, Reg::T1, Reg::T1, Reg::T2), Ghost(caller));
    let ghost l4 = lines@;
    put(lines, Inst::Op(Alu::Add, Reg::T0, Reg::T0, Reg::T1), Ghost(caller));
    let ghost l5 = lines@;
    proof {
        body_trans(l2, l1, l0, caller);
        body_trans(l3, l2, l0, caller);
        body_trans(l4, l3, l0, caller);
        body_trans(l5, l4, l0, caller);
        assert(l5 =~= l2 + step_lines(step));
    }
    store_result(scope, v, Reg::T0, lines)?;
    proof {
        body_trans(lines@, l5, l0, caller);
        let a = operand_lines(program, f, src, Reg::T0)->Some_0;
        let b = operand_lines(program, f, index, Reg::T1)->Some_0;
        let c = result_lines(f, v, Reg::T0)->Some_0;
        assert(lines@ =~= l0 + (a + (b + (step_lines(step) + c))));
    }
    Ok(())
}

/// Hands over the arguments of a call, as [`args_lines`] has it.
fn args_code(program: &Prog, scope: &Scope, args: &Vec<Val>, lines: &mut Vec<Line>) -> (r: Result<
    (),
    AsmError,
>)
    requires
        forall|i: int| 0 <= i < args.len() ==> program.has_value(#[trigger] args[i]),
    ensures
        r is Ok ==> body(final(lines)@, old(lines)@, scope.caller),
        match args_lines(program, scope.frame(), args@, 0) {
            Some(t) => r is Ok && final(lines)@ == old(lines)@ + t,
            None => r is Err,
        },
{
    let ghost caller = scope.caller;
    let ghost f = scope.frame();
    let ghost l0 = lines@;
    let ghost acc = Seq::<Line>::empty();
    proof {
        body_trans(lines@, lines@, lines@, caller);
        assert(l0 + acc =~= l0);
        match args_lines(program, f, args@, 0) {
            Some(t) => {
                assert(acc + t =~= t);
            },
            None => {},
        }
    }
    let mut k: usize = 0;
    while k < args.len()
        invariant
            k <= args.len(),
            caller == scope.caller,
            f == scope.frame(),
            l0 == old(lines)@,
            forall|i: int| 0 <= i < args.len() ==> program.has_value(#[trigger] args[i]),
            body(lines@, l0, caller),
            lines@ == l0 + acc,
            args_lines(program, f, args@, 0) == after(acc, args_lines(program, f, args@, k as int)),
        decreases args.len() - k,
    {
        let ghost before = lines@;
        if k < 8 {
            load_operand(program, scope, args[k], Reg::A(k as u8), lines)?;
            proof {
                body_trans(lines@, before, l0, caller);
                let t = operand_lines(program, f, args@[k as int], Reg::A(k as u8))->Some_0;
                after_after(acc, t, args_lines(program, f, args@, k + 1));
                assert(l0 + acc + t =~= l0 + (acc + t));
                acc = acc + t;
            }
        } else {
            if k > FRAME_LIMIT {
                return Err(AsmError::FrameTooLarge);
            }
            load_operand(program, scope, args[k], Reg::T0, lines)?;
            proof {
                body_trans(lines@, before, l0, caller);
            }
            let ghost mid = lines@;
            store_sp(lines, Reg::T0, 4 * (k - 8), Ghost(caller));
            proof {
                body_trans(lines@, mid, l0, caller);
                let t = operand_lines(program, f, args@[k as int], Reg::T0)->Some_0;
                let u = store_sp_lines(Reg::T0, (4 * (k - 8)) as usize);
                after_after(t, u, args_lines(program, f, args@, k + 1));
                after_after(acc, t + u, args_lines(program, f, args@, k + 1));
                assert(l0 + acc + t + u =~= l0 + (acc + (t + u)));
                acc = acc + (t + u);
            }
        }
        k += 1;
    }
    proof {
        assert(acc + Seq::<Line>::empty() =~= acc);
    }
    Ok(())
}

/// The code of a call, as [`call_lines`] has it: the first eight arguments
/// go to `a0` to `a7`, the others to the lowest words of the frame; the
/// result, if there is one, comes back in `a0`.
fn call_code(
    program: &Prog,
    scope: &Scope,
    v: Val,
    callee: Func,
    args: &Vec<Val>,
    lines: &mut Vec<Line>,
) -> (r: Result<(), AsmError>)
    requires
        program.has_func(callee),
        forall|i: int| 0 <= i < args.len() ==> program.has_value(#[trigger] args[i]),
    ensures
        r is Ok ==> body(final(lines)@, old(lines)@, scope.caller),
        match call_lines(program, scope.frame(), v, callee, args@) {
            Some(t) => r is Ok && final(lines)@ == old(lines)@ + t,
            None => r is Err,
        },
{
    let ghost caller = scope.caller;
    let ghost f = scope.frame();
    let ghost l0 = lines@;
    proof {
        body_trans(lines@, lines@, lines@, caller);
    }
    if !scope.caller() {
        return Err(AsmError::Unsupported);
    }
    args_code(program, scope, args, lines)?;
    let ghost l1 = lines@;
    put(lines, Inst::Call(callee), Ghost(caller));
    let ghost l2 = lines@;
    proof {
        body_trans(l2, l1, l0, caller);
    }
    let ghost a = args_lines(program, f, args@, 0)->Some_0;
    if program.funcs[callee.id].ret_ty.check_unit() {
        proof {
            assert(lines@ =~= l0 + (a + (just(Inst::Call(callee)) + Seq::<Line>::empty())));
        }
        Ok(())
    } else {
        store_result(scope, v, Reg::A(0), lines)?;
        proof {
            body_trans(lines@, l2, l0, caller);
            let c = result_lines(f, v, Reg::A(0))->Some_0;
            assert(lines@ =~= l0 + (a + (just(Inst::Call(callee)) + c)));
        }
        Ok(())
    }
}

/// The code of a load, as [`load_lines`] has it.
fn load_code(program: &Prog, scope: &Scope, v: Val, src: Val, lines: &mut Vec<Line>) -> (r: Result<
    (),
    AsmError,
>)
    requires
        program.has_value(src),
    ensures
        r is Ok ==> body(final(lines)@, old(lines)@, scope.caller),
        match load_lines(program, scope.frame(), v, src) {
            Some(t) => r is Ok && final(lines)@ == old(lines)@ + t,
            None => r is Err,
        },
{
    let ghost caller = scope.caller;
    let ghost f = scope.frame();
    let ghost l0 = lines@;
    load_operand(program, scope, src, Reg::T0, lines)?;
    let ghost l1 = lines@;
    put(lines, Inst::Lw(Reg::T0, Reg::T0), Ghost(caller));
    let ghost l2 = lines@;
    store_result(scope, v, Reg::T0, lines)?;
    proof {
        body_trans(l2, l1, l0, caller);
        body_trans(lines@, l2, l0, caller);
        let a = operand_lines(program, f, src, Reg::T0)->Some_0;
        let c = result_lines(f, v, Reg::T0)->Some_0;
        assert(lines@ =~= l0 + (a + (just(Inst::Lw(Reg::T0, Reg::T0)) + c)));
    }
    Ok(())
}

/// The code of a store, as [`store_lines`] has it.
fn store_code(program: &Prog, scope: &Scope, value: Val, dest: Val, lines: &mut Vec<Line>) -> (r:
    Result<(), AsmError>)
    requires
        program.has_value(value),
        program.has_value(dest),
    ensures
        r is Ok ==> body(final(lines)@, old(lines)@, scope.caller),
        match store_lines(program, scope.frame(), value, dest) {
            Some(t) => r is Ok && final(lines)@ == old(lines)@ + t,
            None => r is Err,
        },
{
    let ghost caller = scope.caller;
    let ghost f = scope.frame();
    let ghost l0 = lines@;
    load_operand(program, scope, value, Reg::T0, lines)?;
    let ghost l1 = lines@;
    load_operand(program, scope, dest, Reg::T1, lines)?;
    let ghost l2 = lines@;
    put(lines, Inst::Sw(Reg::T0, Reg::T1), Ghost(caller));
    proof {
        body_trans(l2, l1, l0, caller);
        body_trans(lines@, l2, l0, caller);
        let a = operand_lines(program, f, value, Reg::T0)->Some_0;
        let b = operand_lines(program, f, dest, Reg::T1)->Some_0;
        assert(lines@ =~= l0 + (a + (b + just(Inst::Sw(Reg::T0, Reg::T1)))));
    }
    Ok(())
}

/// The code of a binary operation, as [`operation_lines`] has it.
fn operation_code(
    program: &Prog,
    scope: &Scope,
    v: Val,
    op: BinOp,
    lhs: Val,
    rhs: Val,
    lines: &mut Vec<Line>,
) -> (r: Result<(), AsmError>)
    requires
        program.has_value(lhs),
        program.has_value(rhs),
    ensures
        r is Ok ==> body(final(lines)@, old(lines)@, scope.caller),
        match operation_lines(program, scope.frame(), v, op, lhs, rhs) {
            Some(t) => r is Ok && final(lines)@ == old(lines)@ + t,
            None => r is Err,
        },
{
    let ghost caller = scope.caller;
    let ghost f = scope.frame();
    let ghost l0 = lines@;
    load_operand(program, scope, lhs, Reg::T0, lines)?;
    let ghost l1 = lines@;
    load_operand(program, scope, rhs, Reg::T1, lines)?;
    let ghost l2 = lines@;
    binary_code(op, lines, Ghost(caller));
    let ghost l3 = lines@;
    store_result(scope, v, Reg::T0, lines)?;
    proof {
        body_trans(l2, l1, l0, caller);
        body_trans(l3, l2, l0, caller);
        body_trans(lines@, l3, l0, caller);
        let a = operand_lines(program, f, lhs, Reg::T0)->Some_0;
        let b = operand_lines(program, f, rhs, Reg::T1)->Some_0;
        let c = result_lines(f, v, Reg::T0)->Some_0;
        assert(lines@ =~= l0 + (a + (b + (binary_lines(op) + c))));
    }
    Ok(())
}

/// The code of a branch, as [`branch_lines`] has it.
fn branch_code(
    program: &Prog,
    scope: &Scope,
    cond: Val,
    on_true: Bb,
    on_false: Bb,
    lines: &mut Vec<Line>,
) -> (r: Result<(), AsmError>)
    requires
        program.has_value(cond),
    ensures
        r is Ok ==> body(final(lines)@, old(lines)@, scope.caller),
        match branch_lines(program, scope.frame(), cond, on_true, on_false) {
            Some(t) => r is Ok && final(lines)@ == old(lines)@ + t,
            None => r is Err,
        },
{
    let ghost caller = scope.caller;
    let ghost f = scope.frame();
    let ghost l0 = lines@;
    load_operand(program, scope, cond, Reg::T0, lines)?;
    let ghost l1 = lines@;
    put(lines, Inst::Bnez(Reg::T0, on_true), Ghost(caller));
    let ghost l2 = lines@;
    put(lines, Inst::J(on_false), Ghost(caller));
    proof {
        body_trans(l2, l1, l0, caller);
        body_trans(lines@, l2, l0, caller);
        let a = operand_lines(program, f, cond, Reg::T0)->Some_0;
        assert(lines@ =~= l0 + (a + seq![
            Line::Inst(Inst::Bnez(Reg::T0, on_true)),
            Line::Inst(Inst::J(on_false)),
        ]));
    }
    Ok(())
}

/// The code of a return, as [`return_lines`] has it.
fn return_code(program: &Prog, scope: &Scope, value: Option<Val>, lines: &mut Vec<Line>) -> (r:
    Result<(), AsmError>)
    requires
        value matches Some(x) ==> program.has_value(x),
    ensures
        r is Ok ==> body(final(lines)@, old(lines)@, scope.caller),
        match return_lines(program, scope.frame(), value) {
            Some(t) => r is Ok && final(lines)@ == old(lines)@ + t,
            None => r is Err,
        },
{
    let ghost caller = scope.caller;
    let ghost f = scope.frame();
    let ghost l0 = lines@;
    proof {
        body_trans(lines@, lines@, lines@, caller);
    }
    match value {
        Some(x) => {
            load_operand(program, scope, x, Reg::A(0), lines)?;
        },
        None => {},
    }
    let ghost l1 = lines@;
    lines.push(Line::Close);
    proof {
        body_trans(lines@, l1, l0, caller);
        match value {
            Some(x) => {
                let a = operand_lines(program, f, x, Reg::A(0))->Some_0;
                assert(lines@ =~= l0 + (a + seq![Line::Close]));
            },
            None => {
                assert(lines@ =~= l0 + seq![Line::Close]);
            },
        }
    }
    Ok(())
}

/// The code of one instruction of the program, as [`inst_lines`] has it.
fn inst_code(program: &Prog, scope: &Scope, v: Val, lines: &mut Vec<Line>) -> (r: Result<
    (),
    AsmError,
>)
    requires
        program.wf(),
        program.has_value(v),
    ensures
        r is Ok ==> body(final(lines)@, old(lines)@, scope.caller),
        match inst_lines(program, scope.frame(), v) {
            Some(t) => r is Ok && final(lines)@ == old(lines)@ + t,
            None => r is Err,
        },
{
    let ghost caller = scope.caller;
    proof {
        body_trans(lines@, lines@, lines@, caller);
        assert(program.data_ok(program.values[v.id as int], v.id as int));
        assert(lines@ + Seq::<Line>::empty() =~= lines@);
    }
    match program.value_kind(v) {
        ValueKind::Integer(_) => Ok(()),
        ValueKind::Alloc => Ok(()),
        ValueKind::Load(src) => load_code(program, scope, v, *src, lines),
        ValueKind::Store(value, dest) => store_code(program, scope, *value, *dest, lines),
        ValueKind::Binary(op, lhs, rhs) => operation_code(program, scope, v, *op, *lhs, *rhs, lines),
        ValueKind::GetElemPtr(src, index) => index_code(program, scope, v, *src, *index, lines),
        ValueKind::GetPtr(src, index) => index_code(program, scope, v, *src, *index, lines),
        ValueKind::Branch(cond, on_true, on_false) => branch_code(
            program,
            scope,
            *cond,
            *on_true,
            *on_false,
            lines,
        ),
        ValueKind::Jump(to) => {
            put(lines, Inst::J(*to), Ghost(caller));
            Ok(())
        },
        ValueKind::Call(callee, args) => {
            proof {
                assert forall|i: int| 0 <= i < args.len() implies program.has_value(
                    #[trigger] args[i],
                ) by {
                    assert(program.operand(program.values[v.id as int].func, args@[i], v.id as int));
                }
            }
            call_code(program, scope, v, *callee, args, lines)
        },
        ValueKind::Return(value) => return_code(program, scope, *value, lines),
        _ => Err(AsmError::Unsupported),
    }
}

/// Looks for calls among the instructions, as [`scan_insts`] has it.
fn scan_calls(program: &Prog, insts: &Vec<Val>, caller: bool, outgoing: usize) -> (r: Result<
    (bool, usize),
    AsmError,
>)
    requires
        outgoing <= FRAME_LIMIT,
        forall|j: int| 0 <= j < insts.len() ==> program.has_value(#[trigger] insts[j]),
    ensures
        match scan_insts(program, insts@, 0, Calls { caller, outgoing }) {
            Some(c) => r == Ok::<(bool, usize), AsmError>((c.caller, c.outgoing)) && c.outgoing
                <= FRAME_LIMIT,
            None => r is Err,
        },
{
    let ghost first = Calls { caller, outgoing };
    let mut found = caller;
    let mut most = outgoing;
    let mut i: usize = 0;
    while i < insts.len()
        invariant
            i <= insts.len(),
            most <= FRAME_LIMIT,
            first == (Calls { caller, outgoing }),
            forall|j: int| 0 <= j < insts.len() ==> program.has_value(#[trigger] insts[j]),
            scan_insts(program, insts@, 0, first) == scan_insts(
                program,
                insts@,
                i as int,
                Calls { caller: found, outgoing: most },
            ),
        decreases insts.len() - i,
    {
        match program.value_kind(insts[i]) {
            ValueKind::Call(_, args) => {
                found = true;
                if args.len() > 8 {
                    let extra = args.len() - 8;
                    if extra > FRAME_LIMIT {
                        return Err(AsmError::FrameTooLarge);
                    }
                    if extra > most {
                        most = extra;
                    }
                }
            },
            _ => {},
        }
        i += 1;
    }
    Ok((found, most))
}

/// Looks for calls in the blocks, as [`scan_blocks`] has it.
fn scan_all(program: &Prog, blocks: &Vec<Emitted>, Ghost(bbs): Ghost<Seq<Bb>>) -> (r: Result<
    (bool, usize),
    AsmError,
>)
    requires
        bbs.len() == blocks.len(),
        forall|b: int|
            0 <= b < blocks.len() ==> (#[trigger] blocks[b]).insts@ == block_insts(program, bbs[b]),
        forall|b: int|
            0 <= b < blocks.len() ==> forall|i: int|
                0 <= i < (#[trigger] blocks[b]).insts.len() ==> program.has_value(
                    blocks[b].insts[i],
                ),
    ensures
        match scan_blocks(program, bbs, 0, Calls { caller: false, outgoing: 0 }) {
            Some(c) => r == Ok::<(bool, usize), AsmError>((c.caller, c.outgoing)) && c.outgoing
                <= FRAME_LIMIT,
            None => r is Err,
        },
{
    let mut caller = false;
    let mut outgoing: usize = 0;
    let ghost first = Calls { caller: false, outgoing: 0 };
    let mut b: usize = 0;
    while b < blocks.len()
        invariant
            b <= blocks.len(),
            first == (Calls { caller: false, outgoing: 0 }),
            bbs.len() == blocks.len(),
            outgoing <= FRAME_LIMIT,
            forall|b: int|
                0 <= b < blocks.len() ==> (#[trigger] blocks[b]).insts@ == block_insts(
                    program,
                    bbs[b],
                ),
            forall|b: int|
                0 <= b < blocks.len() ==> forall|i: int|
                    0 <= i < (#[trigger] blocks[b]).insts.len() ==> program.has_value(
                        blocks[b].insts[i],
                    ),
            scan_blocks(program, bbs, 0, first) == scan_blocks(
                program,
                bbs,
                b as int,
                Calls { caller, outgoing },
            ),
        decreases blocks.len() - b,
    {
        proof {
            assert(blocks[b as int].insts@ == block_insts(program, bbs[b as int]));
            let cur = Calls { caller, outgoing };
            assert(scan_blocks(program, bbs, b as int, cur) == match scan_insts(
                program,
                block_insts(program, bbs[b as int]),
                0,
                cur,
            ) {
                Some(d) => scan_blocks(program, bbs, b + 1, d),
                None => None,
            });
        }
        let (c, o) = scan_calls(program, &blocks[b].insts, caller, outgoing)?;
        caller = c;
        outgoing = o;
        b += 1;
    }
    Ok((caller, outgoing))
}

/// Gives the values their words, as [`place_insts`] has it.
fn place_values(program: &Prog, insts: &Vec<Val>, scope: &mut Scope) -> (r: Result<(), AsmError>)
    requires
        program.wf(),
        old(scope).used_slots <= FRAME_LIMIT,
        forall|j: int| 0 <= j < insts.len() ==> program.has_value(#[trigger] insts[j]),
    ensures
        final(scope).label == old(scope).label,
        final(scope).caller == old(scope).caller,
        final(scope).total_slots == old(scope).total_slots,
        match place_insts(
            program,
            insts@,
            0,
            Slots { places: old(scope).values@, used: old(scope).used_slots },
        ) {
            Some(s) => r is Ok && final(scope).values@ == s.places && final(scope).used_slots
                == s.used && s.used <= FRAME_LIMIT,
            None => r is Err,
        },
{
    let ghost first = Slots { places: scope.values@, used: scope.used_slots };
    let mut i: usize = 0;
    while i < insts.len()
        invariant
            i <= insts.len(),
            program.wf(),
            scope.used_slots <= FRAME_LIMIT,
            scope.label == old(scope).label,
            scope.caller == old(scope).caller,
            scope.total_slots == old(scope).total_slots,
            first == (Slots { places: old(scope).values@, used: old(scope).used_slots }),
            forall|j: int| 0 <= j < insts.len() ==> program.has_value(#[trigger] insts[j]),
            place_insts(program, insts@, 0, first) == place_insts(
                program,
                insts@,
                i as int,
                Slots { places: scope.values@, used: scope.used_slots },
            ),
        decreases insts.len() - i,
    {
        let v = insts[i];
        let need: usize = match program.value_kind(v) {
            ValueKind::Alloc => match program.value_ty(v) {
                Ty::Pointer(to) => match words(to) {
                    Some(n) => n,
                    None => {
                        return Err(AsmError::FrameTooLarge);
                    },
                },
                _ => {
                    return Err(AsmError::Unsupported);
                },
            },
            ValueKind::Load(_) => 1,
            ValueKind::Binary(_, _, _) => 1,
            ValueKind::GetElemPtr(_, _) => 1,
            ValueKind::GetPtr(_, _) => 1,
            ValueKind::Call(_, _) => if program.value_ty(v).check_unit() {
                0
            } else {
                1
            },
            _ => 0,
        };
        if need > 0 {
            if need > FRAME_LIMIT - scope.used_slots {
                return Err(AsmError::FrameTooLarge);
            }
            let slot = scope.new_slots(need);
            scope.new_value(v, Entry::Slot(slot));
        }
        i += 1;
    }
    Ok(())
}

/// Gives the values of the blocks their words, as [`place_blocks`] has it.
fn place_all(
    program: &Prog,
    blocks: &Vec<Emitted>,
    scope: &mut Scope,
    Ghost(bbs): Ghost<Seq<Bb>>,
) -> (r: Result<(), AsmError>)
    requires
        program.wf(),
        old(scope).used_slots <= FRAME_LIMIT,
        bbs.len() == blocks.len(),
        forall|b: int|
            0 <= b < blocks.len() ==> (#[trigger] blocks[b]).insts@ == block_insts(program, bbs[b]),
        forall|b: int|
            0 <= b < blocks.len() ==> forall|i: int|
                0 <= i < (#[trigger] blocks[b]).insts.len() ==> program.has_value(
                    blocks[b].insts[i],
                ),
    ensures
        final(scope).label == old(scope).label,
        final(scope).caller == old(scope).caller,
        final(scope).total_slots == old(scope).total_slots,
        match place_blocks(
            program,
            bbs,
            0,
            Slots { places: old(scope).values@, used: old(scope).used_slots },
        ) {
            Some(s) => r is Ok && final(scope).values@ == s.places && final(scope).used_slots
                == s.used && s.used <= FRAME_LIMIT,
            None => r is Err,
        },
{
    let ghost first = Slots { places: scope.values@, used: scope.used_slots };
    let mut b: usize = 0;
    while b < blocks.len()
        invariant
            b <= blocks.len(),
            program.wf(),
            bbs.len() == blocks.len(),
            scope.used_slots <= FRAME_LIMIT,
            scope.label == old(scope).label,
            scope.caller == old(scope).caller,
            scope.total_slots == old(scope).total_slots,
            first == (Slots { places: old(scope).values@, used: old(scope).used_slots }),
            forall|b: int|
                0 <= b < blocks.len() ==> (#[trigger] blocks[b]).insts@ == block_insts(
                    program,
                    bbs[b],
                ),
            forall|b: int|
                0 <= b < blocks.len() ==> forall|i: int|
                    0 <= i < (#[trigger] blocks[b]).insts.len() ==> program.has_value(
                        blocks[b].insts[i],
                    ),
            place_blocks(program, bbs, 0, first) == place_blocks(
                program,
                bbs,
                b as int,
                Slots { places: scope.values@, used: scope.used_slots },
            ),
        decreases blocks.len() - b,
    {
        proof {
            assert(blocks[b as int].insts@ == block_insts(program, bbs[b as int]));
            let cur = Slots { places: scope.values@, used: scope.used_slots };
            assert(place_blocks(program, bbs, b as int, cur) == match place_insts(
                program,
                block_insts(program, bbs[b as int]),
                0,
                cur,
            ) {
                Some(t) => place_blocks(program, bbs, b + 1, t),
                None => None,
            });
        }
        place_values(program, &blocks[b].insts, scope)?;
        b += 1;
    }
    Ok(())
}

/// Lays out the frame of a function, as [`layout`] has it: every value that
/// the written blocks compute gets its words of the frame, above the words
/// for outgoing arguments, and the frame is sized.
fn lay_out(
    program: &Prog,
    func: Func,
    blocks: &Vec<Emitted>,
    scope: &mut Scope,
    Ghost(bbs): Ghost<Seq<Bb>>,
) -> (r: Result<(), AsmError>)
    requires
        program.wf(),
        program.has_func(func),
        bbs == written(
            program,
            program.funcs[func.id as int].bbs@,
            program.funcs[func.id as int].bbs.len() as int,
        ),
        bbs.len() == blocks.len(),
        forall|b: int|
            0 <= b < blocks.len() ==> (#[trigger] blocks[b]).insts@ == block_insts(program, bbs[b]),
        forall|b: int|
            0 <= b < blocks.len() ==> forall|i: int|
                0 <= i < (#[trigger] blocks[b]).insts.len() ==> program.has_value(
                    blocks[b].insts[i],
                ),
    ensures
        r is Ok ==> {
            &&& final(scope).total_slots <= FRAME_LIMIT
            &&& final(scope).caller ==> final(scope).total_slots >= 1
        },
        final(scope).label == old(scope).label,
        match layout(program, func, old(scope).values@) {
            Some(f) => r is Ok && final(scope).frame() == f,
            None => r is Err,
        },
{
    let (caller, outgoing) = scan_all(program, blocks, Ghost(bbs))?;
    scope.set_caller(caller);
    scope.set_used_slots(outgoing);
    place_all(program, blocks, scope, Ghost(bbs))?;
    let total = if caller {
        if scope.used_slots == FRAME_LIMIT {
            return Err(AsmError::FrameTooLarge);
        }
        scope.used_slots + 1
    } else {
        scope.used_slots
    };
    scope.set_total_slots(total);
    Ok(())
}

/// The code of one block, as [`block_lines`] has it.
fn block_code(program: &Prog, scope: &Scope, block: &Emitted, lines: &mut Vec<Line>) -> (r: Result<
    (),
    AsmError,
>)
    requires
        program.wf(),
        block.faithful(program),
        forall|i: int| 0 <= i < block.insts.len() ==> program.has_value(#[trigger] block.insts[i]),
    ensures
        r is Ok ==> body(final(lines)@, old(lines)@, scope.caller),
        match block_lines(program, scope.frame(), block.bb) {
            Some(t) => r is Ok && final(lines)@ == old(lines)@ + t,
            None => r is Err,
        },
{
    let ghost caller = scope.caller;
    let ghost f = scope.frame();
    let ghost l0 = lines@;
    let ghost insts = block.insts@;
    put(lines, Inst::Label(block.bb), Ghost(caller));
    let ghost l1 = lines@;
    let ghost acc = Seq::<Line>::empty();
    proof {
        assert(l1 + acc =~= l1);
        match insts_lines(program, f, insts, 0) {
            Some(t) => {
                assert(acc + t =~= t);
            },
            None => {},
        }
    }
    let mut i: usize = 0;
    while i < block.insts.len()
        invariant
            i <= block.insts.len(),
            program.wf(),
            caller == scope.caller,
            f == scope.frame(),
            insts == block.insts@,
            block.faithful(program),
            l0 == old(lines)@,
            l1 == l0 + just(Inst::Label(block.bb)),
            body(lines@, l0, caller),
            lines@ == l1 + acc,
            insts_lines(program, f, insts, 0) == after(
                acc,
                insts_lines(program, f, insts, i as int),
            ),
            forall|i: int| 0 <= i < block.insts.len() ==> program.has_value(#[trigger] block.insts[i]),
        decreases block.insts.len() - i,
    {
        let ghost before = lines@;
        proof {
            assert(insts_lines(program, f, insts, i as int) == both(
                inst_lines(program, f, insts[i as int]),
                insts_lines(program, f, insts, i + 1),
            ));
        }
        inst_code(program, scope, block.insts[i], lines)?;
        proof {
            body_trans(lines@, before, l0, caller);
            let t = inst_lines(program, f, insts[i as int])->Some_0;
            after_after(acc, t, insts_lines(program, f, insts, i + 1));
            assert(l1 + acc + t =~= l1 + (acc + t));
            acc = acc + t;
        }
        i += 1;
    }
    if !block.closed {
        let ghost before = lines@;
        lines.push(Line::Close);
        proof {
            body_trans(lines@, before, l0, caller);
        }
    }
    proof {
        assert(acc + Seq::<Line>::empty() =~= acc);
        let t = block_lines(program, f, block.bb)->Some_0;
        assert(lines@ =~= l0 + t);
    }
    Ok(())
}

/// The lines of the function `func`, which has a body, as [`lowered`] has
/// them, with its frame.
pub fn lower_function(program: &Prog, func: Func, scope: &mut Scope) -> (r: Result<
    Vec<Line>,
    AsmError,
>)
    requires
        program.wf(),
        program.has_func(func),
    ensures
        match lowered(program, func, old(scope).values@) {
            Some((f, t)) => r matches Ok(lines) && lines@ == t && final(scope).frame() == f,
            None => r is Err,
        },
        r matches Ok(lines) ==> {
            &&& framed(lines@, final(scope).caller)
            &&& final(scope).total_slots <= FRAME_LIMIT
            &&& final(scope).caller ==> final(scope).total_slots >= 1
        },
        final(scope).label == old(scope).label,
{
    let blocks = plan(program, func);
    let ghost bbs = written(
        program,
        program.funcs[func.id as int].bbs@,
        program.funcs[func.id as int].bbs.len() as int,
    );
    proof {
        assert forall|b: int| 0 <= b < blocks.len() implies forall|i: int|
            0 <= i < (#[trigger] blocks[b]).insts.len() ==> program.has_value(
                blocks[b].insts[i],
            ) by {
            crate::ir::translate::plan_values_exist(program, &blocks[b]);
        }
        assert(blocks@.map_values(|e: Emitted| e.bb).len() == blocks.len());
        assert forall|b: int| 0 <= b < blocks.len() implies (#[trigger] blocks[b]).insts@
            == block_insts(program, bbs[b]) by {
            assert(blocks@.map_values(|e: Emitted| e.bb)[b] == blocks[b].bb);
            assert(blocks[b].faithful(program));
        }
    }
    scope.set_cur_func(Some(func));
    lay_out(program, func, &blocks, scope, Ghost(bbs))?;
    let ghost f = scope.frame();
    let mut lines: Vec<Line> = Vec::new();
    lines.push(Line::Open);
    let ghost l0 = lines@;
    let ghost caller = scope.caller;
    let ghost acc = Seq::<Line>::empty();
    proof {
        body_trans(l0, l0, l0, caller);
        assert(l0 + acc =~= l0);
        match blocks_lines(program, f, bbs, 0) {
            Some(t) => {
                assert(acc + t =~= t);
            },
            None => {},
        }
    }
    let mut b: usize = 0;
    while b < blocks.len()
        invariant
            b <= blocks.len(),
            program.wf(),
            program.has_func(func),
            caller == scope.caller,
            f == scope.frame(),
            f == layout(program, func, old(scope).values@)->Some_0,
            layout(program, func, old(scope).values@) is Some,
            scope.total_slots <= FRAME_LIMIT,
            scope.caller ==> scope.total_slots >= 1,
            scope.label == old(scope).label,
            l0 =~= seq![Line::Open],
            body(lines@, l0, caller),
            bbs == written(
                program,
                program.funcs[func.id as int].bbs@,
                program.funcs[func.id as int].bbs.len() as int,
            ),
            bbs.len() == blocks.len(),
            lines@ == l0 + acc,
            blocks_lines(program, f, bbs, 0) == after(acc, blocks_lines(program, f, bbs, b as int)),
            forall|b: int|
                0 <= b < blocks.len() ==> (#[trigger] blocks[b]).faithful(program) && blocks[b].bb
                    == bbs[b],
            forall|b: int|
                0 <= b < blocks.len() ==> forall|i: int|
                    0 <= i < (#[trigger] blocks[b]).insts.len() ==> program.has_value(
                        blocks[b].insts[i],
                    ),
        decreases blocks.len() - b,
    {
        let block = &blocks[b];
        let ghost before = lines@;
        proof {
            assert(blocks[b as int].faithful(program) && blocks[b as int].bb == bbs[b as int]);
        }
        proof {
            assert(blocks_lines(program, f, bbs, b as int) == both(
                block_lines(program, f, bbs[b as int]),
                blocks_lines(program, f, bbs, b + 1),
            ));
        }
        block_code(program, scope, block, &mut lines)?;
        proof {
            body_trans(lines@, before, l0, caller);
            let t = block_lines(program, f, bbs[b as int])->Some_0;
            after_after(acc, t, blocks_lines(program, f, bbs, b + 1));
            assert(l0 + acc + t =~= l0 + (acc + t));
            acc = acc + t;
        }
        b += 1;
    }
    proof {
        assert(lines@[0] == l0[0]);
        assert(acc + Seq::<Line>::empty() =~= acc);
    }
    Ok(lines)
}

/// The text of the lines of a function with the given name and frame.
pub open spec fn lines_text(
    program: &Prog,
    lines: Seq<Line>,
    name: Seq<char>,
    total: nat,
    caller: bool,
) -> Seq<char>
    decreases lines.len(),
{
    if lines.len() == 0 {
        Seq::empty()
    } else {
        lines_text(program, lines.drop_last(), name, total, caller) + match lines.last() {
            Line::Open => prologue_text(name, total, caller),
            Line::Close => epilogue_text(total, caller),
            Line::Inst(inst) => inst.text(program),
        }
    }
}

/// Writes the lines of a function.
pub fn write_lines(program: &Prog, lines: &Vec<Line>, name: &str, scope: &Scope, w: &mut Writer)
    requires
        scope.total_slots <= FRAME_LIMIT,
        scope.caller ==> scope.total_slots >= 1,
    ensures
        final(w).text@ == old(w).text@ + lines_text(
            program,
            lines@,
            name@,
            scope.total_slots as nat,
            scope.caller,
        ),
{
    let ghost total = scope.total_slots;
    let ghost caller = scope.caller;
    let mut k: usize = 0;
    proof {
        assert(lines@.take(0).len() == 0);
    }
    while k < lines.len()
        invariant
            k <= lines.len(),
            total == scope.total_slots,
            caller == scope.caller,
            total <= FRAME_LIMIT,
            caller ==> total >= 1,
            w.text@ == old(w).text@ + lines_text(
                program,
                lines@.take(k as int),
                name@,
                total as nat,
                caller,
            ),
        decreases lines.len() - k,
    {
        proof {
            let next = lines@.take(k + 1);
            assert(next.drop_last() =~= lines@.take(k as int));
            assert(next.last() == lines@[k as int]);
        }
        let ghost before = w.text@;
        match &lines[k] {
            Line::Open => w.prologue(name, scope),
            Line::Close => w.epilogue(scope),
            Line::Inst(inst) => inst.write(program, &mut w.text),
        }
        proof {
            assert(w.text@ =~= old(w).text@ + lines_text(
                program,
                lines@.take(k + 1),
                name@,
                total as nat,
                caller,
            ));
        }
        k += 1;
    }
    proof {
        assert(lines@.take(k as int) =~= lines@);
    }
}

/// The global data of an allocation with the initializer `init`, under the
/// given label: one `.zero` for an initializer noted as all zero, its
/// elements otherwise.
pub open spec fn global_text(program: &Prog, info: &Info, init: Val, label: Seq<char>) -> Seq<
    char,
> {
    "  .globl "@ + label + "\n"@ + label + ":\n"@ + match info.zero_dims(init) {
        Some(dims) => "  .zero "@ + decimal(4 * product(dims)) + "\n"@,
        None => data_text(program, init),
    }
}

/// An initializer noted as all zero is written as one `.zero` of four times
/// the number of its elements; any other as its words.
pub proof fn size_encoding(program: &Prog, info: &Info, init: Val, label: Seq<char>)
    ensures
        info.zero_dims(init) matches Some(dims) ==> global_text(program, info, init, label)
            == "  .globl "@ + label + "\n"@ + label + ":\n"@ + ("  .zero "@ + decimal(
            4 * product(dims),
        ) + "\n"@),
        info.zero_dims(init) is None ==> global_text(program, info, init, label) == "  .globl "@
            + label + "\n"@ + label + ":\n"@ + data_text(program, init),
{
}

/// Whether the data of an allocation with the initializer `init` can be
/// written: an initializer noted as all zero must have dimensions that a
/// frame could hold, any other must be an integer, a zero, or an aggregate
/// of such.
pub open spec fn global_fits(program: &Prog, info: &Info, init: Val) -> bool {
    match info.zero_dims(init) {
        Some(dims) => crate::mem::init::dims_ok(dims) && product(dims) <= FRAME_LIMIT,
        None => data_ok(program, init),
    }
}

/// Writes the global data of the allocation `v` with the initializer
/// `init`, and settles that `v` lives under its label.
pub fn write_global(
    program: &Prog,
    info: &Info,
    v: Val,
    init: Val,
    scope: &mut Scope,
    w: &mut Writer,
) -> (r: Result<(), AsmError>)
    requires
        program.has_value(init),
    ensures
        old(w).text@.is_prefix_of(final(w).text@),
        r is Ok ==> {
            &&& old(scope).label.var < usize::MAX
            &&& final(w).text@ == old(w).text@ + global_text(
                program,
                info,
                init,
                "var_"@ + decimal(old(scope).label.var as nat),
            )
            &&& final(scope).place(v) matches Some(Entry::Label(l)) && l@ == "var_"@ + decimal(
                old(scope).label.var as nat,
            )
            &&& info.zero_dims(init) is None ==> data_ok(program, init)
            &&& final(scope).label.var == old(scope).label.var + 1
            &&& final(scope).place(v) matches Some(e) && final(scope).values@ == old(
                scope,
            ).values@.insert(v.id, e)
        },
        r is Ok <==> old(scope).label.var < usize::MAX && global_fits(program, info, init),
{
    if scope.label.var == usize::MAX {
        return Err(AsmError::TooManyNames);
    }
    let label = scope.label_mut().var();
    w.text.append("  .globl ");
    w.text.append(label.as_str());
    w.text.append("\n");
    w.text.append(label.as_str());
    w.text.append(":\n");
    let ghost head = w.text@;
    match info.array_info(init) {
        Some(dims) => {
            let size = match suffix_products(dims) {
                Some(sizes) => {
                    proof {
                        assert(dims@.skip(0) =~= dims@);
                    }
                    sizes[0]
                },
                None => {
                    return Err(AsmError::FrameTooLarge);
                },
            };
            if size > FRAME_LIMIT {
                return Err(AsmError::FrameTooLarge);
            }
            w.text.append("  .zero ");
            w.text.append(decimal_string(4 * (size as u64)).as_str());
            w.text.append("\n");
        },
        None => {
            if !w.aggregate(program, init) {
                return Err(AsmError::Unsupported);
            }
        },
    }
    proof {
        assert(w.text@ =~= old(w).text@ + global_text(
            program,
            info,
            init,
            "var_"@ + decimal(old(scope).label.var as nat),
        ));
    }
    scope.new_value(v, Entry::Label(label));
    Ok(())
}

} // verus!

//! The lines of every function keep its frame in order.

use vstd::prelude::*;
use crate::ir::translate::written;
use crate::program::entities::{Bb, Func, Prog, Val, ValueKind};
use crate::riscv::code::{
    after,
    args_lines,
    block_insts,
    block_lines,
    blocks_lines,
    both,
    call_lines,
    function_lines,
    index_lines,
    inst_lines,
    insts_lines,
    layout,
    lowered,
    operand_lines,
    place_blocks,
    place_insts,
    result_lines,
    scan_blocks,
    scan_insts,
    Calls,
    Code,
    Frame,
    Slots,
};
use crate::riscv::inst::{framed, Inst, Line, Reg};
use crate::riscv::lower::FRAME_LIMIT;
use crate::riscv::scope::Entry;

verus! {

/// Lines of the inside of a function: none opens a frame, and none is a
/// call unless the function is a caller.
pub open spec fn inner(t: Seq<Line>, caller: bool) -> bool {
    forall|i: int|
        0 <= i < t.len() ==> {
            &&& !((#[trigger] t[i]) is Open)
            &&& caller || !(t[i] matches Line::Inst(Inst::Call(_)))
        }
}

/// The code, where there is any, is of the inside of a function.
pub open spec fn inner_code(c: Code, caller: bool) -> bool {
    c matches Some(t) ==> inner(t, caller)
}

proof fn inner_after(acc: Seq<Line>, rest: Code, caller: bool)
    requires
        inner(acc, caller),
        inner_code(rest, caller),
    ensures
        inner_code(after(acc, rest), caller),
{
}

proof fn inner_both(first: Code, then: Code, caller: bool)
    requires
        inner_code(first, caller),
        inner_code(then, caller),
    ensures
        inner_code(both(first, then), caller),
{
}

proof fn inner_operand(program: &Prog, f: Frame, v: Val, rd: Reg, caller: bool)
    ensures
        inner_code(operand_lines(program, f, v, rd), caller),
{
}

proof fn inner_result(f: Frame, v: Val, rs: Reg, caller: bool)
    ensures
        inner_code(result_lines(f, v, rs), caller),
{
}

proof fn inner_args(program: &Prog, f: Frame, args: Seq<Val>, from: int, caller: bool)
    ensures
        inner_code(args_lines(program, f, args, from), caller),
    decreases args.len() - from,
{
    if 0 <= from < args.len() {
        inner_args(program, f, args, from + 1, caller);
        if from < 8 {
            inner_operand(program, f, args[from], Reg::A(from as u8), caller);
            inner_both(
                operand_lines(program, f, args[from], Reg::A(from as u8)),
                args_lines(program, f, args, from + 1),
                caller,
            );
        } else if from <= FRAME_LIMIT {
            inner_operand(program, f, args[from], Reg::T0, caller);
        }
    }
}

proof fn inner_index(program: &Prog, f: Frame, v: Val, src: Val, index: Val, caller: bool)
    ensures
        inner_code(index_lines(program, f, v, src, index), caller),
{
    inner_operand(program, f, src, Reg::T0, caller);
    inner_operand(program, f, index, Reg::T1, caller);
    inner_result(f, v, Reg::T0, caller);
}

proof fn inner_call(program: &Prog, f: Frame, v: Val, callee: Func, args: Seq<Val>)
    ensures
        inner_code(call_lines(program, f, v, callee, args), f.caller),
{
    inner_args(program, f, args, 0, f.caller);
    inner_result(f, v, Reg::A(0), f.caller);
}

proof fn inner_inst(program: &Prog, f: Frame, v: Val)
    ensures
        inner_code(inst_lines(program, f, v), f.caller),
{
    let c = f.caller;
    match program.kind(v) {
        ValueKind::Load(src) => {
            inner_operand(program, f, src, Reg::T0, c);
            inner_result(f, v, Reg::T0, c);
        },
        ValueKind::Store(value, dest) => {
            inner_operand(program, f, value, Reg::T0, c);
            inner_operand(program, f, dest, Reg::T1, c);
        },
        ValueKind::Binary(op, lhs, rhs) => {
            inner_operand(program, f, lhs, Reg::T0, c);
            inner_operand(program, f, rhs, Reg::T1, c);
            inner_result(f, v, Reg::T0, c);
        },
        ValueKind::GetElemPtr(src, index) => {
            inner_index(program, f, v, src, index, c);
        },
        ValueKind::GetPtr(src, index) => {
            inner_index(program, f, v, src, index, c);
        },
        ValueKind::Branch(cond, _, _) => {
            inner_operand(program, f, cond, Reg::T0, c);
        },
        ValueKind::Call(callee, args) => {
            inner_call(program, f, v, callee, args@);
        },
        ValueKind::Return(value) => {
            if let Some(x) = value {
                inner_operand(program, f, x, Reg::A(0), c);
            }
        },
        _ => {},
    }
}

proof fn inner_insts(program: &Prog, f: Frame, insts: Seq<Val>, from: int)
    ensures
        inner_code(insts_lines(program, f, insts, from), f.caller),
    decreases insts.len() - from,
{
    if 0 <= from < insts.len() {
        inner_inst(program, f, insts[from]);
        inner_insts(program, f, insts, from + 1);
        inner_both(
            inst_lines(program, f, insts[from]),
            insts_lines(program, f, insts, from + 1),
            f.caller,
        );
    }
}

proof fn inner_block(program: &Prog, f: Frame, bb: Bb)
    ensures
        inner_code(block_lines(program, f, bb), f.caller),
{
    inner_insts(program, f, block_insts(program, bb), 0);
}

proof fn inner_blocks(program: &Prog, f: Frame, bbs: Seq<Bb>, from: int)
    ensures
        inner_code(blocks_lines(program, f, bbs, from), f.caller),
    decreases bbs.len() - from,
{
    if 0 <= from < bbs.len() {
        inner_block(program, f, bbs[from]);
        inner_blocks(program, f, bbs, from + 1);
        inner_both(
            block_lines(program, f, bbs[from]),
            blocks_lines(program, f, bbs, from + 1),
            f.caller,
        );
    }
}

proof fn scan_insts_bound(program: &Prog, insts: Seq<Val>, from: int, c: Calls)
    requires
        c.outgoing <= FRAME_LIMIT,
    ensures
        scan_insts(program, insts, from, c) matches Some(d) ==> d.outgoing <= FRAME_LIMIT,
    decreases insts.len() - from,
{
    if 0 <= from < insts.len() {
        match program.kind(insts[from]) {
            ValueKind::Call(_, args) => {
                if args.len() > 8 {
                    if args.len() - 8 <= FRAME_LIMIT {
                        scan_insts_bound(
                            program,
                            insts,
                            from + 1,
                            Calls {
                                caller: true,
                                outgoing: if args.len() - 8 > c.outgoing {
                                    (args.len() - 8) as usize
                                } else {
                                    c.outgoing
                                },
                            },
                        );
                    }
                } else {
                    scan_insts_bound(
                        program,
                        insts,
                        from + 1,
                        Calls { caller: true, outgoing: c.outgoing },
                    );
                }
            },
            _ => {
                scan_insts_bound(program, insts, from + 1, c);
            },
        }
    }
}

proof fn scan_blocks_bound(program: &Prog, bbs: Seq<Bb>, from: int, c: Calls)
    requires
        c.outgoing <= FRAME_LIMIT,
    ensures
        scan_blocks(program, bbs, from, c) matches Some(d) ==> d.outgoing <= FRAME_LIMIT,
    decreases bbs.len() - from,
{
    if 0 <= from < bbs.len() {
        scan_insts_bound(program, block_insts(program, bbs[from]), 0, c);
        if let Some(d) = scan_insts(program, block_insts(program, bbs[from]), 0, c) {
            scan_blocks_bound(program, bbs, from + 1, d);
        }
    }
}

proof fn place_insts_bound(program: &Prog, insts: Seq<Val>, from: int, s: Slots)
    requires
        s.used <= FRAME_LIMIT,
    ensures
        place_insts(program, insts, from, s) matches Some(t) ==> t.used <= FRAME_LIMIT,
    decreases insts.len() - from,
{
    if 0 <= from < insts.len() {
        if let Some(n) = crate::riscv::code::need(program, insts[from]) {
            if n == 0 {
                place_insts_bound(program, insts, from + 1, s);
            } else if n <= FRAME_LIMIT - s.used {
                place_insts_bound(
                    program,
                    insts,
                    from + 1,
                    Slots {
                        places: s.places.insert(insts[from].id, Entry::Slot(s.used)),
                        used: (s.used + n) as usize,
                    },
                );
            }
        }
    }
}

proof fn place_blocks_bound(program: &Prog, bbs: Seq<Bb>, from: int, s: Slots)
    requires
        s.used <= FRAME_LIMIT,
    ensures
        place_blocks(program, bbs, from, s) matches Some(t) ==> t.used <= FRAME_LIMIT,
    decreases bbs.len() - from,
{
    if 0 <= from < bbs.len() {
        place_insts_bound(program, block_insts(program, bbs[from]), 0, s);
        if let Some(t) = place_insts(program, block_insts(program, bbs[from]), 0, s) {
            place_blocks_bound(program, bbs, from + 1, t);
        }
    }
}

/// Whatever the program, the function and the places of the globals: where
/// the function has lines, they open its frame first and only once, they
/// hold a call only if the frame keeps `ra`, the frame is no larger than a
/// frame may be, and one that keeps `ra` has a word for it.
pub proof fn frame_in_order(program: &Prog, func: Func, places: Map<usize, Entry>)
    ensures
        lowered(program, func, places) matches Some((f, t)) ==> {
            &&& framed(t, f.caller)
            &&& f.total <= FRAME_LIMIT
            &&& f.caller ==> f.total >= 1
        },
{
    let fd = program.funcs[func.id as int];
    let bbs = written(program, fd.bbs@, fd.bbs.len() as int);
    if let Some((f, t)) = lowered(program, func, places) {
        assert(layout(program, func, places) == Some(f));
        assert(function_lines(program, f, func) == Some(t));
        let start = Calls { caller: false, outgoing: 0 };
        scan_blocks_bound(program, bbs, 0, start);
        let c = scan_blocks(program, bbs, 0, start)->Some_0;
        place_blocks_bound(program, bbs, 0, Slots { places, used: c.outgoing });
        inner_blocks(program, f, bbs, 0);
        let rest = blocks_lines(program, f, bbs, 0)->Some_0;
        assert(t == seq![Line::Open] + rest);
        assert(inner(rest, f.caller));
        assert forall|i: int| 1 <= i < t.len() implies !((#[trigger] t[i]) is Open) by {
            assert(t[i] == rest[i - 1]);
        }
        if !f.caller {
            assert forall|i: int| 0 <= i < t.len() implies !((#[trigger] t[i]) matches Line::Inst(
                Inst::Call(_),
            )) by {
                if i >= 1 {
                    assert(t[i] == rest[i - 1]);
                }
            }
        }
    }
}

} // verus!

//! The lines of a function, as a function of the program and of where each
//! value lives.

use vstd::prelude::*;
use crate::ir::translate::{cut, written};
use crate::program::entities::{Bb, BinOp, Func, Prog, Val, ValueKind};
use crate::program::types::Ty;
use crate::riscv::inst::{Alu, Inst, Line, Reg};
use crate::riscv::lower::{size_of, FRAME_LIMIT};
use crate::riscv::scope::{Entry, Scope};

verus! {

/// What the code of a function depends on besides the program: where each
/// value lives, the size of the frame in words, and whether the function
/// makes calls.
pub struct Frame {
    pub places: Map<usize, Entry>,
    pub total: usize,
    pub caller: bool,
}

impl Frame {
    /// Where the value lives, if it has a place.
    pub open spec fn place(&self, v: Val) -> Option<Entry> {
        if self.places.contains_key(v.id) {
            Some(self.places[v.id])
        } else {
            None
        }
    }
}

impl Scope {
    /// The frame that the scope describes.
    pub open spec fn frame(&self) -> Frame {
        Frame { places: self.values@, total: self.total_slots, caller: self.caller }
    }
}

/// Lines of code; None where there is no code for what is asked.
pub type Code = Option<Seq<Line>>;

/// The lines `acc`, then what `rest` gives.
pub open spec fn after(acc: Seq<Line>, rest: Code) -> Code {
    match rest {
        Some(t) => Some(acc + t),
        None => None,
    }
}

/// One after the other.
pub open spec fn both(first: Code, then: Code) -> Code {
    match first {
        Some(t) => after(t, then),
        None => None,
    }
}

/// The one instruction.
pub open spec fn just(inst: Inst) -> Seq<Line> {
    seq![Line::Inst(inst)]
}

/// Loads the word at `off` bytes above `sp`: in one instruction below
/// 2048, by way of `t6` from there on.
pub open spec fn load_sp_lines(rd: Reg, off: usize) -> Seq<Line> {
    if off < 2048 {
        just(Inst::LwSp(rd, off))
    } else {
        seq![
            Line::Inst(Inst::Li(Reg::T6, off as i32)),
            Line::Inst(Inst::AddSp(Reg::T6, Reg::T6)),
            Line::Inst(Inst::Lw(rd, Reg::T6)),
        ]
    }
}

/// Stores `rs` at `off` bytes above `sp`: in one instruction below 2048, by
/// way of `t6` from there on.
pub open spec fn store_sp_lines(rs: Reg, off: usize) -> Seq<Line> {
    if off < 2048 {
        just(Inst::SwSp(rs, off))
    } else {
        seq![
            Line::Inst(Inst::Li(Reg::T6, off as i32)),
            Line::Inst(Inst::AddSp(Reg::T6, Reg::T6)),
            Line::Inst(Inst::Sw(rs, Reg::T6)),
        ]
    }
}

/// Computes the address `off` bytes above `sp`.
pub open spec fn addr_sp_lines(rd: Reg, off: usize) -> Seq<Line> {
    if off < 2048 {
        just(Inst::AddiSp(rd, off))
    } else {
        seq![Line::Inst(Inst::Li(rd, off as i32)), Line::Inst(Inst::AddSp(rd, rd))]
    }
}

/// Brings the value `v` into the register `rd`: an integer as an
/// immediate, one of the first eight parameters from its argument register
/// and a later one from the caller's frame, the address of an allocation
/// by adding to `sp` or by its label, and anything else from its word of
/// the frame.
pub open spec fn operand_lines(program: &Prog, f: Frame, v: Val, rd: Reg) -> Code {
    match program.kind(v) {
        ValueKind::Integer(n) => Some(just(Inst::Li(rd, n))),
        ValueKind::FuncArgRef(i) => if i < 8 {
            Some(just(Inst::Mv(rd, Reg::A(i as u8))))
        } else if f.total > FRAME_LIMIT || i - 8 > FRAME_LIMIT - f.total {
            None
        } else {
            Some(load_sp_lines(rd, (4 * (f.total + (i - 8))) as usize))
        },
        kind => match f.place(v) {
            None => None,
            Some(Entry::Slot(slot)) => if slot > FRAME_LIMIT {
                None
            } else if kind is Alloc {
                Some(addr_sp_lines(rd, (4 * slot) as usize))
            } else {
                Some(load_sp_lines(rd, (4 * slot) as usize))
            },
            Some(Entry::Label(label)) => Some(just(Inst::La(rd, label))),
            Some(Entry::Register(_)) => None,
        },
    }
}

/// Stores `rs` in the word of the frame that the value `v` has.
pub open spec fn result_lines(f: Frame, v: Val, rs: Reg) -> Code {
    match f.place(v) {
        Some(Entry::Slot(slot)) => if slot > FRAME_LIMIT {
            None
        } else {
            Some(store_sp_lines(rs, (4 * slot) as usize))
        },
        _ => None,
    }
}

/// The instructions of a binary operation on `t0` and `t1`, result in `t0`:
/// one instruction for the arithmetic and bitwise operators and for `<` and
/// `>`; the other comparisons are composed, `==` and `!=` from `xor` and a
/// test against zero, `<=` and `>=` from the opposite comparison, negated.
pub open spec fn binary_lines(op: BinOp) -> Seq<Line> {
    let t0 = Reg::T0;
    let t1 = Reg::T1;
    match op {
        BinOp::Add => just(Inst::Op(Alu::Add, t0, t0, t1)),
        BinOp::Sub => just(Inst::Op(Alu::Sub, t0, t0, t1)),
        BinOp::Mul => just(Inst::Op(Alu::Mul, t0, t0, t1)),
        BinOp::Div => just(Inst::Op(Alu::Div, t0, t0, t1)),
        BinOp::Mod => just(Inst::Op(Alu::Rem, t0, t0, t1)),
        BinOp::And => just(Inst::Op(Alu::And, t0, t0, t1)),
        BinOp::Or => just(Inst::Op(Alu::Or, t0, t0, t1)),
        BinOp::Lt => just(Inst::Op(Alu::Slt, t0, t0, t1)),
        BinOp::Gt => just(Inst::Op(Alu::Sgt, t0, t0, t1)),
        BinOp::Eq => seq![
            Line::Inst(Inst::Op(Alu::Xor, t0, t0, t1)),
            Line::Inst(Inst::Seqz(t0, t0)),
        ],
        BinOp::NotEq => seq![
            Line::Inst(Inst::Op(Alu::Xor, t0, t0, t1)),
            Line::Inst(Inst::Snez(t0, t0)),
        ],
        BinOp::Le => seq![
            Line::Inst(Inst::Op(Alu::Sgt, t0, t0, t1)),
            Line::Inst(Inst::Seqz(t0, t0)),
        ],
        BinOp::Ge => seq![
            Line::Inst(Inst::Op(Alu::Slt, t0, t0, t1)),
            Line::Inst(Inst::Seqz(t0, t0)),
        ],
    }
}

/// What the index of a step is multiplied by, and what is done with it: the
/// size in bytes of what is stepped over goes into `t2`, the index in `t1`
/// is multiplied by it and added to the pointer in `t0`.
pub open spec fn step_lines(words: usize) -> Seq<Line> {
    seq![
        Line::Inst(Inst::Li(Reg::T2, (4 * words) as i32)),
        Line::Inst(Inst::Op(Alu::Mul, Reg::T1, Reg::T1, Reg::T2)),
        Line::Inst(Inst::Op(Alu::Add, Reg::T0, Reg::T0, Reg::T1)),
    ]
}

/// The code of a step from the pointer `src` by `index`, which gives the
/// pointer `v`: the index times the size of what `v` points to, added to
/// `src`.
pub open spec fn index_lines(program: &Prog, f: Frame, v: Val, src: Val, index: Val) -> Code {
    match program.ty(v) {
        Ty::Pointer(to) => if size_of(*to) > FRAME_LIMIT {
            None
        } else {
            both(
                operand_lines(program, f, src, Reg::T0),
                both(
                    operand_lines(program, f, index, Reg::T1),
                    after(step_lines(size_of(*to) as usize), result_lines(f, v, Reg::T0)),
                ),
            )
        },
        _ => None,
    }
}

/// The code that hands over the arguments from the one numbered `from` on:
/// the first eight go to `a0` to `a7`, the others by way of `t0` to the
/// lowest words of the frame.
pub open spec fn args_lines(program: &Prog, f: Frame, args: Seq<Val>, from: int) -> Code
    decreases args.len() - from,
{
    if from < 0 || from >= args.len() {
        Some(Seq::empty())
    } else if from < 8 {
        both(
            operand_lines(program, f, args[from], Reg::A(from as u8)),
            args_lines(program, f, args, from + 1),
        )
    } else if from > FRAME_LIMIT {
        None
    } else {
        both(
            operand_lines(program, f, args[from], Reg::T0),
            after(
                store_sp_lines(Reg::T0, (4 * (from - 8)) as usize),
                args_lines(program, f, args, from + 1),
            ),
        )
    }
}

/// The code of a call, in a function that is a caller: the arguments are
/// handed over, the call is made, and the result, if there is one, comes
/// back in `a0`.
pub open spec fn call_lines(program: &Prog, f: Frame, v: Val, callee: Func, args: Seq<Val>) -> Code {
    if !f.caller {
        None
    } else {
        both(
            args_lines(program, f, args, 0),
            after(
                just(Inst::Call(callee)),
                if program.funcs[callee.id as int].ret_ty == Ty::Unit {
                    Some(Seq::empty())
                } else {
                    result_lines(f, v, Reg::A(0))
                },
            ),
        )
    }
}

/// The code of a load: the pointer goes to `t0`, the word it points to is
/// loaded, and the result is stored.
pub open spec fn load_lines(program: &Prog, f: Frame, v: Val, src: Val) -> Code {
    both(
        operand_lines(program, f, src, Reg::T0),
        after(just(Inst::Lw(Reg::T0, Reg::T0)), result_lines(f, v, Reg::T0)),
    )
}

/// The code of a store: the value goes to `t0`, the pointer to `t1`, and
/// the value is stored where the pointer points.
pub open spec fn store_lines(program: &Prog, f: Frame, value: Val, dest: Val) -> Code {
    both(
        operand_lines(program, f, value, Reg::T0),
        both(operand_lines(program, f, dest, Reg::T1), Some(just(Inst::Sw(Reg::T0, Reg::T1)))),
    )
}

/// The code of a binary operation: the operands go to `t0` and `t1`, the
/// operation is made, and the result is stored.
pub open spec fn operation_lines(
    program: &Prog,
    f: Frame,
    v: Val,
    op: BinOp,
    lhs: Val,
    rhs: Val,
) -> Code {
    both(
        operand_lines(program, f, lhs, Reg::T0),
        both(
            operand_lines(program, f, rhs, Reg::T1),
            after(binary_lines(op), result_lines(f, v, Reg::T0)),
        ),
    )
}

/// The code of a branch: the condition goes to `t0`; when it is not zero
/// the first block is next, the second otherwise.
pub open spec fn branch_lines(program: &Prog, f: Frame, cond: Val, on_true: Bb, on_false: Bb) -> Code {
    both(
        operand_lines(program, f, cond, Reg::T0),
        Some(seq![Line::Inst(Inst::Bnez(Reg::T0, on_true)), Line::Inst(Inst::J(on_false))]),
    )
}

/// The code of a return: the value, if there is one, goes to `a0`, and the
/// frame is closed.
pub open spec fn return_lines(program: &Prog, f: Frame, value: Option<Val>) -> Code {
    match value {
        Some(x) => both(operand_lines(program, f, x, Reg::A(0)), Some(seq![Line::Close])),
        None => Some(seq![Line::Close]),
    }
}

/// The code of one instruction of the program. An integer and an allocation
/// have none: the one is loaded where it is used, the other is a place in
/// the frame.
pub open spec fn inst_lines(program: &Prog, f: Frame, v: Val) -> Code {
    match program.kind(v) {
        ValueKind::Integer(_) => Some(Seq::empty()),
        ValueKind::Alloc => Some(Seq::empty()),
        ValueKind::Load(src) => load_lines(program, f, v, src),
        ValueKind::Store(value, dest) => store_lines(program, f, value, dest),
        ValueKind::Binary(op, lhs, rhs) => operation_lines(program, f, v, op, lhs, rhs),
        ValueKind::GetElemPtr(src, index) => index_lines(program, f, v, src, index),
        ValueKind::GetPtr(src, index) => index_lines(program, f, v, src, index),
        ValueKind::Branch(cond, on_true, on_false) => branch_lines(
            program,
            f,
            cond,
            on_true,
            on_false,
        ),
        ValueKind::Jump(to) => Some(just(Inst::J(to))),
        ValueKind::Call(callee, args) => call_lines(program, f, v, callee, args@),
        ValueKind::Return(value) => return_lines(program, f, value),
        _ => None,
    }
}

/// The code of the instructions from the one numbered `from` on.
pub open spec fn insts_lines(program: &Prog, f: Frame, insts: Seq<Val>, from: int) -> Code
    decreases insts.len() - from,
{
    if from < 0 || from >= insts.len() {
        Some(Seq::empty())
    } else {
        both(inst_lines(program, f, insts[from]), insts_lines(program, f, insts, from + 1))
    }
}

/// The code of a block: its label, its instructions up to and including
/// the first that ends a block, and the closing of the frame when none
/// does.
pub open spec fn block_lines(program: &Prog, f: Frame, bb: Bb) -> Code {
    let all = program.insts(bb);
    let insts = all.take(cut(program, all));
    let closed = insts.len() > 0 && program.kind(insts.last()).is_terminator();
    after(
        just(Inst::Label(bb)),
        both(
            insts_lines(program, f, insts, 0),
            Some(
                if closed {
                    Seq::empty()
                } else {
                    seq![Line::Close]
                },
            ),
        ),
    )
}

/// The code of the blocks from the one numbered `from` on.
pub open spec fn blocks_lines(program: &Prog, f: Frame, bbs: Seq<Bb>, from: int) -> Code
    decreases bbs.len() - from,
{
    if from < 0 || from >= bbs.len() {
        Some(Seq::empty())
    } else {
        both(block_lines(program, f, bbs[from]), blocks_lines(program, f, bbs, from + 1))
    }
}

/// The lines of a function: the opening of its frame, then the code of the
/// blocks that no branch left unwritten has for its target.
pub open spec fn function_lines(program: &Prog, f: Frame, func: Func) -> Code {
    let fd = program.funcs[func.id as int];
    after(
        seq![Line::Open],
        blocks_lines(program, f, written(program, fd.bbs@, fd.bbs.len() as int), 0),
    )
}

/// The instructions of a block that are written: all up to and including
/// the first that ends a block.
pub open spec fn block_insts(program: &Prog, bb: Bb) -> Seq<Val> {
    let all = program.insts(bb);
    all.take(cut(program, all))
}

/// What the calls of a function ask of its frame: whether there is any,
/// and the most words that one of them needs for arguments beyond the
/// eighth.
pub struct Calls {
    pub caller: bool,
    pub outgoing: usize,
}

/// What the calls among the instructions from `from` on add to `c`; None
/// when a call has more arguments than a frame can hold.
pub open spec fn scan_insts(program: &Prog, insts: Seq<Val>, from: int, c: Calls) -> Option<Calls>
    decreases insts.len() - from,
{
    if from < 0 || from >= insts.len() {
        Some(c)
    } else {
        match program.kind(insts[from]) {
            ValueKind::Call(_, args) => if args.len() > 8 {
                if args.len() - 8 > FRAME_LIMIT {
                    None
                } else {
                    scan_insts(
                        program,
                        insts,
                        from + 1,
                        Calls {
                            caller: true,
                            outgoing: if args.len() - 8 > c.outgoing {
                                (args.len() - 8) as usize
                            } else {
                                c.outgoing
                            },
                        },
                    )
                }
            } else {
                scan_insts(program, insts, from + 1, Calls { caller: true, outgoing: c.outgoing })
            },
            _ => scan_insts(program, insts, from + 1, c),
        }
    }
}

/// What the calls in the blocks from `from` on add to `c`.
pub open spec fn scan_blocks(program: &Prog, bbs: Seq<Bb>, from: int, c: Calls) -> Option<Calls>
    decreases bbs.len() - from,
{
    if from < 0 || from >= bbs.len() {
        Some(c)
    } else {
        match scan_insts(program, block_insts(program, bbs[from]), 0, c) {
            Some(d) => scan_blocks(program, bbs, from + 1, d),
            None => None,
        }
    }
}

/// How many words of the frame the value needs: an allocation as many as
/// what it allocates, a value that an instruction computes one, anything
/// else none. None for an allocation of more than a frame can hold.
pub open spec fn need(program: &Prog, v: Val) -> Option<usize> {
    match program.kind(v) {
        ValueKind::Alloc => match program.ty(v) {
            Ty::Pointer(to) => if size_of(*to) > FRAME_LIMIT {
                None
            } else {
                Some(size_of(*to) as usize)
            },
            _ => None,
        },
        ValueKind::Load(_) => Some(1),
        ValueKind::Binary(_, _, _) => Some(1),
        ValueKind::GetElemPtr(_, _) => Some(1),
        ValueKind::GetPtr(_, _) => Some(1),
        ValueKind::Call(_, _) => Some(
            if program.ty(v) == Ty::Unit {
                0
            } else {
                1
            },
        ),
        _ => Some(0),
    }
}

/// Where the values live, and how many words of the frame are taken.
pub struct Slots {
    pub places: Map<usize, Entry>,
    pub used: usize,
}

/// The slots after the values from `from` on got their words: each that
/// needs any gets the next free ones. None when the frame would be too
/// large.
pub open spec fn place_insts(program: &Prog, insts: Seq<Val>, from: int, s: Slots) -> Option<Slots>
    decreases insts.len() - from,
{
    if from < 0 || from >= insts.len() {
        Some(s)
    } else {
        match need(program, insts[from]) {
            Some(n) => if n == 0 {
                place_insts(program, insts, from + 1, s)
            } else if n > FRAME_LIMIT - s.used {
                None
            } else {
                place_insts(
                    program,
                    insts,
                    from + 1,
                    Slots {
                        places: s.places.insert(insts[from].id, Entry::Slot(s.used)),
                        used: (s.used + n) as usize,
                    },
                )
            },
            None => None,
        }
    }
}

/// The slots after the values of the blocks from `from` on got their
/// words.
pub open spec fn place_blocks(program: &Prog, bbs: Seq<Bb>, from: int, s: Slots) -> Option<Slots>
    decreases bbs.len() - from,
{
    if from < 0 || from >= bbs.len() {
        Some(s)
    } else {
        match place_insts(program, block_insts(program, bbs[from]), 0, s) {
            Some(t) => place_blocks(program, bbs, from + 1, t),
            None => None,
        }
    }
}

/// The frame of a function: the lowest words are for the arguments beyond
/// the eighth of the calls it makes; above them every value that the
/// written blocks compute has its words, in the order of the blocks; a
/// function that makes calls has one word more, for `ra`.
pub open spec fn layout(program: &Prog, func: Func, places: Map<usize, Entry>) -> Option<Frame> {
    let fd = program.funcs[func.id as int];
    let bbs = written(program, fd.bbs@, fd.bbs.len() as int);
    match scan_blocks(program, bbs, 0, Calls { caller: false, outgoing: 0 }) {
        Some(c) => match place_blocks(program, bbs, 0, Slots { places, used: c.outgoing }) {
            Some(s) => if c.caller {
                if s.used >= FRAME_LIMIT {
                    None
                } else {
                    Some(Frame { places: s.places, total: (s.used + 1) as usize, caller: true })
                }
            } else {
                Some(Frame { places: s.places, total: s.used, caller: false })
            },
            None => None,
        },
        None => None,
    }
}

/// The lines of a function with its frame: the frame as [`layout`] has it,
/// and the lines as [`function_lines`] has them with that frame.
pub open spec fn lowered(program: &Prog, func: Func, places: Map<usize, Entry>) -> Option<
    (Frame, Seq<Line>),
> {
    match layout(program, func, places) {
        Some(f) => match function_lines(program, f, func) {
            Some(t) => Some((f, t)),
            None => None,
        },
        None => None,
    }
}

/// Lines in a row can be taken together either way.
pub proof fn after_after(acc: Seq<Line>, t: Seq<Line>, rest: Code)
    ensures
        after(acc, after(t, rest)) == after(acc + t, rest),
{
    match rest {
        Some(u) => {
            assert(acc + (t + u) =~= (acc + t) + u);
        },
        None => {},
    }
}

} // verus!

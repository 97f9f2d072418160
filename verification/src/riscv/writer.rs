//! The lines of the assembly output, and the shape of a stack frame.
//!
//! A frame is `total` words. It is opened by lowering `sp` by its size and
//! closed by raising `sp` by the same; a function that makes calls keeps
//! `ra` in the topmost word in between. An amount under 512 is written as an
//! immediate; a larger one goes through `t0`.

use vstd::prelude::*;
use vstd::string::StringExecFns;
use crate::program::entities::{Prog, Val, ValueKind};
use crate::program::types::Ty;
use crate::riscv::scope::Scope;
use crate::text::{decimal, decimal_string, i32_string, signed_decimal};

verus! {

pub open spec fn op1_line(op: Seq<char>, dst: Seq<char>) -> Seq<char> {
    "  "@ + op + " "@ + dst + "\n"@
}

pub open spec fn op2_line(op: Seq<char>, src: Seq<char>, dst: Seq<char>) -> Seq<char> {
    "  "@ + op + " "@ + src + ", "@ + dst + "\n"@
}

pub open spec fn op3_line(op: Seq<char>, dst: Seq<char>, src1: Seq<char>, src2: Seq<char>) -> Seq<
    char,
> {
    "  "@ + op + " "@ + dst + ", "@ + src1 + ", "@ + src2 + "\n"@
}

/// What opening and closing a frame do to `sp` and `ra`.
pub enum FrameOp {
    /// `sp` goes down by so many bytes.
    Lower(nat),
    /// `sp` goes up by so many bytes.
    Raise(nat),
    /// `ra` is stored so many bytes above `sp`.
    Save(nat),
    /// `ra` is loaded from so many bytes above `sp`.
    Restore(nat),
    /// The function returns.
    Return,
}

/// The instructions of one step.
pub open spec fn render(op: FrameOp) -> Seq<char> {
    match op {
        FrameOp::Lower(bytes) => if bytes < 512 {
            op3_line("addi"@, "sp"@, "sp"@, "-"@ + decimal(bytes))
        } else {
            op2_line("li"@, "t0"@, decimal(bytes)) + op3_line("sub"@, "sp"@, "sp"@, "t0"@)
        },
        FrameOp::Raise(bytes) => if bytes < 512 {
            op3_line("addi"@, "sp"@, "sp"@, decimal(bytes))
        } else {
            op2_line("li"@, "t0"@, decimal(bytes)) + op3_line("add"@, "sp"@, "sp"@, "t0"@)
        },
        FrameOp::Save(offset) => if offset < 512 {
            op2_line("sw"@, "ra"@, decimal(offset) + "(sp)"@)
        } else {
            op2_line("li"@, "t0"@, decimal(offset)) + op3_line("add"@, "t0"@, "sp"@, "t0"@)
                + op2_line("sw"@, "ra"@, "0(t0)"@)
        },
        FrameOp::Restore(offset) => if offset < 512 {
            op2_line("lw"@, "ra"@, decimal(offset) + "(sp)"@)
        } else {
            op2_line("li"@, "t0"@, decimal(offset)) + op3_line("add"@, "t0"@, "sp"@, "t0"@)
                + op2_line("lw"@, "ra"@, "0(t0)"@)
        },
        FrameOp::Return => op1_line("ret"@, Seq::empty()),
    }
}

/// The steps that open a frame of `total` words.
pub open spec fn prologue_ops(total: nat, caller: bool) -> Seq<FrameOp> {
    if caller {
        seq![FrameOp::Lower(4 * total), FrameOp::Save((4 * (total - 1)) as nat)]
    } else {
        seq![FrameOp::Lower(4 * total)]
    }
}

/// The steps that close a frame of `total` words and return.
pub open spec fn epilogue_ops(total: nat, caller: bool) -> Seq<FrameOp> {
    if caller {
        seq![FrameOp::Restore((4 * (total - 1)) as nat), FrameOp::Raise(4 * total), FrameOp::Return]
    } else {
        seq![FrameOp::Raise(4 * total), FrameOp::Return]
    }
}

/// Where `sp` stands after the steps, having stood at `sp` before.
pub open spec fn sp_after(ops: Seq<FrameOp>, sp: int) -> int
    decreases ops.len(),
{
    if ops.len() == 0 {
        sp
    } else {
        let before = sp_after(ops.drop_last(), sp);
        match ops.last() {
            FrameOp::Lower(bytes) => before - bytes,
            FrameOp::Raise(bytes) => before + bytes,
            _ => before,
        }
    }
}

/// The address that `ra` was last stored at by the steps, if it was.
pub open spec fn ra_saved_at(ops: Seq<FrameOp>, sp: int) -> Option<int>
    decreases ops.len(),
{
    if ops.len() == 0 {
        None
    } else {
        match ops.last() {
            FrameOp::Save(offset) => Some(sp_after(ops.drop_last(), sp) + offset),
            _ => ra_saved_at(ops.drop_last(), sp),
        }
    }
}

/// The address that `ra` was last loaded from by the steps, if it was.
pub open spec fn ra_restored_from(ops: Seq<FrameOp>, sp: int) -> Option<int>
    decreases ops.len(),
{
    if ops.len() == 0 {
        None
    } else {
        match ops.last() {
            FrameOp::Restore(offset) => Some(sp_after(ops.drop_last(), sp) + offset),
            _ => ra_restored_from(ops.drop_last(), sp),
        }
    }
}

/// A frame that is opened and then closed leaves `sp` where it was. In a
/// function that makes calls, `ra` is stored when the frame is opened, inside
/// the frame, and loaded from that same place when the frame is closed,
/// before `sp` moves.
pub proof fn frame_is_balanced(total: nat, caller: bool, sp: int)
    requires
        caller ==> total >= 1,
    ensures
        sp_after(prologue_ops(total, caller) + epilogue_ops(total, caller), sp) == sp,
        sp_after(prologue_ops(total, caller), sp) == sp - 4 * total,
        caller ==> ra_saved_at(prologue_ops(total, caller), sp) == Some(sp - 4),
        caller ==> ra_restored_from(
            epilogue_ops(total, caller),
            sp_after(prologue_ops(total, caller), sp),
        ) == ra_saved_at(prologue_ops(total, caller), sp),
        !caller ==> ra_saved_at(prologue_ops(total, caller), sp) is None,
        epilogue_ops(total, caller).last() == FrameOp::Return,
{
    reveal_with_fuel(sp_after, 6);
    reveal_with_fuel(ra_saved_at, 6);
    reveal_with_fuel(ra_restored_from, 6);
    let open = prologue_ops(total, caller);
    let close = epilogue_ops(total, caller);
    let all = open + close;
    let lower = FrameOp::Lower(4 * total);
    let raise = FrameOp::Raise(4 * total);
    let top = (4 * (total - 1)) as nat;
    if caller {
        assert(open.drop_last() =~= seq![lower]);
        assert(open.drop_last().drop_last() =~= Seq::<FrameOp>::empty());
        assert(close.drop_last() =~= seq![FrameOp::Restore(top), raise]);
        assert(close.drop_last().drop_last() =~= seq![FrameOp::Restore(top)]);
        assert(close.drop_last().drop_last().drop_last() =~= Seq::<FrameOp>::empty());
        assert(all.drop_last() =~= seq![lower, FrameOp::Save(top), FrameOp::Restore(top), raise]);
        assert(all.drop_last().drop_last() =~= seq![lower, FrameOp::Save(top), FrameOp::Restore(top)]);
        assert(all.drop_last().drop_last().drop_last() =~= seq![lower, FrameOp::Save(top)]);
        assert(all.drop_last().drop_last().drop_last().drop_last() =~= seq![lower]);
        assert(all.drop_last().drop_last().drop_last().drop_last().drop_last() =~= Seq::<
            FrameOp,
        >::empty());
    } else {
        assert(open.drop_last() =~= Seq::<FrameOp>::empty());
        assert(close.drop_last() =~= seq![raise]);
        assert(close.drop_last().drop_last() =~= Seq::<FrameOp>::empty());
        assert(all.drop_last() =~= seq![lower, raise]);
        assert(all.drop_last().drop_last() =~= seq![lower]);
        assert(all.drop_last().drop_last().drop_last() =~= Seq::<FrameOp>::empty());
    }
}

/// The text of the steps that open a frame, after the lines that announce
/// the function.
pub open spec fn prologue_text(name: Seq<char>, total: nat, caller: bool) -> Seq<char> {
    let ops = prologue_ops(total, caller);
    "  .globl "@ + name + "\n"@ + name + ":\n"@ + render(ops[0]) + if caller {
        render(ops[1])
    } else {
        Seq::empty()
    }
}

/// The text of the steps that close a frame and return.
pub open spec fn epilogue_text(total: nat, caller: bool) -> Seq<char> {
    let ops = epilogue_ops(total, caller);
    if caller {
        render(ops[0]) + render(ops[1]) + render(ops[2])
    } else {
        render(ops[0]) + render(ops[1])
    }
}

/// Whether a value can stand in global data: an integer, a zero
/// initializer, or an aggregate of values made before it that can.
pub open spec fn data_ok(program: &Prog, v: Val) -> bool
    decreases v.id + 1, 0nat,
{
    match program.kind(v) {
        ValueKind::Integer(_) => true,
        ValueKind::ZeroInit => true,
        ValueKind::Aggregate(elems) => all_data_ok(program, elems@, v.id as nat),
        _ => false,
    }
}

pub open spec fn all_data_ok(program: &Prog, elems: Seq<Val>, bound: nat) -> bool
    decreases bound, elems.len(),
{
    if elems.len() == 0 {
        true
    } else {
        &&& all_data_ok(program, elems.drop_last(), bound)
        &&& elems.last().id < bound
        &&& data_ok(program, elems.last())
    }
}

/// A value as global data: `.word n` for an integer, `.zero 4` for a zero
/// initializer, and for an aggregate its elements one after the other.
pub open spec fn data_text(program: &Prog, v: Val) -> Seq<char>
    decreases v.id + 1, 0nat,
{
    match program.kind(v) {
        ValueKind::Integer(n) => "  .word "@ + signed_decimal(n as int) + "\n"@,
        ValueKind::ZeroInit => "  .zero 4"@ + "\n"@,
        ValueKind::Aggregate(elems) => all_data_text(program, elems@, v.id as nat),
        _ => Seq::empty(),
    }
}

pub open spec fn all_data_text(program: &Prog, elems: Seq<Val>, bound: nat) -> Seq<char>
    decreases bound, elems.len(),
{
    if elems.len() == 0 {
        Seq::empty()
    } else {
        all_data_text(program, elems.drop_last(), bound) + if elems.last().id < bound {
            data_text(program, elems.last())
        } else {
            Seq::empty()
        }
    }
}

/// Collects the text.
pub struct Writer {
    pub text: String,
}

impl Writer {
    pub fn new() -> (w: Self)
        ensures
            w.text@ == Seq::<char>::empty(),
    {
        Self { text: String::new() }
    }

    /// A line with `s` on it.
    pub fn note(&mut self, s: &str)
        ensures
            final(self).text@ == old(self).text@ + s@ + "\n"@,
    {
        self.text.append(s);
        self.text.append("\n");
    }

    /// An empty line.
    pub fn line(&mut self)
        ensures
            final(self).text@ == old(self).text@ + "\n"@,
    {
        self.text.append("\n");
    }

    /// `  op dst`
    pub fn op1(&mut self, op: &str, dst: &str)
        ensures
            final(self).text@ == old(self).text@ + op1_line(op@, dst@),
    {
        self.text.append("  ");
        self.text.append(op);
        self.text.append(" ");
        self.text.append(dst);
        self.text.append("\n");
        assert(self.text@ =~= old(self).text@ + op1_line(op@, dst@));
    }

    /// `  op src, dst`
    pub fn op2(&mut self, op: &str, src: &str, dst: &str)
        ensures
            final(self).text@ == old(self).text@ + op2_line(op@, src@, dst@),
    {
        self.text.append("  ");
        self.text.append(op);
        self.text.append(" ");
        self.text.append(src);
        self.text.append(", ");
        self.text.append(dst);
        self.text.append("\n");
        assert(self.text@ =~= old(self).text@ + op2_line(op@, src@, dst@));
    }

    /// `  op dst, src1, src2`
    pub fn op3(&mut self, op: &str, dst: &str, src1: &str, src2: &str)
        ensures
            final(self).text@ == old(self).text@ + op3_line(op@, dst@, src1@, src2@),
    {
        self.text.append("  ");
        self.text.append(op);
        self.text.append(" ");
        self.text.append(dst);
        self.text.append(", ");
        self.text.append(src1);
        self.text.append(", ");
        self.text.append(src2);
        self.text.append("\n");
        assert(self.text@ =~= old(self).text@ + op3_line(op@, dst@, src1@, src2@));
    }

    fn lower_sp(&mut self, bytes: u64)
        ensures
            final(self).text@ == old(self).text@ + render(FrameOp::Lower(bytes as nat)),
    {
        let amount = decimal_string(bytes);
        if bytes < 512 {
            let mut imm = String::from_str("-");
            imm.append(amount.as_str());
            self.op3("addi", "sp", "sp", imm.as_str());
        } else {
            self.op2("li", "t0", amount.as_str());
            self.op3("sub", "sp", "sp", "t0");
            assert(self.text@ =~= old(self).text@ + render(FrameOp::Lower(bytes as nat)));
        }
    }

    fn raise_sp(&mut self, bytes: u64)
        ensures
            final(self).text@ == old(self).text@ + render(FrameOp::Raise(bytes as nat)),
    {
        let amount = decimal_string(bytes);
        if bytes < 512 {
            self.op3("addi", "sp", "sp", amount.as_str());
        } else {
            self.op2("li", "t0", amount.as_str());
            self.op3("add", "sp", "sp", "t0");
            assert(self.text@ =~= old(self).text@ + render(FrameOp::Raise(bytes as nat)));
        }
    }

    fn move_ra(&mut self, offset: u64, save: bool)
        ensures
            final(self).text@ == old(self).text@ + render(
                if save {
                    FrameOp::Save(offset as nat)
                } else {
                    FrameOp::Restore(offset as nat)
                },
            ),
    {
        let op = if save {
            "sw"
        } else {
            "lw"
        };
        let amount = decimal_string(offset);
        if offset < 512 {
            let mut place = amount;
            place.append("(sp)");
            self.op2(op, "ra", place.as_str());
        } else {
            self.op2("li", "t0", amount.as_str());
            self.op3("add", "t0", "sp", "t0");
            self.op2(op, "ra", "0(t0)");
            assert(self.text@ =~= old(self).text@ + render(
                if save {
                    FrameOp::Save(offset as nat)
                } else {
                    FrameOp::Restore(offset as nat)
                },
            ));
        }
    }

    /// Announces the function and opens its frame of `total` words.
    pub fn prologue(&mut self, name: &str, scope: &Scope)
        requires
            scope.caller ==> scope.total_slots >= 1,
            scope.total_slots <= 0x3fff_ffff,
        ensures
            final(self).text@ == old(self).text@ + prologue_text(
                name@,
                scope.total_slots as nat,
                scope.caller,
            ),
    {
        let total = scope.total_slots();
        let caller = scope.caller();
        self.text.append("  .globl ");
        self.text.append(name);
        self.text.append("\n");
        self.text.append(name);
        self.text.append(":\n");
        let ghost head = self.text@;
        let bytes: u64 = 4 * (total as u64);
        self.lower_sp(bytes);
        if caller {
            self.move_ra(bytes - 4, true);
        }
        proof {
            assert(self.text@ =~= old(self).text@ + prologue_text(name@, total as nat, caller));
        }
    }

    /// Closes the frame of `total` words and returns.
    pub fn epilogue(&mut self, scope: &Scope)
        requires
            scope.caller ==> scope.total_slots >= 1,
            scope.total_slots <= 0x3fff_ffff,
        ensures
            final(self).text@ == old(self).text@ + epilogue_text(
                scope.total_slots as nat,
                scope.caller,
            ),
    {
        let total = scope.total_slots();
        let caller = scope.caller();
        let bytes: u64 = 4 * (total as u64);
        if caller {
            self.move_ra(bytes - 4, false);
        }
        self.raise_sp(bytes);
        self.op1("ret", "");
        proof {
            reveal_strlit("");
            assert(""@ =~= Seq::<char>::empty());
            assert(self.text@ =~= old(self).text@ + epilogue_text(total as nat, caller));
        }
    }

    /// The size of `i32` or of an array of scalars, in words.
    pub fn to_size(&self, ty: &Ty) -> (size: usize)
        requires
            ty.is_scalar_or_array(),
            ty.words() <= usize::MAX,
        ensures
            size == ty.words(),
    {
        crate::tools::get_size_form_ty(ty)
    }

    proof fn data_not_ok(program: &Prog, elems: Seq<Val>, k: int, bound: nat)
        requires
            0 <= k < elems.len(),
            !(elems[k].id < bound && data_ok(program, elems[k])),
        ensures
            !all_data_ok(program, elems, bound),
        decreases elems.len(),
    {
        if k < elems.len() - 1 {
            Self::data_not_ok(program, elems.drop_last(), k, bound);
        }
    }

    /// Writes a value as global data; writes nothing when it cannot stand
    /// there, and says so.
    pub fn aggregate(&mut self, program: &Prog, value: Val) -> (done: bool)
        requires
            program.has_value(value),
        ensures
            done == data_ok(program, value),
            done ==> final(self).text@ == old(self).text@ + data_text(program, value),
            old(self).text@.is_prefix_of(final(self).text@),
        decreases value.id,
    {
        match program.value_kind(value) {
            ValueKind::Integer(n) => {
                self.text.append("  .word ");
                self.text.append(i32_string(*n).as_str());
                self.text.append("\n");
                assert(self.text@ =~= old(self).text@ + data_text(program, value));
                true
            },
            ValueKind::ZeroInit => {
                self.note("  .zero 4");
                assert(self.text@ =~= old(self).text@ + data_text(program, value));
                true
            },
            ValueKind::Aggregate(elems) => {
                let ghost bound = value.id as nat;
                let mut k: usize = 0;
                while k < elems.len()
                    invariant
                        k <= elems.len(),
                        bound == value.id,
                        program.has_value(value),
                        program.kind(value) == ValueKind::Aggregate(*elems),
                        all_data_ok(program, elems@.take(k as int), bound),
                        self.text@ == old(self).text@ + all_data_text(
                            program,
                            elems@.take(k as int),
                            bound,
                        ),
                    ensures
                        k == elems.len(),
                    decreases elems.len() - k,
                {
                    let e = elems[k];
                    proof {
                        let next = elems@.take(k + 1);
                        assert(next.drop_last() =~= elems@.take(k as int));
                        assert(next.last() == e);
                    }
                    if e.id >= value.id {
                        proof {
                            Self::data_not_ok(program, elems@, k as int, bound);
                        }
                        return false;
                    }
                    let ghost before = self.text@;
                    if !self.aggregate(program, e) {
                        proof {
                            Self::data_not_ok(program, elems@, k as int, bound);
                        }
                        return false;
                    }
                    proof {
                        assert(self.text@ =~= old(self).text@ + all_data_text(
                            program,
                            elems@.take(k + 1),
                            bound,
                        ));
                    }
                    k += 1;
                }
                proof {
                    assert(elems@.take(k as int) =~= elems@);
                }
                true
            },
            _ => false,
        }
    }
}

} // verus!

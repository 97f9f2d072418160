//! The instructions that the code generator writes inside a function.
//!
//! None of them can name `sp` or `ra` as the register it writes: the stack
//! pointer moves only where a frame is opened or closed, and the return
//! address changes only by a call.

use vstd::prelude::*;
use vstd::string::StringExecFns;
use crate::program::entities::{Bb, Func, Prog};
use crate::riscv::lower::{bare, strip};
use crate::text::{decimal, i32_string, join2, join3, signed_decimal, usize_string};

verus! {

/// A register that instructions may write: a temporary, or an argument
/// register.
#[derive(Clone, Copy, Debug, PartialEq, Eq, Structural)]
pub enum Reg {
    T0,
    T1,
    T2,
    T6,
    /// `a0` to `a7`.
    A(u8),
}

impl Reg {
    pub open spec fn text(&self) -> Seq<char> {
        match self {
            Reg::T0 => "t0"@,
            Reg::T1 => "t1"@,
            Reg::T2 => "t2"@,
            Reg::T6 => "t6"@,
            Reg::A(n) => "a"@ + decimal(*n as nat),
        }
    }

    pub fn name(&self) -> (s: String)
        ensures
            s@ == self.text(),
    {
        match self {
            Reg::T0 => String::from_str("t0"),
            Reg::T1 => String::from_str("t1"),
            Reg::T2 => String::from_str("t2"),
            Reg::T6 => String::from_str("t6"),
            Reg::A(n) => join2("a", usize_string(*n as usize).as_str()),
        }
    }
}

/// An operation on two registers.
#[derive(Clone, Copy, Debug, PartialEq, Eq, Structural)]
pub enum Alu {
    Add,
    Sub,
    Mul,
    Div,
    Rem,
    And,
    Or,
    Xor,
    Slt,
    Sgt,
}

impl Alu {
    pub open spec fn text(&self) -> Seq<char> {
        match self {
            Alu::Add => "add"@,
            Alu::Sub => "sub"@,
            Alu::Mul => "mul"@,
            Alu::Div => "div"@,
            Alu::Rem => "rem"@,
            Alu::And => "and"@,
            Alu::Or => "or"@,
            Alu::Xor => "xor"@,
            Alu::Slt => "slt"@,
            Alu::Sgt => "sgt"@,
        }
    }

    pub fn name(&self) -> (s: &'static str)
        ensures
            s@ == self.text(),
    {
        match self {
            Alu::Add => "add",
            Alu::Sub => "sub",
            Alu::Mul => "mul",
            Alu::Div => "div",
            Alu::Rem => "rem",
            Alu::And => "and",
            Alu::Or => "or",
            Alu::Xor => "xor",
            Alu::Slt => "slt",
            Alu::Sgt => "sgt",
        }
    }
}

/// One instruction, or a label.
#[derive(Debug, PartialEq, Eq)]
pub enum Inst {
    /// `li rd, imm`
    Li(Reg, i32),
    /// `la rd, label`
    La(Reg, String),
    /// `mv rd, rs`
    Mv(Reg, Reg),
    /// `lw rd, 0(rs)`
    Lw(Reg, Reg),
    /// `sw rs, 0(rb)`: stores `rs` where `rb` points.
    Sw(Reg, Reg),
    /// `lw rd, off(sp)`
    LwSp(Reg, usize),
    /// `sw rs, off(sp)`
    SwSp(Reg, usize),
    /// `addi rd, sp, off`
    AddiSp(Reg, usize),
    /// `add rd, sp, rs`
    AddSp(Reg, Reg),
    /// `op rd, rs1, rs2`
    Op(Alu, Reg, Reg, Reg),
    /// `seqz rd, rs`
    Seqz(Reg, Reg),
    /// `snez rd, rs`
    Snez(Reg, Reg),
    /// `bnez rs, label`, with the label of the block.
    Bnez(Reg, Bb),
    /// `j label`, with the label of the block.
    J(Bb),
    /// `call name`, with the name of the function.
    Call(Func),
    /// `label:`, with the label of the block.
    Label(Bb),
}

/// The label of a block in the assembly: the name of its function, an
/// underscore, and its own name, both without the sigil. A block that the
/// program does not have has the empty label.
pub open spec fn block_label(program: &Prog, bb: Bb) -> Seq<char> {
    if program.has_bb(bb) && program.has_func(program.bbs[bb.id as int].func) {
        bare(program.funcs[program.bbs[bb.id as int].func.id as int].name@) + "_"@ + bare(
            program.bbs[bb.id as int].name@,
        )
    } else {
        Seq::empty()
    }
}

/// The label of a block in the assembly.
pub fn block_name(program: &Prog, bb: Bb) -> (s: String)
    ensures
        s@ == block_label(program, bb),
{
    if bb.id < program.bbs.len() && program.bbs[bb.id].func.id < program.funcs.len() {
        let func = strip(&program.funcs[program.bbs[bb.id].func.id].name);
        let own = strip(&program.bbs[bb.id].name);
        join3(func.as_str(), "_", own.as_str())
    } else {
        String::new()
    }
}

/// The name of a function in the assembly: its name without the sigil. A
/// function that the program does not have has the empty name.
pub open spec fn func_label(program: &Prog, f: Func) -> Seq<char> {
    if program.has_func(f) {
        bare(program.funcs[f.id as int].name@)
    } else {
        Seq::empty()
    }
}

/// The name of a function in the assembly.
pub fn func_name(program: &Prog, f: Func) -> (s: String)
    ensures
        s@ == func_label(program, f),
{
    if f.id < program.funcs.len() {
        strip(&program.funcs[f.id].name)
    } else {
        String::new()
    }
}

impl Inst {
    /// The instruction as it is written, with its line end.
    pub open spec fn text(&self, program: &Prog) -> Seq<char> {
        match self {
            Inst::Li(rd, imm) => "  li "@ + rd.text() + ", "@ + signed_decimal(*imm as int) + "\n"@,
            Inst::La(rd, label) => "  la "@ + rd.text() + ", "@ + label@ + "\n"@,
            Inst::Mv(rd, rs) => "  mv "@ + rd.text() + ", "@ + rs.text() + "\n"@,
            Inst::Lw(rd, rs) => "  lw "@ + rd.text() + ", 0("@ + rs.text() + ")\n"@,
            Inst::Sw(rs, rb) => "  sw "@ + rs.text() + ", 0("@ + rb.text() + ")\n"@,
            Inst::LwSp(rd, off) => "  lw "@ + rd.text() + ", "@ + decimal(*off as nat) + "(sp)\n"@,
            Inst::SwSp(rs, off) => "  sw "@ + rs.text() + ", "@ + decimal(*off as nat) + "(sp)\n"@,
            Inst::AddiSp(rd, off) => "  addi "@ + rd.text() + ", sp, "@ + decimal(*off as nat)
                + "\n"@,
            Inst::AddSp(rd, rs) => "  add "@ + rd.text() + ", sp, "@ + rs.text() + "\n"@,
            Inst::Op(op, rd, rs1, rs2) => "  "@ + op.text() + " "@ + rd.text() + ", "@ + rs1.text()
                + ", "@ + rs2.text() + "\n"@,
            Inst::Seqz(rd, rs) => "  seqz "@ + rd.text() + ", "@ + rs.text() + "\n"@,
            Inst::Snez(rd, rs) => "  snez "@ + rd.text() + ", "@ + rs.text() + "\n"@,
            Inst::Bnez(rs, bb) => "  bnez "@ + rs.text() + ", "@ + block_label(program, *bb)
                + "\n"@,
            Inst::J(bb) => "  j "@ + block_label(program, *bb) + "\n"@,
            Inst::Call(f) => "  call "@ + func_label(program, *f) + "\n"@,
            Inst::Label(bb) => block_label(program, *bb) + ":\n"@,
        }
    }

    /// Writes the instruction at the end of `out`.
    pub fn write(&self, program: &Prog, out: &mut String)
        ensures
            final(out)@ == old(out)@ + self.text(program),
    {
        match self {
            Inst::Li(rd, imm) => {
                out.append("  li ");
                out.append(rd.name().as_str());
                out.append(", ");
                out.append(i32_string(*imm).as_str());
                out.append("\n");
            },
            Inst::La(rd, label) => {
                out.append("  la ");
                out.append(rd.name().as_str());
                out.append(", ");
                out.append(label.as_str());
                out.append("\n");
            },
            Inst::Mv(rd, rs) => {
                out.append("  mv ");
                out.append(rd.name().as_str());
                out.append(", ");
                out.append(rs.name().as_str());
                out.append("\n");
            },
            Inst::Lw(rd, rs) => {
                out.append("  lw ");
                out.append(rd.name().as_str());
                out.append(", 0(");
                out.append(rs.name().as_str());
                out.append(")\n");
            },
            Inst::Sw(rs, rb) => {
                out.append("  sw ");
                out.append(rs.name().as_str());
                out.append(", 0(");
                out.append(rb.name().as_str());
                out.append(")\n");
            },
            Inst::LwSp(rd, off) => {
                out.append("  lw ");
                out.append(rd.name().as_str());
                out.append(", ");
                out.append(usize_string(*off).as_str());
                out.append("(sp)\n");
            },
            Inst::SwSp(rs, off) => {
                out.append("  sw ");
                out.append(rs.name().as_str());
                out.append(", ");
                out.append(usize_string(*off).as_str());
                out.append("(sp)\n");
            },
            Inst::AddiSp(rd, off) => {
                out.append("  addi ");
                out.append(rd.name().as_str());
                out.append(", sp, ");
                out.append(usize_string(*off).as_str());
                out.append("\n");
            },
            Inst::AddSp(rd, rs) => {
                out.append("  add ");
                out.append(rd.name().as_str());
                out.append(", sp, ");
                out.append(rs.name().as_str());
                out.append("\n");
            },
            Inst::Op(op, rd, rs1, rs2) => {
                out.append("  ");
                out.append(op.name());
                out.append(" ");
                out.append(rd.name().as_str());
                out.append(", ");
                out.append(rs1.name().as_str());
                out.append(", ");
                out.append(rs2.name().as_str());
                out.append("\n");
            },
            Inst::Seqz(rd, rs) => {
                out.append("  seqz ");
                out.append(rd.name().as_str());
                out.append(", ");
                out.append(rs.name().as_str());
                out.append("\n");
            },
            Inst::Snez(rd, rs) => {
                out.append("  snez ");
                out.append(rd.name().as_str());
                out.append(", ");
                out.append(rs.name().as_str());
                out.append("\n");
            },
            Inst::Bnez(rs, bb) => {
                out.append("  bnez ");
                out.append(rs.name().as_str());
                out.append(", ");
                out.append(block_name(program, *bb).as_str());
                out.append("\n");
            },
            Inst::J(bb) => {
                out.append("  j ");
                out.append(block_name(program, *bb).as_str());
                out.append("\n");
            },
            Inst::Call(f) => {
                out.append("  call ");
                out.append(func_name(program, *f).as_str());
                out.append("\n");
            },
            Inst::Label(bb) => {
                out.append(block_name(program, *bb).as_str());
                out.append(":\n");
            },
        }
        assert(out@ =~= old(out)@ + self.text(program));
    }
}

/// One line of a function: the opening of its frame, the closing of its
/// frame with the return, or an instruction in between.
#[derive(Debug, PartialEq, Eq)]
pub enum Line {
    Open,
    Close,
    Inst(Inst),
}

/// The lines of a function keep its frame in order: the frame is opened
/// first and only once, every return closes it, and a function that makes a
/// call is a caller, so that its frame keeps `ra`.
pub open spec fn framed(lines: Seq<Line>, caller: bool) -> bool {
    &&& lines.len() > 0
    &&& lines[0] is Open
    &&& forall|i: int| 1 <= i < lines.len() ==> !((#[trigger] lines[i]) is Open)
    &&& caller || forall|i: int|
        0 <= i < lines.len() ==> !((#[trigger] lines[i]) matches Line::Inst(Inst::Call(_)))
}

} // verus!

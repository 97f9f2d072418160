//! The text of a program, as a function of the program.
//!
//! The writer goes through the program once and keeps in mind the name
//! that each value goes by, the next free register and the labels used up.
//! What it writes for one instruction depends on that and on nothing else;
//! the text of a block, of a function and of the program follow from it.

use vstd::prelude::*;
use crate::ir::label::Label;
use crate::ir::scope::Scope;
use crate::ir::translate::{op_text, remark, written};
use crate::ir::writer::{
    alloc_line,
    branch_line,
    call_line,
    decl_line,
    get_elem_ptr_line,
    get_ptr_line,
    global_alloc_line,
    init_ok,
    init_text,
    init_type,
    jump_line,
    load_line,
    op3_line,
    result_text,
    ret_line,
    store_line,
    ty_text,
};
use crate::mem::info::Info;
use crate::program::entities::{Bb, Func, Prog, Val, ValueKind};
use crate::program::types::Ty;
use crate::text::{decimal, joined, signed_decimal};

verus! {

/// What the writer keeps in mind.
pub struct Names {
    /// The name of each value that has one, by the value's number.
    pub names: Map<usize, Seq<char>>,
    /// The next free register.
    pub register: usize,
    /// The labels used up.
    pub label: Label,
}

/// What is written for a part of the program: the names afterwards and the
/// text; None when the part cannot be written.
pub type Written = Option<(Names, Seq<char>)>;

/// The text `acc`, then what `rest` gives.
pub open spec fn after(acc: Seq<char>, rest: Written) -> Written {
    match rest {
        Some((n, t)) => Some((n, acc + t)),
        None => None,
    }
}

impl Names {
    /// The name that `v` goes by, if it has one.
    pub open spec fn name(&self, v: Val) -> Option<Seq<char>> {
        if self.names.contains_key(v.id) {
            Some(self.names[v.id])
        } else {
            None
        }
    }

    /// An operand as it is written: an integer as its number, any other
    /// value by its name, if it has one.
    pub open spec fn operand(&self, program: &Prog, v: Val) -> Option<Seq<char>> {
        match program.kind(v) {
            ValueKind::Integer(n) => Some(signed_decimal(n as int)),
            _ => self.name(v),
        }
    }

    /// The operands as they are written, if each can be.
    pub open spec fn operands(&self, program: &Prog, args: Seq<Val>) -> Option<Seq<Seq<char>>> {
        if forall|i: int| 0 <= i < args.len() ==> self.operand(program, #[trigger] args[i]) is Some {
            Some(Seq::new(args.len(), |i: int| self.operand(program, args[i])->Some_0))
        } else {
            None
        }
    }

    /// The name of the next free register.
    pub open spec fn next(&self) -> Seq<char> {
        "%"@ + decimal(self.register as nat)
    }

    /// The names after `v` got the next free register for its name.
    pub open spec fn define(&self, v: Val) -> Names {
        Names {
            names: self.names.insert(v.id, self.next()),
            register: (self.register + 1) as usize,
            label: self.label,
        }
    }

    /// The names after `v` got the label `text`, with `label` for the
    /// labels used up.
    pub open spec fn bind(&self, v: Val, text: Seq<char>, label: Label) -> Names {
        Names { names: self.names.insert(v.id, text), register: self.register, label }
    }

    /// The next label of the given kind, and the labels used up after it;
    /// None when the labels of the kind have run out.
    pub open spec fn fresh(&self, global: bool, array: bool) -> Option<(Seq<char>, Label)> {
        let l = self.label;
        let count = if global {
            if array {
                l.global_arr
            } else {
                l.global_var
            }
        } else {
            if array {
                l.local_arr
            } else {
                l.local_var
            }
        };
        let text = (if global {
            if array {
                "@Garr"@
            } else {
                "@Gvar"@
            }
        } else {
            if array {
                "@arr"@
            } else {
                "@var"@
            }
        }) + decimal(count as nat);
        let next = (count + 1) as usize;
        if count == usize::MAX {
            None
        } else {
            Some(
                (
                    text,
                    if global {
                        if array {
                            Label { global_arr: next, ..l }
                        } else {
                            Label { global_var: next, ..l }
                        }
                    } else {
                        if array {
                            Label { local_arr: next, ..l }
                        } else {
                            Label { local_var: next, ..l }
                        }
                    },
                ),
            )
        }
    }
}

impl Scope {
    /// What the scope keeps in mind of names.
    pub open spec fn pen(&self) -> Names {
        Names {
            names: Map::new(
                |k: usize| self.values@.contains_key(k),
                |k: usize| self.values@[k].text(),
            ),
            register: self.register,
            label: self.label,
        }
    }
}

/// A step from `src` by `index`: `getelemptr` into an array, `getptr` along
/// a pointer.
pub open spec fn index_line(
    program: &Prog,
    v: Val,
    src: Val,
    index: Val,
    into_elem: bool,
    n: Names,
) -> Written {
    match (n.name(src), n.operand(program, index)) {
        (Some(s), Some(i)) => if n.register == usize::MAX {
            None
        } else {
            Some(
                (
                    n.define(v),
                    if into_elem {
                        remark("// get elem ptr"@) + get_elem_ptr_line(n.next(), s, i)
                    } else {
                        remark("// get ptr"@) + get_ptr_line(n.next(), s, i)
                    },
                ),
            )
        },
        _ => None,
    }
}

/// What is written for the value `v`: nothing for an integer, which is
/// written where it is used; a remark and a line for an instruction; a line
/// for a global allocation. A value that gets a name takes the next free
/// register, an allocation the next label of its kind.
pub open spec fn line_of(program: &Prog, info: &Info, v: Val, n: Names) -> Written {
    match program.kind(v) {
        ValueKind::Integer(_) => Some((n, Seq::empty())),
        ValueKind::Return(value) => match value {
            Some(x) => match n.operand(program, x) {
                Some(t) => Some((n, remark("// return"@) + ret_line(t))),
                None => None,
            },
            None => Some((n, remark("// return"@) + ret_line(Seq::empty()))),
        },
        ValueKind::Binary(op, lhs, rhs) => match (
            n.operand(program, lhs),
            n.operand(program, rhs),
        ) {
            (Some(l), Some(r)) => if n.register == usize::MAX {
                None
            } else {
                Some((n.define(v), remark("// binary"@) + op3_line(op_text(op), n.next(), l, r)))
            },
            _ => None,
        },
        ValueKind::Alloc => match program.ty(v) {
            Ty::Pointer(pointee) => match n.fresh(false, *pointee is Array) {
                Some((text, label)) => Some(
                    (n.bind(v, text, label), remark("// alloc"@) + alloc_line(text, *pointee)),
                ),
                None => None,
            },
            _ => None,
        },
        ValueKind::Load(src) => match n.name(src) {
            Some(s) => if n.register == usize::MAX {
                None
            } else {
                Some((n.define(v), remark("// load"@) + load_line(n.next(), s)))
            },
            None => None,
        },
        ValueKind::Store(value, dest) => match (n.operand(program, value), n.name(dest)) {
            (Some(s), Some(d)) => Some((n, remark("// store"@) + store_line(d, s))),
            _ => None,
        },
        ValueKind::Branch(cond, on_true, on_false) => match n.operand(program, cond) {
            Some(c) => Some(
                (
                    n,
                    remark("// branch"@) + branch_line(
                        c,
                        program.bbs[on_true.id as int].name@,
                        program.bbs[on_false.id as int].name@,
                    ),
                ),
            ),
            None => None,
        },
        ValueKind::Jump(to) => Some(
            (n, remark("// jump"@) + jump_line(program.bbs[to.id as int].name@)),
        ),
        ValueKind::Call(callee, args) => match n.operands(program, args@) {
            Some(texts) => if n.register == usize::MAX {
                None
            } else {
                Some(
                    (
                        n.define(v),
                        remark("// call"@) + call_line(
                            if program.funcs[callee.id as int].ret_ty == Ty::Int32 {
                                Some(n.next())
                            } else {
                                None
                            },
                            program.funcs[callee.id as int].name@,
                            texts,
                        ),
                    ),
                )
            },
            None => None,
        },
        ValueKind::GetElemPtr(src, index) => index_line(program, v, src, index, true, n),
        ValueKind::GetPtr(src, index) => index_line(program, v, src, index, false, n),
        ValueKind::GlobalAlloc(init) => if init_ok(program, info, init) {
            let ty = init_type(program, info, init);
            match n.fresh(true, ty is Array) {
                Some((text, label)) => Some(
                    (
                        n.bind(v, text, label),
                        "\n"@ + global_alloc_line(text, ty, init_text(program, info, init)),
                    ),
                ),
                None => None,
            }
        } else {
            None
        },
        _ => None,
    }
}

/// What is written for the instructions from `from` on.
pub open spec fn insts_text(program: &Prog, info: &Info, insts: Seq<Val>, from: int, n: Names) -> Written
    decreases insts.len() - from,
{
    if from < 0 || from >= insts.len() {
        Some((n, Seq::empty()))
    } else {
        match line_of(program, info, insts[from], n) {
            Some((m, t)) => after(t, insts_text(program, info, insts, from + 1, m)),
            None => None,
        }
    }
}

/// What is written for a block: its name, its instructions up to and
/// including the first that ends a block, and a bare `ret` when none does.
pub open spec fn block_text(program: &Prog, info: &Info, bb: Bb, n: Names) -> Written {
    let all = program.insts(bb);
    let insts = all.take(crate::ir::translate::cut(program, all));
    let closed = insts.len() > 0 && program.kind(insts.last()).is_terminator();
    match insts_text(program, info, insts, 0, n) {
        Some((m, t)) => Some(
            (
                m,
                program.bbs[bb.id as int].name@ + ":\n"@ + t + if closed {
                    Seq::empty()
                } else {
                    ret_line(Seq::empty())
                },
            ),
        ),
        None => None,
    }
}

/// What is written for the blocks from `from` on.
pub open spec fn blocks_text(program: &Prog, info: &Info, blocks: Seq<Bb>, from: int, n: Names) -> Written
    decreases blocks.len() - from,
{
    if from < 0 || from >= blocks.len() {
        Some((n, Seq::empty()))
    } else {
        match block_text(program, info, blocks[from], n) {
            Some((m, t)) => after(t, blocks_text(program, info, blocks, from + 1, m)),
            None => None,
        }
    }
}

/// The names and the texts of the parameters from `from` on: each gets the
/// next label of a local variable and is written as `label: type`.
pub open spec fn params_text(program: &Prog, params: Seq<Val>, from: int, n: Names) -> Option<
    (Names, Seq<Seq<char>>),
>
    decreases params.len() - from,
{
    if from < 0 || from >= params.len() {
        Some((n, Seq::empty()))
    } else {
        match n.fresh(false, false) {
            Some((text, label)) => match params_text(
                program,
                params,
                from + 1,
                n.bind(params[from], text, label),
            ) {
                Some((m, rest)) => Some(
                    (m, seq![text + ": "@ + ty_text(program.ty(params[from]))] + rest),
                ),
                None => None,
            },
            None => None,
        }
    }
}

/// The texts `acc`, then what `rest` gives.
pub open spec fn after_params(acc: Seq<Seq<char>>, rest: Option<(Names, Seq<Seq<char>>)>) -> Option<
    (Names, Seq<Seq<char>>),
> {
    match rest {
        Some((n, t)) => Some((n, acc + t)),
        None => None,
    }
}

/// The head of a function definition: `fun @name(@p: T, ..): T {`.
pub open spec fn head_line(name: Seq<char>, ret_ty: Ty, params: Seq<Seq<char>>) -> Seq<char> {
    "fun "@ + name + "("@ + joined(params, ", "@) + result_text(ret_ty) + " {\n"@
}

/// What is written for a function: a declaration as one line; a definition
/// as its head, the blocks that no branch left unwritten has for its
/// target, and a closing brace. The registers start over afterwards.
pub open spec fn func_text(program: &Prog, info: &Info, f: Func, n: Names) -> Written {
    let fd = program.funcs[f.id as int];
    if fd.bbs.len() == 0 {
        Some((n, decl_line(fd.name@, fd.params_ty@, fd.ret_ty)))
    } else {
        match params_text(program, fd.params@, 0, n) {
            Some((m, params)) => match blocks_text(
                program,
                info,
                written(program, fd.bbs@, fd.bbs.len() as int),
                0,
                m,
            ) {
                Some((last, t)) => Some(
                    (
                        Names { register: 0, ..last },
                        head_line(fd.name@, fd.ret_ty, params) + t + "}\n"@,
                    ),
                ),
                None => None,
            },
            None => None,
        }
    }
}

/// What is written for the global allocations from `from` on of the layout.
pub open spec fn globals_text(program: &Prog, info: &Info, from: int, n: Names) -> Written
    decreases program.inst_layout.len() - from,
{
    if from < 0 || from >= program.inst_layout.len() {
        Some((n, Seq::empty()))
    } else {
        let v = program.inst_layout[from];
        if program.kind(v) is GlobalAlloc {
            match line_of(program, info, v, n) {
                Some((m, t)) => after(t, globals_text(program, info, from + 1, m)),
                None => None,
            }
        } else {
            globals_text(program, info, from + 1, n)
        }
    }
}

/// What is written for the functions from `from` on.
pub open spec fn funcs_text(program: &Prog, info: &Info, from: int, n: Names) -> Written
    decreases program.funcs.len() - from,
{
    if from < 0 || from >= program.funcs.len() {
        Some((n, Seq::empty()))
    } else {
        match func_text(program, info, Func { id: from as usize }, n) {
            Some((m, t)) => after(t, funcs_text(program, info, from + 1, m)),
            None => None,
        }
    }
}

/// What is written for the program: the global allocations in the order
/// they were made, then the functions in the order they were made.
pub open spec fn program_text(program: &Prog, info: &Info, n: Names) -> Written {
    match globals_text(program, info, 0, n) {
        Some((m, t)) => after(t, funcs_text(program, info, 0, m)),
        None => None,
    }
}

/// The names before anything is written.
pub open spec fn no_names() -> Names {
    Names {
        names: Map::empty(),
        register: 0,
        label: Label { local_var: 0, local_arr: 0, global_var: 0, global_arr: 0 },
    }
}

/// The text first, then `t`, then what `rest` gives.
pub proof fn after_after(acc: Seq<char>, t: Seq<char>, rest: Written)
    ensures
        after(acc, after(t, rest)) == after(acc + t, rest),
{
    match rest {
        Some((n, u)) => {
            assert(acc + (t + u) =~= (acc + t) + u);
        },
        None => {},
    }
}

/// The names of a scope are what the scope gives for each value.
pub proof fn pen_agrees(program: &Prog, scope: &Scope)
    ensures
        forall|v: Val| #[trigger] scope.pen().name(v) == scope.name(v),
        forall|v: Val| #[trigger]
            scope.pen().operand(program, v) == crate::ir::translate::operand_text(program, scope, v),
{
}

/// A value that got the next free register has it for its name.
pub proof fn pen_defined(s1: &Scope, s0: &Scope, v: Val)
    requires
        crate::ir::translate::defined(s1, s0, v),
    ensures
        s1.pen() == s0.pen().define(v),
        s0.pen().next() == crate::ir::translate::next_register(s0),
{
    assert(s1.pen().names =~= s0.pen().define(v).names);
}

} // verus!

//! Writing a program out in the textual form.
//!
//! Of each block only the instructions up to and including the first one
//! that ends a block are written; a block that ends with none gets a bare
//! `ret`. A block that only a branch behind such an end leads to is left out.
//! Integers are written where they are used and get no line of their own.

use vstd::prelude::*;
use crate::ir::output::{
    after,
    after_after,
    after_params,
    block_text,
    blocks_text,
    func_text,
    funcs_text,
    globals_text,
    insts_text,
    line_of,
    params_text,
    pen_agrees,
    pen_defined,
    program_text,
};
use crate::ir::scope::{Entry, Scope};
use crate::ir::writer::{
    alloc_line,
    branch_line,
    call_line,
    get_elem_ptr_line,
    get_ptr_line,
    global_alloc_line,
    init_ok,
    init_text,
    init_type,
    jump_line,
    load_line,
    op3_line,
    param_texts,
    ret_line,
    store_line,
    ty_text,
    EmitError,
    Writer,
};
use crate::mem::info::Info;
use crate::program::entities::{Bb, BinOp, Func, FunctionData, Prog, Val, ValueData, ValueKind};
use crate::program::types::Ty;
use crate::text::{decimal, i32_string, signed_decimal, views};

verus! {

/// How many of the instructions are written: all up to and including the
/// first that ends a block.
pub open spec fn cut(program: &Prog, insts: Seq<Val>) -> int
    decreases insts.len(),
{
    if insts.len() == 0 {
        0
    } else if program.kind(insts[0]).is_terminator() {
        1
    } else {
        1 + cut(program, insts.drop_first())
    }
}

/// The blocks that the branches among the instructions lead to.
pub open spec fn branch_targets(program: &Prog, insts: Seq<Val>) -> Set<Bb>
    decreases insts.len(),
{
    if insts.len() == 0 {
        Set::empty()
    } else {
        let rest = branch_targets(program, insts.drop_last());
        match program.kind(insts.last()) {
            ValueKind::Branch(_, on_true, on_false) => rest.insert(on_true).insert(on_false),
            _ => rest,
        }
    }
}

/// The blocks that are left out on account of the first `k` blocks of the
/// layout: the targets of the branches that were not written in the blocks
/// that were.
pub open spec fn left_out(program: &Prog, layout: Seq<Bb>, k: int) -> Set<Bb>
    decreases k,
{
    if k <= 0 {
        Set::empty()
    } else {
        let before = left_out(program, layout, k - 1);
        let bb = layout[k - 1];
        if before.contains(bb) {
            before
        } else {
            let insts = program.insts(bb);
            before + branch_targets(program, insts.skip(cut(program, insts)))
        }
    }
}

/// The blocks among the first `k` of the layout that are written, in order.
pub open spec fn written(program: &Prog, layout: Seq<Bb>, k: int) -> Seq<Bb>
    decreases k,
{
    if k <= 0 {
        Seq::empty()
    } else {
        let before = written(program, layout, k - 1);
        if left_out(program, layout, k - 1).contains(layout[k - 1]) {
            before
        } else {
            before.push(layout[k - 1])
        }
    }
}

/// One block as it is written.
pub struct Emitted {
    pub bb: Bb,
    /// The instructions that are written.
    pub insts: Vec<Val>,
    /// Whether the last of them ends the block; a bare `ret` is written
    /// after them otherwise.
    pub closed: bool,
}

impl Emitted {
    /// The kinds of the instructions of the block as written, the bare `ret`
    /// included.
    pub open spec fn kinds(&self, program: &Prog) -> Seq<ValueKind> {
        let kinds = self.insts@.map_values(|v: Val| program.kind(v));
        if self.closed {
            kinds
        } else {
            kinds.push(ValueKind::Return(None))
        }
    }

    /// The block is written as the program has it, up to its first end.
    pub open spec fn faithful(&self, program: &Prog) -> bool {
        let insts = program.insts(self.bb);
        &&& self.insts@ == insts.take(cut(program, insts))
        &&& self.closed == (self.insts.len() > 0 && program.kind(self.insts@.last()).is_terminator())
    }

    /// The block as written has exactly one instruction that ends a block,
    /// and that is its last.
    pub open spec fn sealed(&self, program: &Prog) -> bool {
        let kinds = self.kinds(program);
        &&& kinds.len() > 0
        &&& kinds.last().is_terminator()
        &&& forall|i: int| 0 <= i < kinds.len() - 1 ==> !(#[trigger] kinds[i]).is_terminator()
    }
}

proof fn cut_bounds(program: &Prog, insts: Seq<Val>)
    ensures
        0 <= cut(program, insts) <= insts.len(),
        insts.len() > 0 ==> cut(program, insts) >= 1,
        forall|i: int|
            0 <= i < cut(program, insts) - 1 ==> !program.kind(#[trigger] insts[i]).is_terminator(),
        cut(program, insts) < insts.len() ==> program.kind(
            insts[cut(program, insts) - 1],
        ).is_terminator(),
        cut(program, insts) > 0 && !program.kind(insts[cut(program, insts) - 1]).is_terminator()
            ==> cut(program, insts) == insts.len(),
    decreases insts.len(),
{
    if insts.len() > 0 && !program.kind(insts[0]).is_terminator() {
        let rest = insts.drop_first();
        cut_bounds(program, rest);
        assert forall|i: int| 0 <= i < cut(program, insts) - 1 implies !program.kind(
            #[trigger] insts[i],
        ).is_terminator() by {
            if i > 0 {
                assert(insts[i] == rest[i - 1]);
            }
        }
        assert(cut(program, insts) == 1 + cut(program, rest));
        if cut(program, rest) > 0 {
            assert(insts[cut(program, insts) - 1] == rest[cut(program, rest) - 1]);
        }
    } else if insts.len() > 0 {
        assert(cut(program, insts) == 1);
    }
}

/// A block written faithfully is sealed.
pub proof fn faithful_is_sealed(program: &Prog, e: &Emitted)
    requires
        e.faithful(program),
    ensures
        e.sealed(program),
{
    let insts = program.insts(e.bb);
    cut_bounds(program, insts);
    let kinds = e.kinds(program);
    let n = e.insts@.len();
    assert forall|i: int| 0 <= i < kinds.len() - 1 implies !(#[trigger] kinds[i]).is_terminator() by {
        if e.closed {
            assert(kinds[i] == program.kind(e.insts@[i]));
            assert(e.insts@[i] == insts[i]);
        } else {
            assert(kinds[i] == program.kind(e.insts@[i]));
            assert(e.insts@[i] == insts[i]);
            if i == n - 1 {
            }
        }
    }
}

/// The kinds of what is written for a block of the program: those of its
/// instructions up to and including the first that ends a block, and that
/// of a bare `ret` when none does.
pub open spec fn written_kinds(program: &Prog, bb: Bb) -> Seq<ValueKind> {
    let all = program.insts(bb);
    let insts = all.take(cut(program, all));
    let kinds = insts.map_values(|v: Val| program.kind(v));
    if insts.len() > 0 && program.kind(insts.last()).is_terminator() {
        kinds
    } else {
        kinds.push(ValueKind::Return(None))
    }
}

/// Whatever the program and the block, what is written for the block has
/// exactly one instruction that ends a block, and that is its last: nothing
/// follows it.
pub proof fn one_terminator(program: &Prog, bb: Bb)
    ensures
        written_kinds(program, bb).len() > 0,
        written_kinds(program, bb).last().is_terminator(),
        forall|i: int|
            0 <= i < written_kinds(program, bb).len() - 1 ==> !(#[trigger] written_kinds(
                program,
                bb,
            )[i]).is_terminator(),
{
    let all = program.insts(bb);
    cut_bounds(program, all);
    let insts = all.take(cut(program, all));
    let kinds = written_kinds(program, bb);
    assert forall|i: int| 0 <= i < kinds.len() - 1 implies !(#[trigger] kinds[i]).is_terminator() by {
        assert(kinds[i] == program.kind(insts[i]));
        assert(insts[i] == all[i]);
    }
}

/// Cuts a block where it ends.
fn seal(program: &Prog, bb: Bb) -> (e: Emitted)
    requires
        program.wf(),
        program.has_bb(bb),
    ensures
        e.bb == bb,
        e.faithful(program),
        e.sealed(program),
{
    let insts = &program.bbs[bb.id].insts;
    let mut out: Vec<Val> = Vec::new();
    let mut closed = false;
    let mut k: usize = 0;
    proof {
        assert(program.bb_ok(bb.id as int));
        assert(insts@.skip(0) =~= insts@);
    }
    while k < insts.len() && !closed
        invariant
            k <= insts.len(),
            program.wf(),
            program.has_bb(bb),
            *insts == program.bbs[bb.id as int].insts,
            out@ == insts@.take(k as int),
            closed == (k > 0 && program.kind(insts@[k - 1]).is_terminator()),
            cut(program, insts@) == if closed {
                k as int
            } else {
                k + cut(program, insts@.skip(k as int))
            },
        decreases insts.len() - k + if closed { 0int } else { 1int },
    {
        let v = insts[k];
        proof {
            assert(program.bb_ok(bb.id as int));
            assert(program.has_value(program.bbs[bb.id as int].insts[k as int]));
            assert(insts@.skip(k as int)[0] == v);
            assert(insts@.skip(k as int).drop_first() =~= insts@.skip(k + 1));
            assert(insts@.take(k + 1) =~= insts@.take(k as int).push(v));
        }
        out.push(v);
        closed = program.value_kind(v).check_terminator();
        k += 1;
    }
    proof {
        if !closed {
            assert(insts@.skip(k as int).len() == 0);
        }
    }
    let e = Emitted { bb, insts: out, closed };
    proof {
        faithful_is_sealed(program, &e);
    }
    e
}

/// Marks the targets of the branches among the instructions from `from` on.
fn mark_targets(program: &Prog, insts: &Vec<Val>, from: usize, marks: &mut Vec<bool>, Ghost(
    set,
): Ghost<Set<Bb>>)
    requires
        program.wf(),
        from <= insts.len(),
        forall|i: int| 0 <= i < insts.len() ==> program.has_value(#[trigger] insts[i]),
        old(marks).len() == program.bbs.len(),
        forall|b: int| 0 <= b < old(marks).len() ==> old(marks)[b] == set.contains(
            Bb { id: b as usize },
        ),
    ensures
        final(marks).len() == program.bbs.len(),
        forall|b: int|
            0 <= b < final(marks).len() ==> final(marks)[b] == (set + branch_targets(
                program,
                insts@.skip(from as int),
            )).contains(Bb { id: b as usize }),
{
    let mut k: usize = from;
    proof {
        assert(insts@.skip(from as int).take(0).len() == 0);
    }
    while k < insts.len()
        invariant
            from <= k <= insts.len(),
            program.wf(),
            forall|i: int| 0 <= i < insts.len() ==> program.has_value(#[trigger] insts[i]),
            marks.len() == program.bbs.len(),
            forall|b: int|
                0 <= b < marks.len() ==> marks[b] == (set + branch_targets(
                    program,
                    insts@.skip(from as int).take(k - from),
                )).contains(Bb { id: b as usize }),
        decreases insts.len() - k,
    {
        let v = insts[k];
        proof {
            let part = insts@.skip(from as int).take(k - from + 1);
            assert(part.last() == v);
            assert(part.drop_last() =~= insts@.skip(from as int).take(k - from));
            assert(program.data_ok(program.values[v.id as int], v.id as int));
        }
        match program.value_kind(v) {
            ValueKind::Branch(_, on_true, on_false) => {
                marks[on_true.id] = true;
                marks[on_false.id] = true;
            },
            _ => {},
        }
        k += 1;
    }
    proof {
        assert(insts@.skip(from as int).take(k - from) =~= insts@.skip(from as int));
    }
}

/// The blocks of a function as they are written, in order.
pub fn plan(program: &Prog, func: Func) -> (blocks: Vec<Emitted>)
    requires
        program.wf(),
        program.has_func(func),
    ensures
        blocks@.map_values(|e: Emitted| e.bb) == written(
            program,
            program.funcs[func.id as int].bbs@,
            program.funcs[func.id as int].bbs.len() as int,
        ),
        forall|i: int|
            0 <= i < blocks.len() ==> (#[trigger] blocks[i]).faithful(program) && blocks[i].sealed(
                program,
            ) && program.has_bb(blocks[i].bb),
{
    let layout = &program.funcs[func.id].bbs;
    let mut marks: Vec<bool> = Vec::new();
    let mut b: usize = 0;
    while b < program.bbs.len()
        invariant
            b <= program.bbs.len(),
            marks.len() == b,
            forall|i: int| 0 <= i < b ==> !marks[i],
        decreases program.bbs.len() - b,
    {
        marks.push(false);
        b += 1;
    }
    let mut blocks: Vec<Emitted> = Vec::new();
    let mut k: usize = 0;
    proof {
        assert(blocks@.map_values(|e: Emitted| e.bb) =~= written(program, layout@, 0));
    }
    while k < layout.len()
        invariant
            k <= layout.len(),
            program.wf(),
            program.has_func(func),
            *layout == program.funcs[func.id as int].bbs,
            marks.len() == program.bbs.len(),
            forall|b: int|
                0 <= b < marks.len() ==> marks[b] == left_out(program, layout@, k as int).contains(
                    Bb { id: b as usize },
                ),
            blocks@.map_values(|e: Emitted| e.bb) == written(program, layout@, k as int),
            forall|i: int|
                0 <= i < blocks.len() ==> (#[trigger] blocks[i]).faithful(program)
                    && blocks[i].sealed(program) && program.has_bb(blocks[i].bb),
        decreases layout.len() - k,
    {
        let bb = layout[k];
        proof {
            assert(program.func_ok(func.id as int));
            assert(program.has_bb(program.funcs[func.id as int].bbs[k as int]));
            assert(bb == Bb { id: bb.id });
        }
        if !marks[bb.id] {
            let e = seal(program, bb);
            let from = e.insts.len();
            proof {
                assert(program.bb_ok(bb.id as int));
                cut_bounds(program, program.insts(bb));
            }
            mark_targets(
                program,
                &program.bbs[bb.id].insts,
                from,
                &mut marks,
                Ghost(left_out(program, layout@, k as int)),
            );
            let ghost before = blocks@;
            blocks.push(e);
            proof {
                assert(blocks@.map_values(|e: Emitted| e.bb) =~= before.map_values(
                    |e: Emitted| e.bb,
                ).push(bb));
            }
        }
        k += 1;
    }
    blocks
}

/// An operand as it is written: an integer as its number, any other value
/// by its name, if it has one.
pub open spec fn operand_text(program: &Prog, scope: &Scope, v: Val) -> Option<Seq<char>> {
    match program.kind(v) {
        ValueKind::Integer(n) => Some(signed_decimal(n as int)),
        _ => scope.name(v),
    }
}

/// Writes an operand.
pub fn operand(program: &Prog, scope: &Scope, v: Val) -> (r: Option<String>)
    requires
        program.has_value(v),
    ensures
        match r {
            Some(s) => operand_text(program, scope, v) == Some(s@),
            None => operand_text(program, scope, v) is None,
        },
{
    match program.value_kind(v) {
        ValueKind::Integer(n) => Some(i32_string(*n)),
        _ => scope.get(v),
    }
}

/// The name of a binary operator.
pub open spec fn op_text(op: BinOp) -> Seq<char> {
    match op {
        BinOp::Add => "add"@,
        BinOp::Sub => "sub"@,
        BinOp::Mul => "mul"@,
        BinOp::Div => "div"@,
        BinOp::Mod => "mod"@,
        BinOp::And => "and"@,
        BinOp::Or => "or"@,
        BinOp::Eq => "eq"@,
        BinOp::NotEq => "ne"@,
        BinOp::Lt => "lt"@,
        BinOp::Le => "le"@,
        BinOp::Gt => "gt"@,
        BinOp::Ge => "ge"@,
    }
}

pub fn op_name(op: BinOp) -> (s: &'static str)
    ensures
        s@ == op_text(op),
{
    match op {
        BinOp::Add => "add",
        BinOp::Sub => "sub",
        BinOp::Mul => "mul",
        BinOp::Div => "div",
        BinOp::Mod => "mod",
        BinOp::And => "and",
        BinOp::Or => "or",
        BinOp::Eq => "eq",
        BinOp::NotEq => "ne",
        BinOp::Lt => "lt",
        BinOp::Le => "le",
        BinOp::Gt => "gt",
        BinOp::Ge => "ge",
    }
}

/// `s1` is `s0` after the value `v` got the next free register for its name.
pub open spec fn defined(s1: &Scope, s0: &Scope, v: Val) -> bool {
    &&& s0.register < usize::MAX
    &&& s1.values@ == s0.values@.insert(v.id, Entry::Register(s0.register))
    &&& s1.register == s0.register + 1
    &&& s1.cur_func == s0.cur_func
    &&& s1.cur_value == s0.cur_value
    &&& s1.label == s0.label
}

/// The name of the next free register.
pub open spec fn next_register(s: &Scope) -> Seq<char> {
    "%"@ + decimal(s.register as nat)
}

/// What stands before each instruction: an empty line and a remark.
pub open spec fn remark(what: Seq<char>) -> Seq<char> {
    "\n"@ + what + "\n"@
}

fn define(scope: &mut Scope, v: Val) -> (name: String)
    requires
        old(scope).register < usize::MAX,
    ensures
        defined(final(scope), old(scope), v),
        name@ == next_register(old(scope)),
{
    let dst = scope.new_register();
    let name = dst.turn_into();
    scope.new_value(v, dst);
    name
}

/// `ret` with the value, if there is one.
pub fn translate_return(value: Option<Val>, program: &Prog, scope: &Scope, w: &mut Writer) -> (r:
    Result<(), EmitError>)
    requires
        value matches Some(x) ==> program.has_value(x),
    ensures
        match r {
            Ok(_) => match value {
                Some(x) => operand_text(program, scope, x) matches Some(t) && final(w).text@ == old(
                    w,
                ).text@ + remark("// return"@) + ret_line(t),
                None => final(w).text@ == old(w).text@ + remark("// return"@) + ret_line(
                    Seq::empty(),
                ),
            },
            Err(e) => {
                &&& e == EmitError::Unnamed
                &&& value matches Some(x) && operand_text(program, scope, x) is None
                &&& *final(w) == *old(w)
            },
        },
{
    let val = match value {
        Some(x) => match operand(program, scope, x) {
            Some(t) => t,
            None => {
                return Err(EmitError::Unnamed);
            },
        },
        None => String::new(),
    };
    w.line();
    w.note("// return");
    w.ret(val.as_str());
    proof {
        assert(w.text@ =~= old(w).text@ + remark("// return"@) + ret_line(val@));
    }
    Ok(())
}

/// `%n = op lhs, rhs`
pub fn translate_binary(
    v: Val,
    op: BinOp,
    lhs: Val,
    rhs: Val,
    program: &Prog,
    scope: &mut Scope,
    w: &mut Writer,
) -> (r: Result<(), EmitError>)
    requires
        program.has_value(lhs),
        program.has_value(rhs),
    ensures
        match r {
            Ok(_) => {
                &&& operand_text(program, old(scope), lhs) matches Some(l)
                &&& operand_text(program, old(scope), rhs) matches Some(r)
                &&& defined(final(scope), old(scope), v)
                &&& final(w).text@ == old(w).text@ + remark("// binary"@) + op3_line(
                    op_text(op),
                    next_register(old(scope)),
                    l,
                    r,
                )
            },
            Err(e) => {
                &&& *final(w) == *old(w)
                &&& *final(scope) == *old(scope)
                &&& e == if operand_text(program, old(scope), lhs) is None || operand_text(
                    program,
                    old(scope),
                    rhs,
                ) is None {
                    EmitError::Unnamed
                } else {
                    EmitError::TooManyNames
                }
                &&& operand_text(program, old(scope), lhs) is None || operand_text(
                    program,
                    old(scope),
                    rhs,
                ) is None || old(scope).register == usize::MAX
            },
        },
{
    let l = match operand(program, scope, lhs) {
        Some(t) => t,
        None => {
            return Err(EmitError::Unnamed);
        },
    };
    let r = match operand(program, scope, rhs) {
        Some(t) => t,
        None => {
            return Err(EmitError::Unnamed);
        },
    };
    if scope.register == usize::MAX {
        return Err(EmitError::TooManyNames);
    }
    let dst = define(scope, v);
    w.line();
    w.note("// binary");
    w.op3(op_name(op), dst.as_str(), l.as_str(), r.as_str());
    proof {
        assert(w.text@ =~= old(w).text@ + remark("// binary"@) + op3_line(
            op_text(op),
            next_register(old(scope)),
            l@,
            r@,
        ));
    }
    Ok(())
}

/// The label that an allocation gets: one of the arrays for an array, one
/// of the variables for anything else.
pub open spec fn alloc_label(scope: &Scope, pointee: Ty) -> Seq<char> {
    if pointee is Array {
        "@arr"@ + decimal(scope.label.local_arr as nat)
    } else {
        "@var"@ + decimal(scope.label.local_var as nat)
    }
}

/// `@name = alloc T`
pub fn translate_alloc(v: Val, program: &Prog, scope: &mut Scope, w: &mut Writer) -> (r: Result<
    (),
    EmitError,
>)
    requires
        program.has_value(v),
    ensures
        match r {
            Ok(_) => {
                &&& program.ty(v) matches Ty::Pointer(pointee)
                &&& final(scope).name(v) == Some(alloc_label(old(scope), *pointee))
                &&& final(scope).register == old(scope).register
                &&& final(w).text@ == old(w).text@ + remark("// alloc"@) + alloc_line(
                    alloc_label(old(scope), *pointee),
                    *pointee,
                )
            },
            Err(e) => {
                &&& *final(w) == *old(w)
                &&& *final(scope) == *old(scope)
                &&& e == if program.ty(v) is Pointer {
                    EmitError::TooManyNames
                } else {
                    EmitError::Unsupported
                }
            },
        },
        program.ty(v) matches Ty::Pointer(pointee) ==> match old(scope).pen().fresh(
            false,
            *pointee is Array,
        ) {
            Some((text, label)) => {
                &&& r is Ok
                &&& text == alloc_label(old(scope), *pointee)
                &&& final(scope).pen() == old(scope).pen().bind(v, text, label)
            },
            None => r is Err,
        },
{
    let pointee = match program.value_ty(v) {
        Ty::Pointer(pointee) => pointee,
        _ => {
            return Err(EmitError::Unsupported);
        },
    };
    let array = match &**pointee {
        Ty::Array(_, _) => true,
        _ => false,
    };
    let label = if array {
        if scope.label.local_arr == usize::MAX {
            return Err(EmitError::TooManyNames);
        }
        scope.label_mut().local_arr()
    } else {
        if scope.label.local_var == usize::MAX {
            return Err(EmitError::TooManyNames);
        }
        scope.label_mut().local_var()
    };
    w.line();
    w.note("// alloc");
    w.local_alloc(label.as_str(), pointee);
    let ghost text = label@;
    scope.new_value(v, Entry::Label(label));
    proof {
        assert(scope.pen().names =~= old(scope).pen().bind(v, text, scope.label).names);
        assert(w.text@ =~= old(w).text@ + remark("// alloc"@) + alloc_line(
            alloc_label(old(scope), **pointee),
            **pointee,
        ));
    }
    Ok(())
}

/// `%n = load src`
pub fn translate_load(v: Val, src: Val, scope: &mut Scope, w: &mut Writer) -> (r: Result<
    (),
    EmitError,
>)
    ensures
        match r {
            Ok(_) => {
                &&& old(scope).name(src) matches Some(s)
                &&& defined(final(scope), old(scope), v)
                &&& final(w).text@ == old(w).text@ + remark("// load"@) + load_line(
                    next_register(old(scope)),
                    s,
                )
            },
            Err(e) => {
                &&& *final(w) == *old(w)
                &&& *final(scope) == *old(scope)
                &&& e == if old(scope).name(src) is None {
                    EmitError::Unnamed
                } else {
                    EmitError::TooManyNames
                }
                &&& old(scope).name(src) is None || old(scope).register == usize::MAX
            },
        },
{
    let s = match scope.get(src) {
        Some(t) => t,
        None => {
            return Err(EmitError::Unnamed);
        },
    };
    if scope.register == usize::MAX {
        return Err(EmitError::TooManyNames);
    }
    let dst = define(scope, v);
    w.line();
    w.note("// load");
    w.load(dst.as_str(), s.as_str());
    proof {
        assert(w.text@ =~= old(w).text@ + remark("// load"@) + load_line(
            next_register(old(scope)),
            s@,
        ));
    }
    Ok(())
}

/// `store value, dest`
pub fn translate_store(value: Val, dest: Val, program: &Prog, scope: &Scope, w: &mut Writer) -> (r:
    Result<(), EmitError>)
    requires
        program.has_value(value),
    ensures
        match r {
            Ok(_) => {
                &&& operand_text(program, scope, value) matches Some(s)
                &&& scope.name(dest) matches Some(d)
                &&& final(w).text@ == old(w).text@ + remark("// store"@) + store_line(d, s)
            },
            Err(e) => {
                &&& *final(w) == *old(w)
                &&& e == EmitError::Unnamed
                &&& operand_text(program, scope, value) is None || scope.name(dest) is None
            },
        },
{
    let s = match operand(program, scope, value) {
        Some(t) => t,
        None => {
            return Err(EmitError::Unnamed);
        },
    };
    let d = match scope.get(dest) {
        Some(t) => t,
        None => {
            return Err(EmitError::Unnamed);
        },
    };
    w.line();
    w.note("// store");
    w.store(d.as_str(), s.as_str());
    proof {
        assert(w.text@ =~= old(w).text@ + remark("// store"@) + store_line(d@, s@));
    }
    Ok(())
}

/// `br cond, %on_true, %on_false`
pub fn translate_branch(
    cond: Val,
    on_true: Bb,
    on_false: Bb,
    program: &Prog,
    scope: &Scope,
    w: &mut Writer,
) -> (r: Result<(), EmitError>)
    requires
        program.has_value(cond),
        program.has_bb(on_true),
        program.has_bb(on_false),
    ensures
        match r {
            Ok(_) => {
                &&& operand_text(program, scope, cond) matches Some(c)
                &&& final(w).text@ == old(w).text@ + remark("// branch"@) + branch_line(
                    c,
                    program.bbs[on_true.id as int].name@,
                    program.bbs[on_false.id as int].name@,
                )
            },
            Err(e) => {
                &&& *final(w) == *old(w)
                &&& e == EmitError::Unnamed
                &&& operand_text(program, scope, cond) is None
            },
        },
{
    let c = match operand(program, scope, cond) {
        Some(t) => t,
        None => {
            return Err(EmitError::Unnamed);
        },
    };
    w.line();
    w.note("// branch");
    w.branch(
        c.as_str(),
        program.bbs[on_true.id].name.as_str(),
        program.bbs[on_false.id].name.as_str(),
    );
    proof {
        assert(w.text@ =~= old(w).text@ + remark("// branch"@) + branch_line(
            c@,
            program.bbs[on_true.id as int].name@,
            program.bbs[on_false.id as int].name@,
        ));
    }
    Ok(())
}

/// `jump %to`
pub fn translate_jump(to: Bb, program: &Prog, w: &mut Writer)
    requires
        program.has_bb(to),
    ensures
        final(w).text@ == old(w).text@ + remark("// jump"@) + jump_line(
            program.bbs[to.id as int].name@,
        ),
{
    w.line();
    w.note("// jump");
    w.jump(program.bbs[to.id].name.as_str());
    proof {
        assert(w.text@ =~= old(w).text@ + remark("// jump"@) + jump_line(
            program.bbs[to.id as int].name@,
        ));
    }
}

/// The operands as they are written, when every one can be.
pub open spec fn operands_text(program: &Prog, scope: &Scope, args: Seq<Val>, texts: Seq<
    Seq<char>,
>) -> bool {
    &&& texts.len() == args.len()
    &&& forall|i: int|
        0 <= i < args.len() ==> operand_text(program, scope, #[trigger] args[i]) == Some(texts[i])
}

/// `%n = call @callee(args)` for a callee that returns an integer, `call
/// @callee(args)` for any other; the call takes up a register either way.
pub fn translate_call(
    v: Val,
    callee: Func,
    args: &Vec<Val>,
    program: &Prog,
    scope: &mut Scope,
    w: &mut Writer,
) -> (r: Result<(), EmitError>)
    requires
        program.has_func(callee),
        forall|i: int| 0 <= i < args.len() ==> program.has_value(#[trigger] args[i]),
    ensures
        match r {
            Ok(_) => {
                &&& defined(final(scope), old(scope), v)
                &&& exists|texts: Seq<Seq<char>>| #[trigger]
                    operands_text(program, old(scope), args@, texts) && final(w).text@ == old(
                        w,
                    ).text@ + remark("// call"@) + call_line(
                        if program.funcs[callee.id as int].ret_ty == Ty::Int32 {
                            Some(next_register(old(scope)))
                        } else {
                            None
                        },
                        program.funcs[callee.id as int].name@,
                        texts,
                    )
            },
            Err(e) => {
                &&& *final(w) == *old(w)
                &&& *final(scope) == *old(scope)
                &&& e == EmitError::Unnamed || e == EmitError::TooManyNames
                &&& e == EmitError::Unnamed ==> exists|i: int|
                    0 <= i < args.len() && operand_text(program, old(scope), #[trigger] args[i])
                        is None
                &&& e == EmitError::TooManyNames ==> old(scope).register == usize::MAX
            },
        },
{
    let mut texts: Vec<String> = Vec::new();
    let mut k: usize = 0;
    while k < args.len()
        invariant
            k <= args.len(),
            texts.len() == k,
            *scope == *old(scope),
            forall|i: int| 0 <= i < args.len() ==> program.has_value(#[trigger] args[i]),
            forall|i: int|
                0 <= i < k ==> operand_text(program, scope, #[trigger] args[i]) == Some(texts[i]@),
        decreases args.len() - k,
    {
        match operand(program, scope, args[k]) {
            Some(t) => {
                texts.push(t);
            },
            None => {
                return Err(EmitError::Unnamed);
            },
        }
        k += 1;
    }
    if scope.register == usize::MAX {
        return Err(EmitError::TooManyNames);
    }
    let dst = define(scope, v);
    w.line();
    w.note("// call");
    let shown = program.funcs[callee.id].ret_ty.check_i32();
    let name = program.funcs[callee.id].name.as_str();
    if shown {
        w.call(Some(dst.as_str()), name, &texts);
    } else {
        w.call(None, name, &texts);
    }
    proof {
        let t = views(texts@);
        assert(operands_text(program, old(scope), args@, t));
        assert(w.text@ =~= old(w).text@ + remark("// call"@) + call_line(
            if shown {
                Some(next_register(old(scope)))
            } else {
                None
            },
            program.funcs[callee.id as int].name@,
            t,
        ));
    }
    Ok(())
}

/// `%n = getelemptr src, index`, or `%n = getptr src, index` when not
/// `into_elem`.
pub fn translate_index(
    v: Val,
    src: Val,
    index: Val,
    into_elem: bool,
    program: &Prog,
    scope: &mut Scope,
    w: &mut Writer,
) -> (r: Result<(), EmitError>)
    requires
        program.has_value(index),
    ensures
        match r {
            Ok(_) => {
                &&& old(scope).name(src) matches Some(s)
                &&& operand_text(program, old(scope), index) matches Some(i)
                &&& defined(final(scope), old(scope), v)
                &&& final(w).text@ == old(w).text@ + if into_elem {
                    remark("// get elem ptr"@) + get_elem_ptr_line(next_register(old(scope)), s, i)
                } else {
                    remark("// get ptr"@) + get_ptr_line(next_register(old(scope)), s, i)
                }
            },
            Err(e) => {
                &&& *final(w) == *old(w)
                &&& *final(scope) == *old(scope)
                &&& e == if old(scope).name(src) is None || operand_text(
                    program,
                    old(scope),
                    index,
                ) is None {
                    EmitError::Unnamed
                } else {
                    EmitError::TooManyNames
                }
                &&& old(scope).name(src) is None || operand_text(program, old(scope), index)
                    is None || old(scope).register == usize::MAX
            },
        },
{
    let s = match scope.get(src) {
        Some(t) => t,
        None => {
            return Err(EmitError::Unnamed);
        },
    };
    let i = match operand(program, scope, index) {
        Some(t) => t,
        None => {
            return Err(EmitError::Unnamed);
        },
    };
    if scope.register == usize::MAX {
        return Err(EmitError::TooManyNames);
    }
    let dst = define(scope, v);
    w.line();
    if into_elem {
        w.note("// get elem ptr");
        w.get_elem_ptr(dst.as_str(), s.as_str(), i.as_str());
        proof {
            assert(w.text@ =~= old(w).text@ + (remark("// get elem ptr"@) + get_elem_ptr_line(
                next_register(old(scope)),
                s@,
                i@,
            )));
        }
    } else {
        w.note("// get ptr");
        w.get_ptr(dst.as_str(), s.as_str(), i.as_str());
        proof {
            assert(w.text@ =~= old(w).text@ + (remark("// get ptr"@) + get_ptr_line(
                next_register(old(scope)),
                s@,
                i@,
            )));
        }
    }
    Ok(())
}

/// `%n = getelemptr src, index`
pub fn translate_get_elem_ptr(
    v: Val,
    src: Val,
    index: Val,
    program: &Prog,
    scope: &mut Scope,
    w: &mut Writer,
) -> (r: Result<(), EmitError>)
    requires
        program.has_value(index),
    ensures
        r is Ok ==> defined(final(scope), old(scope), v),
        r matches Ok(_) ==> old(scope).name(src) matches Some(s) && operand_text(
            program,
            old(scope),
            index,
        ) matches Some(i) && final(w).text@ == old(w).text@ + (remark("// get elem ptr"@)
            + get_elem_ptr_line(next_register(old(scope)), s, i)),
        r is Err ==> *final(w) == *old(w) && *final(scope) == *old(scope),
        r is Err ==> old(scope).name(src) is None || operand_text(program, old(scope), index)
            is None || old(scope).register == usize::MAX,
{
    translate_index(v, src, index, true, program, scope, w)
}

/// `%n = getptr src, index`
pub fn translate_get_ptr(
    v: Val,
    src: Val,
    index: Val,
    program: &Prog,
    scope: &mut Scope,
    w: &mut Writer,
) -> (r: Result<(), EmitError>)
    requires
        program.has_value(index),
    ensures
        r is Ok ==> defined(final(scope), old(scope), v),
        r matches Ok(_) ==> old(scope).name(src) matches Some(s) && operand_text(
            program,
            old(scope),
            index,
        ) matches Some(i) && final(w).text@ == old(w).text@ + (remark("// get ptr"@) + get_ptr_line(
            next_register(old(scope)),
            s,
            i,
        )),
        r is Err ==> *final(w) == *old(w) && *final(scope) == *old(scope),
        r is Err ==> old(scope).name(src) is None || operand_text(program, old(scope), index)
            is None || old(scope).register == usize::MAX,
{
    translate_index(v, src, index, false, program, scope, w)
}

/// The label that a global allocation gets: one of the arrays for an
/// array, one of the variables for anything else.
pub open spec fn global_label(scope: &Scope, ty: Ty) -> Seq<char> {
    if ty is Array {
        "@Garr"@ + decimal(scope.label.global_arr as nat)
    } else {
        "@Gvar"@ + decimal(scope.label.global_var as nat)
    }
}

/// `global @name = alloc T, init`, after an empty line.
pub fn translate_global_alloc(
    v: Val,
    init: Val,
    program: &Prog,
    scope: &mut Scope,
    w: &mut Writer,
    info: &Info,
) -> (r: Result<(), EmitError>)
    requires
        program.has_value(init),
    ensures
        match r {
            Ok(_) => {
                &&& init_ok(program, info, init)
                &&& final(scope).name(v) == Some(
                    global_label(old(scope), init_type(program, info, init)),
                )
                &&& final(scope).register == old(scope).register
                &&& final(w).text@ == old(w).text@ + "\n"@ + global_alloc_line(
                    global_label(old(scope), init_type(program, info, init)),
                    init_type(program, info, init),
                    init_text(program, info, init),
                )
            },
            Err(e) => {
                &&& *final(w) == *old(w)
                &&& *final(scope) == *old(scope)
                &&& e == if init_ok(program, info, init) {
                    EmitError::TooManyNames
                } else {
                    EmitError::Unsupported
                }
            },
        },
        init_ok(program, info, init) ==> match old(scope).pen().fresh(
            true,
            init_type(program, info, init) is Array,
        ) {
            Some((text, label)) => r is Ok && text == global_label(
                old(scope),
                init_type(program, info, init),
            ) && final(scope).pen() == old(scope).pen().bind(v, text, label),
            None => r is Err,
        },
{
    let values = w.to_init(init, program, info)?;
    let ty = w.to_type(init, program, info);
    let array = match &ty {
        Ty::Array(_, _) => true,
        _ => false,
    };
    let label = if array {
        if scope.label.global_arr == usize::MAX {
            return Err(EmitError::TooManyNames);
        }
        scope.label_mut().global_arr()
    } else {
        if scope.label.global_var == usize::MAX {
            return Err(EmitError::TooManyNames);
        }
        scope.label_mut().global_var()
    };
    w.line();
    w.global_alloc(label.as_str(), &ty, values.as_str());
    let ghost text = label@;
    scope.new_value(v, Entry::Label(label));
    proof {
        assert(scope.pen().names =~= old(scope).pen().bind(v, text, scope.label).names);
    }
    Ok(())
}

/// The operands that are written one by one are the operands as the names
/// give them.
proof fn operands_agree(program: &Prog, scope: &Scope, args: Seq<Val>, texts: Seq<Seq<char>>)
    requires
        operands_text(program, scope, args, texts),
    ensures
        scope.pen().operands(program, args) == Some(texts),
{
    pen_agrees(program, scope);
    let n = scope.pen();
    assert forall|i: int| 0 <= i < args.len() implies n.operand(program, #[trigger] args[i])
        is Some by {
        assert(operand_text(program, scope, args[i]) == Some(texts[i]));
    }
    assert(Seq::new(args.len(), |i: int| n.operand(program, args[i])->Some_0) =~= texts) by {
        assert forall|i: int| 0 <= i < args.len() implies n.operand(program, args[i])->Some_0
            == texts[i] by {
            assert(operand_text(program, scope, args[i]) == Some(texts[i]));
        }
    }
}

impl ValueData {
    /// Writes the value `v`, which this is, as [`line_of`] has it: an
    /// instruction as a remark and a line, a global allocation as a line;
    /// an integer has no line of its own.
    pub fn translate(
        &self,
        v: Val,
        program: &Prog,
        scope: &mut Scope,
        w: &mut Writer,
        info: &Info,
    ) -> (r: Result<(), EmitError>)
        requires
            program.wf(),
            program.has_value(v),
            *self == program.values[v.id as int],
        ensures
            match line_of(program, info, v, old(scope).pen()) {
                Some((n, t)) => r is Ok && final(scope).pen() == n && final(w).text@ == old(w).text@
                    + t,
                None => r is Err,
            },
            old(w).text@.is_prefix_of(final(w).text@),
            self.kind is Integer ==> r is Ok && *final(w) == *old(w) && *final(scope) == *old(scope),
            self.kind is ZeroInit || self.kind is Aggregate || self.kind is FuncArgRef ==> r == Err::<
                (),
                EmitError,
            >(EmitError::Unsupported),
            r is Err ==> *final(w) == *old(w),
    {
        proof {
            assert(program.data_ok(program.values[v.id as int], v.id as int));
            pen_agrees(program, scope);
            assert(w.text@ + Seq::<char>::empty() =~= w.text@);
        }
        match &self.kind {
            ValueKind::Integer(_) => Ok(()),
            ValueKind::Return(value) => {
                let r = translate_return(*value, program, scope, w);
                proof {
                    if r is Ok {
                        let t = line_of(program, info, v, old(scope).pen())->Some_0.1;
                        assert(w.text@ =~= old(w).text@ + t);
                    }
                }
                r
            },
            ValueKind::Binary(op, lhs, rhs) => {
                let r = translate_binary(v, *op, *lhs, *rhs, program, scope, w);
                proof {
                    if r is Ok {
                        pen_defined(scope, old(scope), v);
                        let t = line_of(program, info, v, old(scope).pen())->Some_0.1;
                        assert(w.text@ =~= old(w).text@ + t);
                    }
                }
                r
            },
            ValueKind::Alloc => {
                let r = translate_alloc(v, program, scope, w);
                proof {
                    if r is Ok {
                        let t = line_of(program, info, v, old(scope).pen())->Some_0.1;
                        assert(w.text@ =~= old(w).text@ + t);
                    }
                }
                r
            },
            ValueKind::Load(src) => {
                let r = translate_load(v, *src, scope, w);
                proof {
                    if r is Ok {
                        pen_defined(scope, old(scope), v);
                        let t = line_of(program, info, v, old(scope).pen())->Some_0.1;
                        assert(w.text@ =~= old(w).text@ + t);
                    }
                }
                r
            },
            ValueKind::Store(value, dest) => {
                let r = translate_store(*value, *dest, program, scope, w);
                proof {
                    if r is Ok {
                        let t = line_of(program, info, v, old(scope).pen())->Some_0.1;
                        assert(w.text@ =~= old(w).text@ + t);
                    }
                }
                r
            },
            ValueKind::Branch(cond, on_true, on_false) => {
                let r = translate_branch(*cond, *on_true, *on_false, program, scope, w);
                proof {
                    if r is Ok {
                        let t = line_of(program, info, v, old(scope).pen())->Some_0.1;
                        assert(w.text@ =~= old(w).text@ + t);
                    }
                }
                r
            },
            ValueKind::Jump(to) => {
                translate_jump(*to, program, w);
                proof {
                    let t = line_of(program, info, v, old(scope).pen())->Some_0.1;
                    assert(w.text@ =~= old(w).text@ + t);
                }
                Ok(())
            },
            ValueKind::Call(callee, args) => {
                proof {
                    assert forall|i: int| 0 <= i < args.len() implies program.has_value(
                        #[trigger] args[i],
                    ) by {
                        assert(program.operand(self.func, args@[i], v.id as int));
                    }
                }
                let r = translate_call(v, *callee, args, program, scope, w);
                proof {
                    if r is Ok {
                        pen_defined(scope, old(scope), v);
                        let texts = choose|texts: Seq<Seq<char>>| #[trigger]
                            operands_text(program, old(scope), args@, texts) && w.text@ == old(
                                w,
                            ).text@ + remark("// call"@) + call_line(
                                if program.funcs[callee.id as int].ret_ty == Ty::Int32 {
                                    Some(next_register(old(scope)))
                                } else {
                                    None
                                },
                                program.funcs[callee.id as int].name@,
                                texts,
                            );
                        operands_agree(program, old(scope), args@, texts);
                        let t = line_of(program, info, v, old(scope).pen())->Some_0.1;
                        assert(w.text@ =~= old(w).text@ + t);
                    }
                }
                r
            },
            ValueKind::GetElemPtr(src, index) => {
                let r = translate_get_elem_ptr(v, *src, *index, program, scope, w);
                proof {
                    if r is Ok {
                        pen_defined(scope, old(scope), v);
                    }
                }
                r
            },
            ValueKind::GetPtr(src, index) => {
                let r = translate_get_ptr(v, *src, *index, program, scope, w);
                proof {
                    if r is Ok {
                        pen_defined(scope, old(scope), v);
                    }
                }
                r
            },
            ValueKind::GlobalAlloc(init) => {
                let r = translate_global_alloc(v, *init, program, scope, w, info);
                proof {
                    if r is Ok {
                        let t = line_of(program, info, v, old(scope).pen())->Some_0.1;
                        assert(w.text@ =~= old(w).text@ + t);
                    }
                }
                r
            },
            _ => Err(EmitError::Unsupported),
        }
    }
}

/// Gives each parameter the next label of a local variable, as
/// [`params_text`] has it, and says how each is written in the head.
fn name_params(program: &Prog, func: Func, scope: &mut Scope) -> (r: Result<
    Vec<(String, Ty)>,
    EmitError,
>)
    requires
        program.wf(),
        program.has_func(func),
    ensures
        match params_text(program, program.funcs[func.id as int].params@, 0, old(scope).pen()) {
            Some((n, texts)) => r matches Ok(params) && final(scope).pen() == n && param_texts(
                params@,
            ) == texts,
            None => r is Err,
        },
{
    let ghost list = program.funcs[func.id as int].params@;
    let ghost first = scope.pen();
    let mut params: Vec<(String, Ty)> = Vec::new();
    let mut k: usize = 0;
    proof {
        assert(program.func_ok(func.id as int));
        assert(Seq::<Seq<char>>::empty() + Seq::<Seq<char>>::empty() =~= Seq::<Seq<char>>::empty());
        assert(param_texts(params@) =~= Seq::<Seq<char>>::empty());
        match params_text(program, list, 0, first) {
            Some((n, t)) => {
                assert(Seq::<Seq<char>>::empty() + t =~= t);
            },
            None => {},
        }
    }
    while k < program.funcs[func.id].params.len()
        invariant
            first == old(scope).pen(),
            k <= list.len(),
            program.wf(),
            program.has_func(func),
            list == program.funcs[func.id as int].params@,
            params_text(program, list, 0, first) == after_params(
                param_texts(params@),
                params_text(program, list, k as int, scope.pen()),
            ),
        decreases list.len() - k,
    {
        let ghost cur = scope.pen();
        let ghost acc = param_texts(params@);
        proof {
            assert(params_text(program, list, k as int, cur) == match cur.fresh(false, false) {
                Some((text, label)) => match params_text(
                    program,
                    list,
                    k + 1,
                    cur.bind(list[k as int], text, label),
                ) {
                    Some((m, rest)) => Some(
                        (m, seq![text + ": "@ + ty_text(program.ty(list[k as int]))] + rest),
                    ),
                    None => None,
                },
                None => None,
            });
        }
        if scope.label.local_var == usize::MAX {
            return Err(EmitError::TooManyNames);
        }
        let label = scope.label_mut().local_var();
        let p = program.funcs[func.id].params[k];
        proof {
            assert(program.func_ok(func.id as int));
            assert(program.has_value(program.funcs[func.id as int].params[k as int]));
        }
        let ghost text = label@;
        scope.new_value(p, Entry::Label(label.clone()));
        params.push((label, program.value_ty(p).clone()));
        proof {
            assert(scope.pen().names =~= cur.bind(p, text, scope.label).names);
            assert(scope.pen() == cur.bind(p, text, scope.label));
            let x = text + ": "@ + ty_text(program.ty(p));
            assert(param_texts(params@) =~= acc.push(x));
            match params_text(program, list, k + 1, scope.pen()) {
                Some((m, rest)) => {
                    assert(acc + (seq![x] + rest) =~= acc.push(x) + rest);
                },
                None => {},
            }
        }
        k += 1;
    }
    proof {
        assert(param_texts(params@) + Seq::<Seq<char>>::empty() =~= param_texts(params@));
    }
    Ok(params)
}

/// Writes one block, as [`block_text`] has it.
fn write_block(block: &Emitted, program: &Prog, scope: &mut Scope, w: &mut Writer, info: &Info) -> (r:
    Result<(), EmitError>)
    requires
        program.wf(),
        program.has_bb(block.bb),
        block.faithful(program),
    ensures
        match block_text(program, info, block.bb, old(scope).pen()) {
            Some((n, t)) => r is Ok && final(scope).pen() == n && final(w).text@ == old(w).text@ + t,
            None => r is Err,
        },
{
    let ghost first = scope.pen();
    let ghost insts = block.insts@;
    w.bb_bg(program.bbs[block.bb.id].name.as_str());
    let ghost start = w.text@;
    let ghost acc = Seq::<char>::empty();
    proof {
        assert(start + acc =~= start);
        match insts_text(program, info, insts, 0, first) {
            Some((n, t)) => {
                assert(acc + t =~= t);
            },
            None => {},
        }
    }
    let mut i: usize = 0;
    while i < block.insts.len()
        invariant
            first == old(scope).pen(),
            i <= block.insts.len(),
            program.wf(),
            program.has_bb(block.bb),
            block.faithful(program),
            insts == block.insts@,
            start == old(w).text@ + program.bbs[block.bb.id as int].name@ + ":\n"@,
            w.text@ == start + acc,
            insts_text(program, info, insts, 0, first) == after(
                acc,
                insts_text(program, info, insts, i as int, scope.pen()),
            ),
        decreases block.insts.len() - i,
    {
        let v = block.insts[i];
        proof {
            let all = program.insts(block.bb);
            cut_bounds(program, all);
            assert(block.insts@[i as int] == all[i as int]);
            assert(program.bb_ok(block.bb.id as int));
            assert(program.has_value(program.bbs[block.bb.id as int].insts[i as int]));
        }
        let ghost cur = scope.pen();
        scope.set_cur_value(Some(v));
        proof {
            assert(scope.pen().names =~= cur.names);
            assert(scope.pen() == cur);
            assert(insts_text(program, info, insts, i as int, cur) == match line_of(
                program,
                info,
                v,
                cur,
            ) {
                Some((m, t)) => after(t, insts_text(program, info, insts, i + 1, m)),
                None => None,
            });
        }
        program.values[v.id].translate(v, program, scope, w, info)?;
        proof {
            let t = line_of(program, info, v, cur)->Some_0.1;
            after_after(acc, t, insts_text(program, info, insts, i + 1, scope.pen()));
            assert(start + acc + t =~= start + (acc + t));
            acc = acc + t;
        }
        i += 1;
    }
    if !block.closed {
        w.ret("");
    }
    proof {
        let t = block_text(program, info, block.bb, first)->Some_0.1;
        assert(acc + Seq::<char>::empty() =~= acc);
        reveal_strlit("");
        assert(""@ =~= Seq::<char>::empty());
        assert(w.text@ =~= old(w).text@ + t);
    }
    Ok(())
}

/// Writes the blocks, as [`blocks_text`] has it.
fn write_blocks(
    blocks: &Vec<Emitted>,
    program: &Prog,
    func: Func,
    scope: &mut Scope,
    w: &mut Writer,
    info: &Info,
) -> (r: Result<(), EmitError>)
    requires
        program.wf(),
        program.has_func(func),
        forall|i: int| 0 <= i < blocks.len() ==> (#[trigger] blocks[i]).faithful(program),
        blocks@.map_values(|e: Emitted| e.bb) == written(
            program,
            program.funcs[func.id as int].bbs@,
            program.funcs[func.id as int].bbs.len() as int,
        ),
    ensures
        match blocks_text(
            program,
            info,
            written(
                program,
                program.funcs[func.id as int].bbs@,
                program.funcs[func.id as int].bbs.len() as int,
            ),
            0,
            old(scope).pen(),
        ) {
            Some((n, t)) => r is Ok && final(scope).pen() == n && final(w).text@ == old(w).text@ + t,
            None => r is Err,
        },
{
    let ghost first = scope.pen();
    let ghost bbs = written(
        program,
        program.funcs[func.id as int].bbs@,
        program.funcs[func.id as int].bbs.len() as int,
    );
    let ghost start = w.text@;
    let ghost acc = Seq::<char>::empty();
    proof {
        assert(start + acc =~= start);
        match blocks_text(program, info, bbs, 0, first) {
            Some((n, t)) => {
                assert(acc + t =~= t);
            },
            None => {},
        }
        written_exist(
            program,
            program.funcs[func.id as int].bbs@,
            program.funcs[func.id as int].bbs.len() as int,
            func,
        );
    }
    proof {
        assert(blocks@.map_values(|e: Emitted| e.bb).len() == blocks.len());
    }
    let mut b: usize = 0;
    while b < blocks.len()
        invariant
            first == old(scope).pen(),
            b <= blocks.len(),
            program.wf(),
            program.has_func(func),
            forall|i: int| 0 <= i < blocks.len() ==> (#[trigger] blocks[i]).faithful(program),
            bbs == written(
                program,
                program.funcs[func.id as int].bbs@,
                program.funcs[func.id as int].bbs.len() as int,
            ),
            bbs.len() == blocks.len(),
            blocks@.map_values(|e: Emitted| e.bb) == bbs,
            forall|i: int| 0 <= i < bbs.len() ==> program.has_bb(#[trigger] bbs[i]),
            start == old(w).text@,
            w.text@ == start + acc,
            blocks_text(program, info, bbs, 0, first) == after(
                acc,
                blocks_text(program, info, bbs, b as int, scope.pen()),
            ),
        decreases blocks.len() - b,
    {
        let block = &blocks[b];
        let ghost cur = scope.pen();
        proof {
            assert(blocks@.map_values(|e: Emitted| e.bb)[b as int] == block.bb);
            assert(bbs.len() == blocks.len());
            assert(program.has_bb(bbs[b as int]));
        }
        proof {
            assert(bbs[b as int] == block.bb);
            assert(blocks_text(program, info, bbs, b as int, cur) == match block_text(
                program,
                info,
                block.bb,
                cur,
            ) {
                Some((m, t)) => after(t, blocks_text(program, info, bbs, b + 1, m)),
                None => None,
            });
        }
        write_block(block, program, scope, w, info)?;
        proof {
            let t = block_text(program, info, block.bb, cur)->Some_0.1;
            after_after(acc, t, blocks_text(program, info, bbs, b + 1, scope.pen()));
            assert(start + acc + t =~= start + (acc + t));
            acc = acc + t;
        }
        b += 1;
    }
    proof {
        assert(bbs.len() == blocks.len());
        assert(acc + Seq::<char>::empty() =~= acc);
    }
    Ok(())
}

impl FunctionData {
    /// Writes the function `func`, which this is, as [`func_text`] has it: a
    /// declaration as one line, a definition as its head, its blocks as
    /// [`plan`] gives them, and a closing brace. The registers start over at
    /// zero afterwards.
    pub fn translate(
        &self,
        func: Func,
        program: &Prog,
        scope: &mut Scope,
        w: &mut Writer,
        info: &Info,
    ) -> (r: Result<(), EmitError>)
        requires
            program.wf(),
            program.has_func(func),
            *self == program.funcs[func.id as int],
        ensures
            match func_text(program, info, func, old(scope).pen()) {
                Some((n, t)) => r is Ok && final(scope).pen() == n && final(w).text@ == old(w).text@
                    + t,
                None => r is Err,
            },
            self.bbs.len() == 0 ==> r is Ok && *final(scope) == *old(scope),
            self.bbs.len() > 0 && r is Ok ==> final(scope).register == 0,
    {
        if self.bbs.len() == 0 {
            w.decl(self.name.as_str(), &self.params_ty, &self.ret_ty);
            return Ok(());
        }
        let ghost first = scope.pen();
        let params = name_params(program, func, scope)?;
        w.func_bg(self.name.as_str(), &self.ret_ty, &params);
        let ghost head = w.text@;
        let blocks = plan(program, func);
        write_blocks(&blocks, program, func, scope, w, info)?;
        let ghost last = scope.pen();
        w.func_ed();
        scope.clear_register();
        proof {
            let t = func_text(program, info, func, first)->Some_0.1;
            assert(scope.pen().names =~= last.names);
            assert(w.text@ =~= old(w).text@ + t);
        }
        Ok(())
    }
}

/// The blocks that are written are blocks of the program.
proof fn written_exist(program: &Prog, layout: Seq<Bb>, k: int, func: Func)
    requires
        program.wf(),
        program.has_func(func),
        layout == program.funcs[func.id as int].bbs@,
        0 <= k <= layout.len(),
    ensures
        forall|i: int|
            0 <= i < written(program, layout, k).len() ==> program.has_bb(
                #[trigger] written(program, layout, k)[i],
            ),
    decreases k,
{
    if k > 0 {
        written_exist(program, layout, k - 1, func);
        assert(program.func_ok(func.id as int));
        assert(program.has_bb(program.funcs[func.id as int].bbs[k - 1]));
        let before = written(program, layout, k - 1);
        let now = written(program, layout, k);
        assert forall|i: int| 0 <= i < now.len() implies program.has_bb(#[trigger] now[i]) by {
            if i < before.len() {
                assert(now[i] == before[i]);
            }
        }
    }
}

/// Writes the global allocations, as [`globals_text`] has it.
fn write_globals(program: &Prog, scope: &mut Scope, w: &mut Writer, info: &Info) -> (r: Result<
    (),
    EmitError,
>)
    requires
        program.wf(),
    ensures
        match globals_text(program, info, 0, old(scope).pen()) {
            Some((n, t)) => r is Ok && final(scope).pen() == n && final(w).text@ == old(w).text@ + t,
            None => r is Err,
        },
{
    let ghost first = scope.pen();
    let ghost start = w.text@;
    let ghost acc = Seq::<char>::empty();
    proof {
        assert(start + acc =~= start);
        match globals_text(program, info, 0, first) {
            Some((n, t)) => {
                assert(acc + t =~= t);
            },
            None => {},
        }
    }
    let mut k: usize = 0;
    while k < program.inst_layout.len()
        invariant
            first == old(scope).pen(),
            k <= program.inst_layout.len(),
            program.wf(),
            start == old(w).text@,
            w.text@ == start + acc,
            globals_text(program, info, 0, first) == after(
                acc,
                globals_text(program, info, k as int, scope.pen()),
            ),
        decreases program.inst_layout.len() - k,
    {
        let v = program.inst_layout[k];
        proof {
            assert(program.global_ok(k as int));
        }
        let ghost cur = scope.pen();
        scope.set_cur_value(Some(v));
        proof {
            assert(scope.pen().names =~= cur.names);
            assert(scope.pen() == cur);
            assert(globals_text(program, info, k as int, cur) == if program.kind(v) is GlobalAlloc {
                match line_of(program, info, v, cur) {
                    Some((m, t)) => after(t, globals_text(program, info, k + 1, m)),
                    None => None,
                }
            } else {
                globals_text(program, info, k + 1, cur)
            });
        }
        match &program.values[v.id].kind {
            ValueKind::GlobalAlloc(_) => {
                program.values[v.id].translate(v, program, scope, w, info)?;
                proof {
                    let t = line_of(program, info, v, cur)->Some_0.1;
                    after_after(acc, t, globals_text(program, info, k + 1, scope.pen()));
                    assert(start + acc + t =~= start + (acc + t));
                    acc = acc + t;
                }
            },
            _ => {},
        }
        k += 1;
    }
    proof {
        assert(acc + Seq::<char>::empty() =~= acc);
    }
    Ok(())
}

/// Writes the functions, as [`funcs_text`] has it.
fn write_funcs(program: &Prog, scope: &mut Scope, w: &mut Writer, info: &Info) -> (r: Result<
    (),
    EmitError,
>)
    requires
        program.wf(),
    ensures
        match funcs_text(program, info, 0, old(scope).pen()) {
            Some((n, t)) => r is Ok && final(scope).pen() == n && final(w).text@ == old(w).text@ + t,
            None => r is Err,
        },
{
    let ghost first = scope.pen();
    let ghost start = w.text@;
    let ghost acc = Seq::<char>::empty();
    proof {
        assert(start + acc =~= start);
        match funcs_text(program, info, 0, first) {
            Some((n, t)) => {
                assert(acc + t =~= t);
            },
            None => {},
        }
    }
    let mut f: usize = 0;
    while f < program.funcs.len()
        invariant
            first == old(scope).pen(),
            f <= program.funcs.len(),
            program.wf(),
            start == old(w).text@,
            w.text@ == start + acc,
            funcs_text(program, info, 0, first) == after(
                acc,
                funcs_text(program, info, f as int, scope.pen()),
            ),
        decreases program.funcs.len() - f,
    {
        let func = Func { id: f };
        let ghost cur = scope.pen();
        scope.set_cur_func(Some(func));
        proof {
            assert(scope.pen().names =~= cur.names);
            assert(scope.pen() == cur);
            assert(funcs_text(program, info, f as int, cur) == match func_text(
                program,
                info,
                func,
                cur,
            ) {
                Some((m, t)) => after(t, funcs_text(program, info, f + 1, m)),
                None => None,
            });
        }
        program.funcs[f].translate(func, program, scope, w, info)?;
        proof {
            let t = func_text(program, info, func, cur)->Some_0.1;
            after_after(acc, t, funcs_text(program, info, f + 1, scope.pen()));
            assert(start + acc + t =~= start + (acc + t));
            acc = acc + t;
        }
        f += 1;
    }
    proof {
        assert(acc + Seq::<char>::empty() =~= acc);
    }
    Ok(())
}

impl Prog {
    /// Writes the program, as [`program_text`] has it: the global
    /// allocations in the order they were made, then the functions in the
    /// order they were made.
    pub fn translate(&self, scope: &mut Scope, w: &mut Writer, info: &Info) -> (r: Result<
        (),
        EmitError,
    >)
        requires
            self.wf(),
        ensures
            match program_text(self, info, old(scope).pen()) {
                Some((n, t)) => r is Ok && final(scope).pen() == n && final(w).text@ == old(w).text@
                    + t,
                None => r is Err,
            },
    {
        let ghost first = scope.pen();
        write_globals(self, scope, w, info)?;
        let ghost mid = scope.pen();
        write_funcs(self, scope, w, info)?;
        proof {
            let t = globals_text(self, info, 0, first)->Some_0.1;
            let u = funcs_text(self, info, 0, mid)->Some_0.1;
            assert(old(w).text@ + t + u =~= old(w).text@ + (t + u));
        }
        Ok(())
    }
}

/// The blocks and instructions that a plan holds are blocks and values of
/// the program.
pub proof fn plan_values_exist(program: &Prog, e: &Emitted)
    requires
        program.wf(),
        program.has_bb(e.bb),
        e.faithful(program),
    ensures
        forall|i: int| 0 <= i < e.insts.len() ==> program.has_value(#[trigger] e.insts[i]),
{
    let insts = program.insts(e.bb);
    cut_bounds(program, insts);
    assert(program.bb_ok(e.bb.id as int));
    assert forall|i: int| 0 <= i < e.insts.len() implies program.has_value(
        #[trigger] e.insts[i],
    ) by {
        assert(e.insts@[i] == insts[i]);
        assert(program.has_value(program.bbs[e.bb.id as int].insts[i]));
    }
}

} // verus!

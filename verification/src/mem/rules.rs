//! The rules of lowering.
//!
//! Lowering goes from one state of the front end to the next by steps, each
//! of which makes one value or one block. A script is a run of steps; a
//! rule says of a node of the tree which scripts, between the lowerings of
//! its parts, lower it: `node.lowers(a, b, ..)` holds when lowering the
//! node in the state `a` ends in the state `b`.

use vstd::prelude::*;
use crate::ast::{
    AddExp,
    AddOp,
    Assign,
    Block,
    BlockItem,
    Call,
    EqExp,
    EqOp,
    Exp,
    If,
    LAndExp,
    LOrExp,
    LVal,
    MulExp,
    MulOp,
    PrimaryExp,
    RelExp,
    RelOp,
    Return,
    Stmt,
    UnaryExp,
    UnaryOp,
    While,
};
use crate::mem::create::{access_of, Access};
use crate::mem::emit::{args_fit, can_index, emitted, index_data, stamped};
use crate::mem::info::{born, Info, ValueInfo};
use crate::mem::label::{numbered, Label};
use crate::mem::scope::{find_func, lookup, Entry, Scope};
use crate::program::entities::{Bb, BinOp, Func, Prog, Val, ValueData, ValueKind};
use crate::program::types::Ty;

verus! {

/// The state of the front end at one moment.
pub struct State {
    pub program: Prog,
    pub scope: Scope,
    pub info: Info,
}

/// The state that the three parts of the front end make.
pub open spec fn state(program: &Prog, scope: &Scope, info: &Info) -> State {
    State { program: *program, scope: *scope, info: *info }
}

impl State {
    /// The value that the next step makes, if it makes one.
    pub open spec fn next(&self) -> Val {
        Val { id: self.program.values.len() }
    }

    /// The value that the step after `k` more steps makes, if each of them
    /// makes a value.
    pub open spec fn nth(&self, k: nat) -> Val {
        Val { id: (self.program.values.len() + k) as usize }
    }

    /// The block that the next step makes, if it makes one.
    pub open spec fn next_bb(&self) -> Bb {
        Bb { id: self.program.bbs.len() }
    }

    /// The block that the step after `k` more steps makes, if each of them
    /// makes a block.
    pub open spec fn nth_bb(&self, k: nat) -> Bb {
        Bb { id: (self.program.bbs.len() + k) as usize }
    }
}

/// One step of lowering.
pub enum Step {
    /// `integer n`
    Integer(i32),
    /// `alloc ty`
    Alloc(Ty),
    /// `load src`
    Load(Val),
    /// `store value, dest`
    Store(Val, Val),
    /// `getelemptr src, index`, or `getptr src, index` when the flag is off.
    Index(Val, Val, bool),
    /// `op x, y`
    Binary(BinOp, Val, Val),
    /// `br cond, on_true, on_false`
    Branch(Val, Bb, Bb),
    /// `jump to`
    Jump(Bb),
    /// `ret`, or `ret x`
    Ret(Option<Val>),
    /// `call callee(args)`
    Call(Func, Seq<Val>),
    /// A new block with the given name, in no layout yet.
    Block(Seq<char>),
    /// The block is laid out at the end of the function under construction
    /// and becomes the block under construction.
    Enter(Bb),
    /// The next triple of `if` labels is used up.
    IfLabels,
    /// The next triple of `while` labels is used up.
    WhileLabels,
    /// A loop is entered: `continue` goes to the first block from now on,
    /// `break` to the second.
    Loop(Bb, Bb),
    /// The innermost loop is left.
    Unloop,
    /// A frame of names is opened.
    Open,
    /// The innermost frame of names is closed.
    Close,
    /// The name is bound in the innermost frame.
    Bind(Seq<char>, Entry),
    /// The bookkeeping of the function under construction is over: no
    /// function and no block are under construction.
    Leave,
    /// The function becomes the function under construction.
    Start(Func),
    /// The dimensions of the array that is being declared are noted.
    Dims(Seq<usize>),
    /// The aggregate of the given constants.
    Aggregate(Seq<Val>),
    /// A global allocation that starts out as the given constant.
    GlobalAlloc(Val),
    /// The constant is noted as an array of the given dimensions with
    /// nothing but zeros in it.
    Zero(Val, Seq<usize>),
    /// A new function with the given name, parameter types and result
    /// type; when the flag is on it is a definition, and its parameters
    /// are made and stamped one after the other.
    Function(Seq<char>, Seq<Ty>, Ty, bool),
    /// The name is entered into the table of functions.
    Name(Seq<char>, Func),
}

/// The stamps `m` after the making, from the time `now` on, of `n` values
/// whose ids start at `first`.
pub open spec fn born_in_a_row(m: Map<usize, ValueInfo>, first: nat, now: nat, n: nat) -> Map<
    usize,
    ValueInfo,
>
    decreases n,
{
    if n == 0 {
        m
    } else {
        born_in_a_row(m, first, now, (n - 1) as nat).insert(
            (first + n - 1) as usize,
            born((now + n - 1) as usize),
        )
    }
}

/// The program `b` is the program `a` with one more function, of the given
/// signature: no blocks yet and, for a definition, one parameter value for
/// each parameter type, in order, at the end of the arena of values.
pub open spec fn with_function(
    b: &Prog,
    a: &Prog,
    name: Seq<char>,
    params_ty: Seq<Ty>,
    ret_ty: Ty,
    defined: bool,
) -> bool {
    let fd = b.funcs[a.funcs.len() as int];
    let n = if defined {
        params_ty.len()
    } else {
        0
    };
    &&& b.funcs.len() == a.funcs.len() + 1
    &&& forall|g: int| 0 <= g < a.funcs.len() ==> b.funcs[g] == a.funcs[g]
    &&& fd.name@ == name
    &&& fd.params_ty@ == params_ty
    &&& fd.ret_ty == ret_ty
    &&& fd.bbs@ == Seq::<Bb>::empty()
    &&& fd.params.len() == n
    &&& b.values.len() == a.values.len() + n
    &&& forall|i: int| 0 <= i < a.values.len() ==> b.values[i] == a.values[i]
    &&& forall|k: int|
        0 <= k < n ==> {
            &&& (#[trigger] fd.params[k]).id == a.values.len() + k
            &&& b.values[a.values.len() + k] == (ValueData {
                ty: params_ty[k],
                kind: ValueKind::FuncArgRef(k as usize),
                func: Some(Func { id: a.funcs.len() }),
            })
        }
    &&& b.bbs == a.bbs
    &&& b.inst_layout == a.inst_layout
}

/// The scope `t` is the scope `s` but for the names in sight and the stack
/// of loops.
pub open spec fn same_cursor(t: Scope, s: Scope) -> bool {
    &&& t.funcs == s.funcs
    &&& t.cur_func == s.cur_func
    &&& t.cur_bb == s.cur_bb
    &&& t.array_info == s.array_info
    &&& t.label == s.label
}

/// From `a` to `b` the one value `a.next()` is made, with the content
/// `data`: it stands at the end of the arena and, inside a function, at
/// the end of the block under construction; it is stamped, and the use of
/// `uses` is noted.
pub open spec fn emits(a: State, b: State, data: ValueData, uses: Seq<Val>) -> bool {
    &&& b.scope == a.scope
    &&& emitted(&b.program, &a.program, &a.scope, a.next(), data)
    &&& stamped(&b.info, &a.info, a.next(), uses)
}

/// The step leads from `a` to `b`.
#[verifier::opaque]
pub open spec fn does(a: State, step: Step, b: State) -> bool {
    let owner = a.scope.cur_func;
    match step {
        Step::Integer(n) => emits(
            a,
            b,
            ValueData { ty: Ty::Int32, kind: ValueKind::Integer(n), func: owner },
            Seq::empty(),
        ),
        Step::Alloc(ty) => {
            &&& owner is Some
            &&& ty != Ty::Unit
            &&& emits(
                a,
                b,
                ValueData { ty: Ty::Pointer(Box::new(ty)), kind: ValueKind::Alloc, func: owner },
                Seq::empty(),
            )
        },
        Step::Load(src) => {
            &&& owner is Some
            &&& a.program.ty(src) is Pointer
            &&& emits(
                a,
                b,
                ValueData {
                    ty: *a.program.ty(src)->Pointer_0,
                    kind: ValueKind::Load(src),
                    func: owner,
                },
                seq![src],
            )
        },
        Step::Store(value, dest) => {
            &&& owner is Some
            &&& a.program.ty(dest) == Ty::Pointer(Box::new(a.program.ty(value)))
            &&& emits(
                a,
                b,
                ValueData { ty: Ty::Unit, kind: ValueKind::Store(value, dest), func: owner },
                seq![value, dest],
            )
        },
        Step::Index(src, index, into_elem) => {
            &&& owner is Some
            &&& can_index(&a.program, src, index, into_elem)
            &&& emits(a, b, index_data(&a.program, owner, src, index, into_elem), seq![index, src])
        },
        Step::Binary(op, x, y) => {
            &&& owner is Some
            &&& a.program.ty(x) == Ty::Int32
            &&& a.program.ty(y) == Ty::Int32
            &&& emits(
                a,
                b,
                ValueData { ty: Ty::Int32, kind: ValueKind::Binary(op, x, y), func: owner },
                seq![x, y],
            )
        },
        Step::Branch(cond, on_true, on_false) => {
            &&& a.program.ty(cond) == Ty::Int32
            &&& emits(
                a,
                b,
                ValueData {
                    ty: Ty::Unit,
                    kind: ValueKind::Branch(cond, on_true, on_false),
                    func: owner,
                },
                seq![cond],
            )
        },
        Step::Jump(to) => emits(
            a,
            b,
            ValueData { ty: Ty::Unit, kind: ValueKind::Jump(to), func: owner },
            Seq::empty(),
        ),
        Step::Ret(value) => {
            &&& owner is Some
            &&& value matches Some(x) ==> a.program.ty(x) != Ty::Unit
            &&& emits(
                a,
                b,
                ValueData { ty: Ty::Unit, kind: ValueKind::Return(value), func: owner },
                match value {
                    Some(x) => seq![x],
                    None => Seq::empty(),
                },
            )
        },
        Step::Call(callee, args) => {
            &&& owner is Some
            &&& args_fit(&a.program, args, a.program.funcs[callee.id as int].params_ty@)
            &&& b.program.ty(a.next()) == a.program.funcs[callee.id as int].ret_ty
            &&& b.program.kind(a.next()) matches ValueKind::Call(f, x) && f == callee && x@ == args
            &&& b.program.data(a.next()).func == owner
            &&& emits(a, b, b.program.data(a.next()), args)
        },
        Step::Block(name) => {
            &&& b.scope == a.scope
            &&& b.info == a.info
            &&& owner matches Some(f)
            &&& b.program.bbs.len() == a.program.bbs.len() + 1
            &&& forall|c: int| 0 <= c < a.program.bbs.len() ==> b.program.bbs[c] == a.program.bbs[c]
            &&& b.program.bbs[a.next_bb().id as int].name@ == name
            &&& b.program.bbs[a.next_bb().id as int].func == f
            &&& b.program.insts(a.next_bb()) == Seq::<Val>::empty()
            &&& b.program.values == a.program.values
            &&& b.program.funcs == a.program.funcs
            &&& b.program.inst_layout == a.program.inst_layout
        },
        Step::Enter(bb) => {
            &&& b.scope == (Scope { cur_bb: Some(bb), ..a.scope })
            &&& b.info == a.info
            &&& owner matches Some(f)
            &&& b.program.funcs.len() == a.program.funcs.len()
            &&& b.program.funcs[f.id as int].bbs@ == a.program.funcs[f.id as int].bbs@.push(bb)
            &&& b.program.funcs[f.id as int].name == a.program.funcs[f.id as int].name
            &&& b.program.funcs[f.id as int].params_ty == a.program.funcs[f.id as int].params_ty
            &&& b.program.funcs[f.id as int].ret_ty == a.program.funcs[f.id as int].ret_ty
            &&& b.program.funcs[f.id as int].params == a.program.funcs[f.id as int].params
            &&& forall|g: int|
                0 <= g < a.program.funcs.len() && g != f.id ==> #[trigger] b.program.funcs[g]
                    == a.program.funcs[g]
            &&& b.program.values == a.program.values
            &&& b.program.bbs == a.program.bbs
            &&& b.program.inst_layout == a.program.inst_layout
        },
        Step::IfLabels => {
            &&& b.program == a.program
            &&& b.info == a.info
            &&& a.scope.label.if_counter < usize::MAX
            &&& b.scope == (Scope {
                label: Label {
                    if_counter: (a.scope.label.if_counter + 1) as usize,
                    while_counter: a.scope.label.while_counter,
                },
                ..a.scope
            })
        },
        Step::WhileLabels => {
            &&& b.program == a.program
            &&& b.info == a.info
            &&& a.scope.label.while_counter < usize::MAX
            &&& b.scope == (Scope {
                label: Label {
                    if_counter: a.scope.label.if_counter,
                    while_counter: (a.scope.label.while_counter + 1) as usize,
                },
                ..a.scope
            })
        },
        Step::Loop(entry, end) => {
            &&& b.program == a.program
            &&& b.info == a.info
            &&& same_cursor(b.scope, a.scope)
            &&& b.scope.values == a.scope.values
            &&& b.scope.loop_info@ == a.scope.loop_info@.push((entry, end))
        },
        Step::Unloop => {
            &&& b.program == a.program
            &&& b.info == a.info
            &&& same_cursor(b.scope, a.scope)
            &&& b.scope.values == a.scope.values
            &&& a.scope.loop_info.len() > 0
            &&& b.scope.loop_info@ == a.scope.loop_info@.drop_last()
        },
        Step::Open => {
            &&& b.program == a.program
            &&& b.info == a.info
            &&& same_cursor(b.scope, a.scope)
            &&& b.scope.loop_info == a.scope.loop_info
            &&& b.scope.frames() == a.scope.frames().push(Seq::empty())
        },
        Step::Close => {
            &&& b.program == a.program
            &&& b.info == a.info
            &&& same_cursor(b.scope, a.scope)
            &&& b.scope.loop_info == a.scope.loop_info
            &&& a.scope.frames().len() > 0
            &&& b.scope.frames() == a.scope.frames().drop_last()
        },
        Step::Bind(id, entry) => {
            &&& b.program == a.program
            &&& b.info == a.info
            &&& same_cursor(b.scope, a.scope)
            &&& b.scope.loop_info == a.scope.loop_info
            &&& a.scope.frames().len() > 0
            &&& b.scope.frames() == a.scope.frames().update(
                a.scope.frames().len() - 1,
                a.scope.frames().last().push((id, entry)),
            )
        },
        Step::Leave => {
            &&& b.program == a.program
            &&& b.info == a.info
            &&& b.scope == (Scope { cur_func: None, cur_bb: None, ..a.scope })
        },
        Step::Start(f) => {
            &&& b.program == a.program
            &&& b.info == a.info
            &&& b.scope == (Scope { cur_func: Some(f), ..a.scope })
        },
        Step::Dims(dims) => {
            &&& b.program == a.program
            &&& b.info == a.info
            &&& b.scope == (Scope { array_info: b.scope.array_info, ..a.scope })
            &&& b.scope.array_info@ == dims
        },
        Step::Aggregate(elems) => {
            &&& owner is None
            &&& elems.len() > 0
            &&& b.program.kind(a.next()) matches ValueKind::Aggregate(e) && e@ == elems
            &&& b.program.ty(a.next()) == Ty::Array(
                Box::new(a.program.ty(elems[0])),
                elems.len() as usize,
            )
            &&& b.program.data(a.next()).func is None
            &&& emits(a, b, b.program.data(a.next()), Seq::empty())
        },
        Step::GlobalAlloc(init) => {
            &&& owner is None
            &&& b.scope == a.scope
            &&& b.program.added_global(
                &a.program,
                a.next(),
                (ValueData {
                    ty: Ty::Pointer(Box::new(a.program.ty(init))),
                    kind: ValueKind::GlobalAlloc(init),
                    func: None,
                }),
            )
            &&& stamped(&b.info, &a.info, a.next(), Seq::empty())
        },
        Step::Zero(init, dims) => {
            &&& b.program == a.program
            &&& b.scope == a.scope
            &&& b.info.counter == a.info.counter
            &&& b.info.value_infos == a.info.value_infos
            &&& b.info.zero_array_infos@.dom() == a.info.zero_array_infos@.dom().insert(init.id)
            &&& b.info.zero_dims(init) == Some(dims)
            &&& forall|k: usize|
                k != init.id && a.info.zero_array_infos@.contains_key(k)
                    ==> #[trigger] b.info.zero_array_infos@[k] == a.info.zero_array_infos@[k]
        },
        Step::Function(name, params_ty, ret_ty, defined) => {
            let n = if defined {
                params_ty.len()
            } else {
                0
            };
            &&& b.scope == a.scope
            &&& with_function(&b.program, &a.program, name, params_ty, ret_ty, defined)
            &&& b.info.zero_array_infos == a.info.zero_array_infos
            &&& b.info.counter == a.info.counter + n
            &&& b.info.value_infos@ == born_in_a_row(
                a.info.value_infos@,
                a.program.values.len() as nat,
                a.info.counter as nat,
                n,
            )
        },
        Step::Name(id, f) => {
            &&& b.program == a.program
            &&& b.info == a.info
            &&& b.scope.table() == a.scope.table().push((id, f))
            &&& b.scope.values == a.scope.values
            &&& b.scope.cur_func == a.scope.cur_func
            &&& b.scope.cur_bb == a.scope.cur_bb
            &&& b.scope.loop_info == a.scope.loop_info
            &&& b.scope.array_info == a.scope.array_info
            &&& b.scope.label == a.scope.label
        },
    }
}

/// The steps, one after the other, lead from `a` to `b`.
#[verifier::opaque]
pub open spec fn runs(a: State, steps: Seq<Step>, b: State) -> bool
    decreases steps.len(),
{
    if steps.len() == 0 {
        b == a
    } else {
        exists|m: State| runs(a, steps.drop_last(), m) && #[trigger] does(m, steps.last(), b)
    }
}

/// The step is not refused in the state `a`: the function under
/// construction, the types of the operands and the labels left allow it.
pub open spec fn able(a: State, step: Step) -> bool {
    let owner = a.scope.cur_func;
    match step {
        Step::Alloc(ty) => owner is Some && ty != Ty::Unit,
        Step::Load(src) => owner is Some && a.program.ty(src) is Pointer,
        Step::Store(value, dest) => owner is Some && a.program.ty(dest) == Ty::Pointer(
            Box::new(a.program.ty(value)),
        ),
        Step::Index(src, index, into_elem) => owner is Some && can_index(
            &a.program,
            src,
            index,
            into_elem,
        ),
        Step::Binary(_, x, y) => owner is Some && a.program.ty(x) == Ty::Int32 && a.program.ty(y)
            == Ty::Int32,
        Step::Branch(cond, _, _) => a.program.ty(cond) == Ty::Int32,
        Step::Ret(value) => owner is Some && (value matches Some(x) ==> a.program.ty(x)
            != Ty::Unit),
        Step::Call(callee, args) => owner is Some && args_fit(
            &a.program,
            args,
            a.program.funcs[callee.id as int].params_ty@,
        ),
        Step::IfLabels => a.scope.label.if_counter < usize::MAX,
        Step::WhileLabels => a.scope.label.while_counter < usize::MAX,
        _ => true,
    }
}

/// No step of the script is refused, in whatever state the steps before it
/// lead to.
#[verifier::opaque]
pub open spec fn script_sure(a: State, steps: Seq<Step>) -> bool {
    forall|k: int, m: State|
        0 <= k < steps.len() && #[trigger] runs(a, steps.take(k), m) ==> able(m, steps[k])
}

/// In a script that is sure, the step numbered `k` is not refused in the
/// state that the steps before it lead to.
pub proof fn sure_at(a: State, steps: Seq<Step>, k: int, before: Seq<Step>, m: State)
    requires
        script_sure(a, steps),
        0 <= k < steps.len(),
        before =~= steps.take(k),
        runs(a, before, m),
    ensures
        able(m, steps[k]),
{
    reveal(script_sure);
}

/// No step at all leads nowhere else.
pub proof fn runs_none(a: State)
    ensures
        runs(a, Seq::empty(), a),
{
    reveal(runs);
}

/// A run goes on by one step.
pub proof fn runs_on(a: State, steps: Seq<Step>, m: State, step: Step, b: State)
    requires
        runs(a, steps, m),
        does(m, step, b),
    ensures
        runs(a, steps.push(step), b),
{
    reveal(runs);
    let all = steps.push(step);
    assert(all.drop_last() =~= steps);
    assert(all.last() == step);
    assert(runs(a, all.drop_last(), m) && does(m, all.last(), b));
}

/// One run after another is a run.
pub proof fn runs_then(a: State, s: Seq<Step>, m: State, t: Seq<Step>, b: State)
    requires
        runs(a, s, m),
        runs(m, t, b),
    ensures
        runs(a, s + t, b),
    decreases t.len(),
{
    reveal(runs);
    if t.len() == 0 {
        assert(s + t =~= s);
    } else {
        let n = choose|n: State| runs(m, t.drop_last(), n) && #[trigger] does(n, t.last(), b);
        runs_then(a, s, m, t.drop_last(), n);
        assert((s + t).drop_last() =~= s + t.drop_last());
        assert((s + t).last() == t.last());
    }
}

/// The state `m` comes no earlier than the state `a`.
pub open spec fn follows(m: State, a: State) -> bool {
    a.program.values.len() <= m.program.values.len()
}

/// The one step leads from `a` to `b`.
pub open spec fn one(a: State, step: Step, b: State) -> bool {
    runs(a, seq![step], b)
}

/// A step is a run of one step.
pub proof fn step_one(a: State, step: Step, b: State)
    requires
        does(a, step, b),
    ensures
        one(a, step, b),
{
    runs_none(a);
    runs_on(a, Seq::empty(), a, step, b);
    assert(Seq::<Step>::empty().push(step) =~= seq![step]);
}

/// Two steps are a run of two steps.
pub proof fn step_two(a: State, x: Step, m: State, y: Step, b: State)
    requires
        does(a, x, m),
        does(m, y, b),
    ensures
        runs(a, seq![x, y], b),
{
    step_one(a, x, m);
    runs_on(a, seq![x], m, y, b);
    assert(seq![x].push(y) =~= seq![x, y]);
}

/// Three steps are a run of three steps.
pub proof fn step_three(a: State, x: Step, m: State, y: Step, n: State, z: Step, b: State)
    requires
        does(a, x, m),
        does(m, y, n),
        does(n, z, b),
    ensures
        runs(a, seq![x, y, z], b),
{
    step_two(a, x, m, y, n);
    runs_on(a, seq![x, y], n, z, b);
    assert(seq![x, y].push(z) =~= seq![x, y, z]);
}

/// The operator of the instruction for a multiplicative operator.
pub open spec fn mul_op(op: MulOp) -> BinOp {
    match op {
        MulOp::Mul => BinOp::Mul,
        MulOp::Div => BinOp::Div,
        MulOp::Mod => BinOp::Mod,
    }
}

pub open spec fn add_op(op: AddOp) -> BinOp {
    match op {
        AddOp::Add => BinOp::Add,
        AddOp::Sub => BinOp::Sub,
    }
}

pub open spec fn rel_op(op: RelOp) -> BinOp {
    match op {
        RelOp::Lt => BinOp::Lt,
        RelOp::Gt => BinOp::Gt,
        RelOp::Le => BinOp::Le,
        RelOp::Ge => BinOp::Ge,
    }
}

pub open spec fn eq_op(op: EqOp) -> BinOp {
    match op {
        EqOp::Eq => BinOp::Eq,
        EqOp::Ne => BinOp::NotEq,
    }
}

/// `-y` is `0 - y`, and `!y` is `0 == y`.
pub open spec fn unary_script(a: State, op: UnaryOp, y: Val) -> Seq<Step> {
    seq![
        Step::Integer(0),
        Step::Binary(
            if op is Neg {
                BinOp::Sub
            } else {
                BinOp::Eq
            },
            a.next(),
            y,
        ),
    ]
}

/// The opening of `x && ..` (`all`) or `x || ..` (not `all`), in the state
/// `a`, after `x`: the next `if` labels are used for two blocks, one for
/// the right side and one for the end; a word is allocated and set to what
/// the left side alone would give, 0 for `&&` and 1 for `||`; `x` is held
/// against zero, and a branch goes to the block of the right side when `x`
/// has not decided, to the end otherwise; the block of the right side is
/// entered.
pub open spec fn open_script(a: State, all: bool, x: Val) -> Seq<Step> {
    let n = a.scope.label.if_counter as nat;
    let then_bb = a.nth_bb(0);
    let end_bb = a.nth_bb(1);
    let word = a.nth(0);
    let zero = a.nth(1);
    if all {
        seq![
            Step::IfLabels,
            Step::Block(numbered("%Then_"@, n)),
            Step::Block(numbered("%End_"@, n)),
            Step::Alloc(Ty::Int32),
            Step::Integer(0),
            Step::Store(zero, word),
            Step::Binary(BinOp::NotEq, x, zero),
            Step::Branch(a.nth(3), then_bb, end_bb),
            Step::Enter(then_bb),
        ]
    } else {
        seq![
            Step::IfLabels,
            Step::Block(numbered("%Then_"@, n)),
            Step::Block(numbered("%End_"@, n)),
            Step::Alloc(Ty::Int32),
            Step::Integer(0),
            Step::Integer(1),
            Step::Store(a.nth(2), word),
            Step::Binary(BinOp::Eq, x, zero),
            Step::Branch(a.nth(4), then_bb, end_bb),
            Step::Enter(then_bb),
        ]
    }
}

/// The closing of a short-circuit operator, in the state `b`, after the
/// right side `y`: whether `y` is nonzero is stored in the word, both ways
/// meet in the end block, and the word is loaded there.
pub open spec fn close_script(b: State, y: Val, word: Val, zero: Val, end_bb: Bb) -> Seq<Step> {
    seq![
        Step::Binary(BinOp::NotEq, y, zero),
        Step::Store(b.next(), word),
        Step::Jump(end_bb),
        Step::Enter(end_bb),
        Step::Load(word),
    ]
}

/// The lowering of the first `k` arguments of a call leads from `a` to `b`
/// and gives `outs`.
pub open spec fn args_lower(args: Vec<Exp>, k: nat, a: State, b: State, outs: Seq<Val>) -> bool
    decreases args, k,
{
    if k == 0 || k > args.len() {
        b == a && outs.len() == 0
    } else {
        &&& outs.len() == k
        &&& exists|m: State| #[trigger]
            follows(m, a) && args_lower(args, (k - 1) as nat, a, m, outs.drop_last())
                && args[k - 1].lowers(m, b, outs.last())
    }
}

/// The index step number `k`, counted from one: into the array pointed to,
/// but for the first step when the pointer came out of a pointer
/// parameter, which goes along the pointer.
pub open spec fn index_step(mid: Val, index: Val, through_pointer: bool, k: nat) -> Step {
    Step::Index(mid, index, !(through_pointer && k == 1))
}

/// The lowering of the first `k` indices of an l-value, stepping from `src`,
/// leads from `a` to `b` and gives the pointer `out`.
pub open spec fn indices_lower(
    dims: Vec<Exp>,
    k: nat,
    a: State,
    b: State,
    src: Val,
    out: Val,
    through_pointer: bool,
) -> bool
    decreases dims, k,
{
    if k == 0 || k > dims.len() {
        b == a && out == src
    } else {
        exists|m1: State, mid: Val, m2: State, index: Val|
            #![trigger follows(m1, a), one(m2, index_step(mid, index, through_pointer, k), b)]
            {
                &&& follows(m1, a)
                &&& indices_lower(dims, (k - 1) as nat, a, m1, src, mid, through_pointer)
                &&& dims[k - 1].lowers(m1, m2, index)
                &&& out == m2.next()
                &&& one(m2, index_step(mid, index, through_pointer, k), b)
            }
    }
}

/// The zero index that turns a pointer to an array into the pointer to its
/// first element.
pub open spec fn decay_script(a: State, at: Val) -> Seq<Step> {
    seq![Step::Integer(0), Step::Index(at, a.next(), true)]
}

impl LVal {
    /// Reading an l-value. A name bound to a constant is that integer. A
    /// name bound to a variable is read by the access that the type of the
    /// variable and the number of indices make:
    ///
    /// - a scalar is loaded;
    /// - an element is reached by its indices and loaded;
    /// - a sub-array is reached by its indices and decays to the pointer to
    ///   its first element;
    /// - through a pointer parameter, the pointer is loaded first; the
    ///   first index then goes along it and the others into the arrays.
    pub open spec fn lowers(&self, a: State, b: State, v: Val) -> bool
        decreases self,
    {
        let n = self.dims.len() as nat;
        match lookup(a.scope.frames(), self.id@) {
            Some(Entry::Const(c)) => v == a.next() && one(a, Step::Integer(c), b),
            Some(Entry::Value(var)) => a.scope.cur_func is Some && match access_of(
                a.program.ty(var),
                n,
            ) {
                Some(Access::Scalar) => v == a.next() && one(a, Step::Load(var), b),
                Some(Access::Element) => exists|m: State, at: Val|
                    #![trigger follows(m, a), one(m, Step::Load(at), b)]
                    {
                        &&& follows(m, a)
                        &&& indices_lower(self.dims, n, a, m, var, at, false)
                        &&& v == m.next()
                        &&& one(m, Step::Load(at), b)
                    },
                Some(Access::Slice) => exists|m: State, at: Val|
                    #![trigger follows(m, a), runs(m, decay_script(m, at), b)]
                    {
                        &&& follows(m, a)
                        &&& indices_lower(self.dims, n, a, m, var, at, false)
                        &&& v == m.nth(1)
                        &&& runs(m, decay_script(m, at), b)
                    },
                Some(Access::PointerElement) => exists|m1: State, m2: State, at: Val|
                    #![trigger one(a, Step::Load(var), m1), one(m2, Step::Load(at), b)]
                    {
                        &&& one(a, Step::Load(var), m1)
                        &&& indices_lower(self.dims, n, m1, m2, a.next(), at, true)
                        &&& v == m2.next()
                        &&& one(m2, Step::Load(at), b)
                    },
                Some(Access::PointerSlice) => if n == 0 {
                    v == a.next() && one(a, Step::Load(var), b)
                } else {
                    exists|m1: State, m2: State, at: Val|
                        #![trigger one(a, Step::Load(var), m1), runs(m2, decay_script(m2, at), b)]
                        {
                            &&& one(a, Step::Load(var), m1)
                            &&& indices_lower(self.dims, n, m1, m2, a.next(), at, true)
                            &&& v == m2.nth(1)
                            &&& runs(m2, decay_script(m2, at), b)
                        }
                },
                None => false,
            },
            None => false,
        }
    }
}

impl Call {
    /// A call: the arguments in order, then the call of the function that
    /// the name stands for.
    pub open spec fn lowers(&self, a: State, b: State, v: Val) -> bool
        decreases self,
    {
        &&& a.scope.cur_func is Some
        &&& exists|m: State, args: Seq<Val>, callee: Func|
            #![trigger follows(m, a), one(m, Step::Call(callee, args), b)]
            {
                &&& follows(m, a)
                &&& args_lower(self.args, self.args.len() as nat, a, m, args)
                &&& find_func(m.scope.table(), self.id@) == Some(callee)
                &&& v == m.next()
                &&& one(m, Step::Call(callee, args), b)
            }
    }
}

impl PrimaryExp {
    /// A number is that integer; an l-value and an expression in brackets
    /// are lowered as what they are.
    pub open spec fn lowers(&self, a: State, b: State, v: Val) -> bool
        decreases self,
    {
        match self {
            PrimaryExp::Exp(e) => e.lowers(a, b, v),
            PrimaryExp::LVal(l) => l.lowers(a, b, v),
            PrimaryExp::Num(n) => v == a.next() && one(a, Step::Integer(*n), b),
        }
    }
}

impl UnaryExp {
    /// An expression with a value is that integer. `+y` is `y`; `-y` is
    /// `0 - y`; `!y` is `0 == y`.
    pub open spec fn lowers(&self, a: State, b: State, v: Val) -> bool
        decreases self,
    {
        match self.eval(a.scope.frames()) {
            Some(n) => v == a.next() && one(a, Step::Integer(n), b),
            None => a.scope.cur_func is Some && match self {
                UnaryExp::Primary(p) => p.lowers(a, b, v),
                UnaryExp::Call(c) => c.lowers(a, b, v),
                UnaryExp::Unary(op, operand) => if *op is Pos {
                    operand.lowers(a, b, v)
                } else {
                    exists|m: State, y: Val|
                        #![trigger follows(m, a), runs(m, unary_script(m, *op, y), b)]
                        {
                            &&& follows(m, a)
                            &&& operand.lowers(a, m, y)
                            &&& v == m.nth(1)
                            &&& runs(m, unary_script(m, *op, y), b)
                        }
                },
            },
        }
    }
}

impl MulExp {
    /// An expression with a value is that integer. Otherwise the left
    /// side, the right side, and the instruction of the operator.
    pub open spec fn lowers(&self, a: State, b: State, v: Val) -> bool
        decreases self,
    {
        match self.eval(a.scope.frames()) {
            Some(n) => v == a.next() && one(a, Step::Integer(n), b),
            None => a.scope.cur_func is Some && match self {
                MulExp::Unary(operand) => operand.lowers(a, b, v),
                MulExp::Mul(left, op, right) => exists|m1: State, x: Val, m2: State, y: Val|
                    #![trigger follows(m1, a), one(m2, Step::Binary(mul_op(*op), x, y), b)]
                    {
                        &&& follows(m1, a)
                        &&& left.lowers(a, m1, x)
                        &&& right.lowers(m1, m2, y)
                        &&& v == m2.next()
                        &&& one(m2, Step::Binary(mul_op(*op), x, y), b)
                    },
            },
        }
    }
}

impl AddExp {
    /// An expression with a value is that integer. `x + y` and `x - y` are
    /// `x`, then `y`, then the operation on the two.
    pub open spec fn lowers(&self, a: State, b: State, v: Val) -> bool
        decreases self,
    {
        match self.eval(a.scope.frames()) {
            Some(n) => v == a.next() && one(a, Step::Integer(n), b),
            None => a.scope.cur_func is Some && match self {
                AddExp::Mul(operand) => operand.lowers(a, b, v),
                AddExp::Add(left, op, right) => exists|m1: State, x: Val, m2: State, y: Val|
                    #![trigger follows(m1, a), one(m2, Step::Binary(add_op(*op), x, y), b)]
                    {
                        &&& follows(m1, a)
                        &&& left.lowers(a, m1, x)
                        &&& right.lowers(m1, m2, y)
                        &&& v == m2.next()
                        &&& one(m2, Step::Binary(add_op(*op), x, y), b)
                    },
            },
        }
    }
}

impl RelExp {
    /// An expression with a value is that integer. A comparison is its
    /// left side, then its right side, then the operation on the two.
    pub open spec fn lowers(&self, a: State, b: State, v: Val) -> bool
        decreases self,
    {
        match self.eval(a.scope.frames()) {
            Some(n) => v == a.next() && one(a, Step::Integer(n), b),
            None => a.scope.cur_func is Some && match self {
                RelExp::Add(operand) => operand.lowers(a, b, v),
                RelExp::Rel(left, op, right) => exists|m1: State, x: Val, m2: State, y: Val|
                    #![trigger follows(m1, a), one(m2, Step::Binary(rel_op(*op), x, y), b)]
                    {
                        &&& follows(m1, a)
                        &&& left.lowers(a, m1, x)
                        &&& right.lowers(m1, m2, y)
                        &&& v == m2.next()
                        &&& one(m2, Step::Binary(rel_op(*op), x, y), b)
                    },
            },
        }
    }
}

impl EqExp {
    /// An expression with a value is that integer. `x == y` and `x != y`
    /// are `x`, then `y`, then the operation on the two.
    pub open spec fn lowers(&self, a: State, b: State, v: Val) -> bool
        decreases self,
    {
        match self.eval(a.scope.frames()) {
            Some(n) => v == a.next() && one(a, Step::Integer(n), b),
            None => a.scope.cur_func is Some && match self {
                EqExp::Rel(operand) => operand.lowers(a, b, v),
                EqExp::Eq(left, op, right) => exists|m1: State, x: Val, m2: State, y: Val|
                    #![trigger follows(m1, a), one(m2, Step::Binary(eq_op(*op), x, y), b)]
                    {
                        &&& follows(m1, a)
                        &&& left.lowers(a, m1, x)
                        &&& right.lowers(m1, m2, y)
                        &&& v == m2.next()
                        &&& one(m2, Step::Binary(eq_op(*op), x, y), b)
                    },
            },
        }
    }
}

impl LAndExp {
    /// An expression with a value is that integer. Otherwise `l && r` is
    /// the left side, the opening, the right side in a block of its own
    /// that runs only when the left side is nonzero, and the closing.
    pub open spec fn lowers(&self, a: State, b: State, v: Val) -> bool
        decreases self,
    {
        match self.eval(a.scope.frames()) {
            Some(n) => v == a.next() && one(a, Step::Integer(n), b),
            None => a.scope.cur_func is Some && match self {
                LAndExp::Eq(operand) => operand.lowers(a, b, v),
                LAndExp::LAnd(left, right) => exists|m1: State, x: Val, m2: State, m3: State, y: Val|
                    #![trigger runs(m1, open_script(m1, true, x), m2), runs(m3, close_script(m3, y, m1.nth(0), m1.nth(1), m1.nth_bb(1)), b)]
                    {
                        &&& left.lowers(a, m1, x)
                        &&& runs(m1, open_script(m1, true, x), m2)
                        &&& right.lowers(m2, m3, y)
                        &&& v == m3.nth(3)
                        &&& runs(m3, close_script(m3, y, m1.nth(0), m1.nth(1), m1.nth_bb(1)), b)
                    },
            },
        }
    }
}

impl LOrExp {
    /// An expression with a value is that integer. Otherwise `l || r` is
    /// the left side, the opening, the right side in a block of its own
    /// that runs only when the left side is zero, and the closing.
    pub open spec fn lowers(&self, a: State, b: State, v: Val) -> bool
        decreases self,
    {
        match self.eval(a.scope.frames()) {
            Some(n) => v == a.next() && one(a, Step::Integer(n), b),
            None => a.scope.cur_func is Some && match self {
                LOrExp::LAnd(operand) => operand.lowers(a, b, v),
                LOrExp::LOr(left, right) => exists|m1: State, x: Val, m2: State, m3: State, y: Val|
                    #![trigger runs(m1, open_script(m1, false, x), m2), runs(m3, close_script(m3, y, m1.nth(0), m1.nth(1), m1.nth_bb(1)), b)]
                    {
                        &&& left.lowers(a, m1, x)
                        &&& runs(m1, open_script(m1, false, x), m2)
                        &&& right.lowers(m2, m3, y)
                        &&& v == m3.nth(3)
                        &&& runs(m3, close_script(m3, y, m1.nth(0), m1.nth(1), m1.nth_bb(1)), b)
                    },
            },
        }
    }
}

impl Exp {
    /// An expression is lowered as the `||` expression that it is.
    pub open spec fn lowers(&self, a: State, b: State, v: Val) -> bool
        decreases self,
    {
        self.lor.lowers(a, b, v)
    }
}

/// Using up the `if` labels is a step.
pub proof fn if_labels_step(a: State, b: State)
    requires
        b.program == a.program,
        b.info == a.info,
        a.scope.label.if_counter < usize::MAX,
        b.scope == (Scope {
            label: Label {
                if_counter: (a.scope.label.if_counter + 1) as usize,
                while_counter: a.scope.label.while_counter,
            },
            ..a.scope
        }),
    ensures
        does(a, Step::IfLabels, b),
{
    reveal(does);
}

/// Using up the `while` labels is a step.
pub proof fn while_labels_step(a: State, b: State)
    requires
        b.program == a.program,
        b.info == a.info,
        a.scope.label.while_counter < usize::MAX,
        b.scope == (Scope {
            label: Label {
                if_counter: a.scope.label.if_counter,
                while_counter: (a.scope.label.while_counter + 1) as usize,
            },
            ..a.scope
        }),
    ensures
        does(a, Step::WhileLabels, b),
{
    reveal(does);
}

/// A function becomes the function under construction by a step.
pub proof fn start_step(a: State, b: State, f: Func)
    requires
        b.program == a.program,
        b.info == a.info,
        b.scope == (Scope { cur_func: Some(f), ..a.scope }),
    ensures
        does(a, Step::Start(f), b),
{
    reveal(does);
}

/// Leaving the function under construction is a step.
pub proof fn leave_step(a: State, b: State)
    requires
        b.program == a.program,
        b.info == a.info,
        b.scope == (Scope { cur_func: None, cur_bb: None, ..a.scope }),
    ensures
        does(a, Step::Leave, b),
{
    reveal(does);
}

/// Entering a loop is a step.
pub proof fn loop_step(a: State, b: State, entry: Bb, end: Bb)
    requires
        b.program == a.program,
        b.info == a.info,
        same_cursor(b.scope, a.scope),
        b.scope.values == a.scope.values,
        b.scope.loop_info@ == a.scope.loop_info@.push((entry, end)),
    ensures
        does(a, Step::Loop(entry, end), b),
{
    reveal(does);
}

/// Leaving a loop is a step.
pub proof fn unloop_step(a: State, b: State)
    requires
        b.program == a.program,
        b.info == a.info,
        same_cursor(b.scope, a.scope),
        b.scope.values == a.scope.values,
        a.scope.loop_info.len() > 0,
        b.scope.loop_info@ == a.scope.loop_info@.drop_last(),
    ensures
        does(a, Step::Unloop, b),
{
    reveal(does);
}

/// Opening a frame of names is a step.
pub proof fn open_step(a: State, b: State)
    requires
        b.program == a.program,
        b.info == a.info,
        same_cursor(b.scope, a.scope),
        b.scope.loop_info == a.scope.loop_info,
        b.scope.frames() == a.scope.frames().push(Seq::empty()),
    ensures
        does(a, Step::Open, b),
{
    reveal(does);
}

/// Closing a frame of names is a step.
pub proof fn close_step(a: State, b: State)
    requires
        b.program == a.program,
        b.info == a.info,
        same_cursor(b.scope, a.scope),
        b.scope.loop_info == a.scope.loop_info,
        a.scope.frames().len() > 0,
        b.scope.frames() == a.scope.frames().drop_last(),
    ensures
        does(a, Step::Close, b),
{
    reveal(does);
}

/// Binding a name is a step.
pub proof fn bind_step(a: State, b: State, id: Seq<char>, entry: Entry)
    requires
        b.program == a.program,
        b.info == a.info,
        same_cursor(b.scope, a.scope),
        b.scope.loop_info == a.scope.loop_info,
        a.scope.frames().len() > 0,
        b.scope.frames() == a.scope.frames().update(
            a.scope.frames().len() - 1,
            a.scope.frames().last().push((id, entry)),
        ),
    ensures
        does(a, Step::Bind(id, entry), b),
{
    reveal(does);
}

/// The value `v` is a value of the program in the state `b`.
pub open spec fn made(b: State, v: Val) -> bool {
    b.program.has_value(v)
}

/// The head of `if (c) ..`, in the state `a`, after `c`: the next `if`
/// labels are used for three blocks, for the first arm, the second arm and
/// the end; a branch on `c` goes to the first arm or else to the second,
/// or to the end when there is no second; the block of the first arm is
/// entered.
pub open spec fn if_script(a: State, c: Val, has_else: bool) -> Seq<Step> {
    let n = a.scope.label.if_counter as nat;
    seq![
        Step::IfLabels,
        Step::Block(numbered("%Then_"@, n)),
        Step::Block(numbered("%Else_"@, n)),
        Step::Block(numbered("%End_"@, n)),
        Step::Branch(
            c,
            a.nth_bb(0),
            if has_else {
                a.nth_bb(1)
            } else {
                a.nth_bb(2)
            },
        ),
        Step::Enter(a.nth_bb(0)),
    ]
}

/// The end of an arm: a jump to the block `to`, and the block `next` is
/// entered.
pub open spec fn arm_script(to: Bb, next: Bb) -> Seq<Step> {
    seq![Step::Jump(to), Step::Enter(next)]
}

/// The head of `while (..) ..`, in the state `a`: the next `while` labels
/// are used for three blocks, for the entry, the body and the end; a jump
/// goes to the entry, which is entered.
pub open spec fn while_script(a: State) -> Seq<Step> {
    let n = a.scope.label.while_counter as nat;
    seq![
        Step::WhileLabels,
        Step::Block(numbered("%Entry_"@, n)),
        Step::Block(numbered("%Body_"@, n)),
        Step::Block(numbered("%While_End_"@, n)),
        Step::Jump(a.nth_bb(0)),
        Step::Enter(a.nth_bb(0)),
    ]
}

/// After the condition `c` of a loop: a branch goes to the body or to the
/// end; the body is entered, and with it the loop.
pub open spec fn body_script(c: Val, entry: Bb, body: Bb, end: Bb) -> Seq<Step> {
    seq![Step::Branch(c, body, end), Step::Enter(body), Step::Loop(entry, end)]
}

/// After the body of a loop: a jump goes back to the entry, the loop is
/// left, and the end is entered.
pub open spec fn back_script(entry: Bb, end: Bb) -> Seq<Step> {
    seq![Step::Jump(entry), Step::Unloop, Step::Enter(end)]
}

/// The lowering of the first `k` items of a block leads from `a` to `b`.
pub open spec fn items_lower(items: Vec<BlockItem>, k: nat, a: State, b: State) -> bool
    decreases items, k,
{
    if k == 0 || k > items.len() {
        b == a
    } else {
        exists|m: State| #[trigger]
            follows(m, a) && items_lower(items, (k - 1) as nat, a, m) && items[k - 1].lowers(m, b)
    }
}

impl Return {
    /// `return;` is a return; `return e;` is `e`, then the return of it.
    pub open spec fn lowers(&self, a: State, b: State) -> bool {
        match self.exp {
            None => one(a, Step::Ret(None), b),
            Some(e) => exists|m: State, x: Val|
                #![trigger follows(m, a), one(m, Step::Ret(Some(x)), b)]
                {
                    &&& follows(m, a)
                    &&& e.lowers(a, m, x)
                    &&& one(m, Step::Ret(Some(x)), b)
                },
        }
    }
}

impl Assign {
    /// `lval = e;` is `e`, then the way to the place, then the store. The
    /// name must stand for a variable, and the place must be a scalar or an
    /// element.
    pub open spec fn lowers(&self, a: State, b: State) -> bool {
        let n = self.lval.dims.len() as nat;
        match lookup(a.scope.frames(), self.lval.id@) {
            Some(Entry::Value(var)) => match access_of(a.program.ty(var), n) {
                Some(Access::Scalar) => exists|m: State, x: Val|
                    #![trigger follows(m, a), one(m, Step::Store(x, var), b)]
                    {
                        &&& follows(m, a)
                        &&& self.exp.lowers(a, m, x)
                        &&& one(m, Step::Store(x, var), b)
                    },
                Some(Access::Element) => exists|m1: State, x: Val, m2: State, at: Val|
                    #![trigger follows(m1, a), one(m2, Step::Store(x, at), b)]
                    {
                        &&& follows(m1, a)
                        &&& self.exp.lowers(a, m1, x)
                        &&& indices_lower(self.lval.dims, n, m1, m2, var, at, false)
                        &&& one(m2, Step::Store(x, at), b)
                    },
                Some(Access::PointerElement) => exists|
                    m1: State,
                    x: Val,
                    m2: State,
                    m3: State,
                    at: Val,
                |
                    #![trigger one(m1, Step::Load(var), m2), one(m3, Step::Store(x, at), b)]
                    {
                        &&& self.exp.lowers(a, m1, x)
                        &&& one(m1, Step::Load(var), m2)
                        &&& indices_lower(self.lval.dims, n, m2, m3, m1.next(), at, true)
                        &&& one(m3, Step::Store(x, at), b)
                    },
                _ => false,
            },
            _ => false,
        }
    }
}

impl crate::ast::Break {
    /// `break;` is a jump to the end of the innermost loop.
    pub open spec fn lowers(&self, a: State, b: State) -> bool {
        a.scope.loop_info.len() > 0 && one(a, Step::Jump(a.scope.loop_info@.last().1), b)
    }
}

impl crate::ast::Continue {
    /// `continue;` is a jump to the entry of the innermost loop.
    pub open spec fn lowers(&self, a: State, b: State) -> bool {
        a.scope.loop_info.len() > 0 && one(a, Step::Jump(a.scope.loop_info@.last().0), b)
    }
}

impl If {
    /// `if (c) s` is `c`, the head, `s`, and a jump to the end, which is
    /// entered. With `else t` the first arm jumps to the end and the block
    /// of the second arm is entered; then `t`, and a jump to the end, which
    /// is entered.
    pub open spec fn lowers(&self, a: State, b: State) -> bool
        decreases self,
    {
        match *self {
            If { cond, then: first, els } => {
                &&& a.scope.cur_func is Some
                &&& exists|m1: State, c: Val, m2: State, m3: State|
                    #![trigger runs(m1, if_script(m1, c, els is Some), m2), follows(m3, m2)]
                    {
                        &&& cond.lowers(a, m1, c)
                        &&& runs(m1, if_script(m1, c, els is Some), m2)
                        &&& follows(m3, m2)
                        &&& first.lowers(m2, m3)
                        &&& match els {
                            None => runs(m3, arm_script(m1.nth_bb(2), m1.nth_bb(2)), b),
                            Some(t) => exists|m4: State, m5: State|
                                #![trigger runs(m3, arm_script(m1.nth_bb(2), m1.nth_bb(1)), m4), runs(m5, arm_script(m1.nth_bb(2), m1.nth_bb(2)), b)]
                                {
                                    &&& runs(m3, arm_script(m1.nth_bb(2), m1.nth_bb(1)), m4)
                                    &&& t.lowers(m4, m5)
                                    &&& runs(m5, arm_script(m1.nth_bb(2), m1.nth_bb(2)), b)
                                },
                        }
                    }
            },
        }
    }
}

impl While {
    /// `while (c) s` is the head, `c` in the entry block, the branch into
    /// the body or to the end, `s` inside the loop, and the way back to the
    /// entry; the end is entered.
    pub open spec fn lowers(&self, a: State, b: State) -> bool
        decreases self,
    {
        &&& a.scope.cur_func is Some
        &&& exists|m1: State, m2: State, c: Val, m3: State, m4: State|
            #![trigger runs(a, while_script(a), m1), runs(m2, body_script(c, a.nth_bb(0), a.nth_bb(1), a.nth_bb(2)), m3), runs(m4, back_script(a.nth_bb(0), a.nth_bb(2)), b)]
            {
                &&& runs(a, while_script(a), m1)
                &&& self.cond.lowers(m1, m2, c)
                &&& runs(m2, body_script(c, a.nth_bb(0), a.nth_bb(1), a.nth_bb(2)), m3)
                &&& self.body.lowers(m3, m4)
                &&& runs(m4, back_script(a.nth_bb(0), a.nth_bb(2)), b)
            }
    }
}

impl Stmt {
    /// A statement is lowered as what it is; an expression statement gives
    /// a value that nothing uses, and an empty statement leaves the state
    /// as it is.
    pub open spec fn lowers(&self, a: State, b: State) -> bool
        decreases self,
    {
        match self {
            Stmt::Return(r) => r.lowers(a, b),
            Stmt::Assign(s) => s.lowers(a, b),
            Stmt::Exp(None) => b == a,
            Stmt::Exp(Some(e)) => exists|v: Val| #[trigger] made(b, v) && e.lowers(a, b, v),
            Stmt::Block(block) => block.lowers(a, b),
            Stmt::If(f) => f.lowers(a, b),
            Stmt::While(w) => w.lowers(a, b),
            Stmt::Break(x) => x.lowers(a, b),
            Stmt::Continue(x) => x.lowers(a, b),
        }
    }
}

impl Block {
    /// A block is its items in a frame of names of their own.
    pub open spec fn lowers(&self, a: State, b: State) -> bool
        decreases self,
    {
        exists|m1: State, m2: State|
            #![trigger one(a, Step::Open, m1), one(m2, Step::Close, b)]
            {
                &&& one(a, Step::Open, m1)
                &&& items_lower(self.items, self.items.len() as nat, m1, m2)
                &&& one(m2, Step::Close, b)
            }
    }
}

impl BlockItem {
    /// A statement, or a declaration inside a function.
    pub open spec fn lowers(&self, a: State, b: State) -> bool
        decreases self,
    {
        match self {
            BlockItem::Stmt(s) => s.lowers(a, b),
            BlockItem::Decl(d) => a.scope.cur_func is Some && d.lowers(a, b),
        }
    }
}

} // verus!

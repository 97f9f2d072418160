//! Programs, functions, basic blocks and values.
//!
//! Everything lives in three arenas owned by the [`Prog`]; a handle is an
//! index into one of them. Arenas only grow, and a value never changes once it
//! is in, so a handle stays good for the life of the program.

use vstd::prelude::*;
use crate::program::types::Ty;

verus! {

/// Handle of a value.
#[derive(Clone, Copy, Debug, PartialEq, Eq, Hash, Structural)]
pub struct Val {
    pub id: usize,
}

/// Handle of a function.
#[derive(Clone, Copy, Debug, PartialEq, Eq, Hash, Structural)]
pub struct Func {
    pub id: usize,
}

/// Handle of a basic block.
#[derive(Clone, Copy, Debug, PartialEq, Eq, Hash, Structural)]
pub struct Bb {
    pub id: usize,
}

/// Operator of a binary instruction.
#[derive(Clone, Copy, Debug, PartialEq, Eq, Structural)]
pub enum BinOp {
    NotEq,
    Eq,
    Gt,
    Lt,
    Ge,
    Le,
    Add,
    Sub,
    Mul,
    Div,
    Mod,
    And,
    Or,
}

/// What a value is.
#[derive(Debug, PartialEq, Eq)]
pub enum ValueKind {
    /// Integer constant.
    Integer(i32),
    /// Zero initializer.
    ZeroInit,
    /// Aggregate constant.
    Aggregate(Vec<Val>),
    /// The n-th parameter of the owning function.
    FuncArgRef(usize),
    /// Local memory allocation.
    Alloc,
    /// Global memory allocation with its initializer.
    GlobalAlloc(Val),
    /// Memory load from a pointer.
    Load(Val),
    /// Memory store of a value (first) to a pointer (second).
    Store(Val, Val),
    /// Pointer arithmetic: source pointer and index.
    GetPtr(Val, Val),
    /// Element pointer: pointer to an array and index.
    GetElemPtr(Val, Val),
    /// Binary operation.
    Binary(BinOp, Val, Val),
    /// Conditional branch: condition, target if nonzero, target if zero.
    Branch(Val, Bb, Bb),
    /// Unconditional jump.
    Jump(Bb),
    /// Func call.
    Call(Func, Vec<Val>),
    /// Func return.
    Return(Option<Val>),
}

impl ValueKind {
    /// Return, jump and branch end a basic block.
    pub open spec fn is_terminator(&self) -> bool {
        self is Return || self is Jump || self is Branch
    }

    pub open spec fn is_const(&self) -> bool {
        self is Integer || self is ZeroInit || self is Aggregate
    }

    pub fn check_terminator(&self) -> (r: bool)
        ensures
            r == self.is_terminator(),
    {
        match self {
            ValueKind::Return(_) => true,
            ValueKind::Jump(_) => true,
            ValueKind::Branch(_, _, _) => true,
            _ => false,
        }
    }

    pub fn check_const(&self) -> (r: bool)
        ensures
            r == self.is_const(),
    {
        match self {
            ValueKind::Integer(_) => true,
            ValueKind::ZeroInit => true,
            ValueKind::Aggregate(_) => true,
            _ => false,
        }
    }
}

/// A value: its type, what it is, and the function that owns it (`None` for
/// a global value).
#[derive(Debug, PartialEq, Eq)]
pub struct ValueData {
    pub ty: Ty,
    pub kind: ValueKind,
    pub func: Option<Func>,
}

/// A basic block: its label, its function, and its instructions in order.
#[derive(Debug, PartialEq, Eq)]
pub struct BasicBlockData {
    pub name: String,
    pub func: Func,
    pub insts: Vec<Val>,
}

/// A function: a declaration while it has no basic block, a definition once
/// it has one.
#[derive(Debug, PartialEq, Eq)]
pub struct FunctionData {
    pub name: String,
    pub params_ty: Vec<Ty>,
    pub ret_ty: Ty,
    pub params: Vec<Val>,
    pub bbs: Vec<Bb>,
}

/// A whole program.
#[derive(Debug, PartialEq, Eq)]
pub struct Prog {
    pub values: Vec<ValueData>,
    pub bbs: Vec<BasicBlockData>,
    pub funcs: Vec<FunctionData>,
    /// The global allocations in the order they were made.
    pub inst_layout: Vec<Val>,
}

impl Prog {
    pub open spec fn has_value(&self, v: Val) -> bool {
        v.id < self.values.len()
    }

    pub open spec fn has_bb(&self, bb: Bb) -> bool {
        bb.id < self.bbs.len()
    }

    pub open spec fn has_func(&self, f: Func) -> bool {
        f.id < self.funcs.len()
    }

    pub open spec fn owner_ok(&self, owner: Option<Func>) -> bool {
        owner matches Some(f) ==> self.has_func(f)
    }

    pub open spec fn data(&self, v: Val) -> ValueData {
        self.values[v.id as int]
    }

    pub open spec fn ty(&self, v: Val) -> Ty {
        self.values[v.id as int].ty
    }

    pub open spec fn kind(&self, v: Val) -> ValueKind {
        self.values[v.id as int].kind
    }

    pub open spec fn insts(&self, bb: Bb) -> Seq<Val> {
        self.bbs[bb.id as int].insts@
    }

    /// `v` is one of the first `bound` values and may be used by a value that
    /// `owner` owns: it is global, or owned by the same function.
    pub open spec fn operand(&self, owner: Option<Func>, v: Val, bound: int) -> bool {
        &&& v.id < bound
        &&& (self.values[v.id as int].func is None || self.values[v.id as int].func == owner)
    }

    /// `bb` is a block of the function that `owner` names.
    pub open spec fn target(&self, owner: Option<Func>, bb: Bb) -> bool {
        &&& bb.id < self.bbs.len()
        &&& owner == Some(self.bbs[bb.id as int].func)
    }

    pub open spec fn args_ok(
        &self,
        owner: Option<Func>,
        args: Seq<Val>,
        params_ty: Seq<Ty>,
        bound: int,
    ) -> bool {
        &&& args.len() == params_ty.len()
        &&& forall|i: int|
            0 <= i < args.len() ==> self.operand(owner, #[trigger] args[i], bound) && self.ty(
                args[i],
            ) == params_ty[i]
    }

    pub open spec fn elems_ok(&self, elems: Seq<Val>, bound: int) -> bool {
        &&& elems.len() > 0
        &&& self.ty(elems[0]) != Ty::Unit
        &&& forall|i: int|
            0 <= i < elems.len() ==> {
                &&& self.operand(None, #[trigger] elems[i], bound)
                &&& self.kind(elems[i]).is_const()
                &&& self.ty(elems[i]) == self.ty(elems[0])
            }
    }

    /// The typing rule of each kind of value, over the first `bound` values:
    /// `d` may enter the arena at index `bound`.
    pub open spec fn data_ok(&self, d: ValueData, bound: int) -> bool {
        &&& self.owner_ok(d.func)
        &&& match d.kind {
            ValueKind::Integer(_) => d.ty == Ty::Int32,
            ValueKind::ZeroInit => d.ty != Ty::Unit,
            ValueKind::Aggregate(elems) => {
                &&& d.func is None
                &&& self.elems_ok(elems@, bound)
                &&& d.ty == Ty::Array(Box::new(self.ty(elems[0])), elems.len())
            },
            ValueKind::FuncArgRef(_) => d.func is Some && d.ty != Ty::Unit,
            ValueKind::Alloc => d.func is Some && d.ty is Pointer && *d.ty->Pointer_0 != Ty::Unit,
            ValueKind::GlobalAlloc(init) => {
                &&& d.func is None
                &&& self.operand(None, init, bound)
                &&& self.ty(init) != Ty::Unit
                &&& d.ty == Ty::Pointer(Box::new(self.ty(init)))
            },
            ValueKind::Load(src) => {
                &&& d.func is Some
                &&& self.operand(d.func, src, bound)
                &&& self.ty(src) == Ty::Pointer(Box::new(d.ty))
            },
            ValueKind::Store(value, dest) => {
                &&& d.func is Some
                &&& self.operand(d.func, value, bound)
                &&& self.operand(d.func, dest, bound)
                &&& self.ty(dest) == Ty::Pointer(Box::new(self.ty(value)))
                &&& d.ty == Ty::Unit
            },
            ValueKind::GetPtr(src, index) => {
                &&& d.func is Some
                &&& self.operand(d.func, src, bound)
                &&& self.operand(d.func, index, bound)
                &&& self.ty(src) is Pointer
                &&& self.ty(index) == Ty::Int32
                &&& d.ty == self.ty(src)
            },
            ValueKind::GetElemPtr(src, index) => {
                &&& d.func is Some
                &&& self.operand(d.func, src, bound)
                &&& self.operand(d.func, index, bound)
                &&& self.ty(index) == Ty::Int32
                &&& self.ty(src) is Pointer
                &&& *self.ty(src)->Pointer_0 is Array
                &&& d.ty == Ty::Pointer(self.ty(src)->Pointer_0->Array_0)
            },
            ValueKind::Binary(_, lhs, rhs) => {
                &&& d.func is Some
                &&& self.operand(d.func, lhs, bound)
                &&& self.operand(d.func, rhs, bound)
                &&& self.ty(lhs) == Ty::Int32
                &&& self.ty(rhs) == Ty::Int32
                &&& d.ty == Ty::Int32
            },
            ValueKind::Branch(cond, on_true, on_false) => {
                &&& self.operand(d.func, cond, bound)
                &&& self.ty(cond) == Ty::Int32
                &&& self.target(d.func, on_true)
                &&& self.target(d.func, on_false)
                &&& d.ty == Ty::Unit
            },
            ValueKind::Jump(to) => self.target(d.func, to) && d.ty == Ty::Unit,
            ValueKind::Call(callee, args) => {
                &&& d.func is Some
                &&& self.has_func(callee)
                &&& self.args_ok(d.func, args@, self.funcs[callee.id as int].params_ty@, bound)
                &&& d.ty == self.funcs[callee.id as int].ret_ty
            },
            ValueKind::Return(value) => {
                &&& d.func is Some
                &&& (value matches Some(v) ==> self.operand(d.func, v, bound) && self.ty(v)
                    != Ty::Unit)
                &&& d.ty == Ty::Unit
            },
        }
    }

    pub open spec fn bb_ok(&self, b: int) -> bool {
        &&& self.has_func(self.bbs[b].func)
        &&& forall|k: int|
            0 <= k < self.bbs[b].insts.len() ==> {
                &&& self.has_value(#[trigger] self.bbs[b].insts[k])
                &&& self.data(self.bbs[b].insts[k]).func == Some(self.bbs[b].func)
            }
    }

    pub open spec fn func_ok(&self, f: int) -> bool {
        let fd = self.funcs[f];
        &&& fd.params.len() <= fd.params_ty.len()
        &&& forall|k: int|
            0 <= k < fd.params.len() ==> {
                &&& self.has_value(#[trigger] fd.params[k])
                &&& self.data(fd.params[k]).func == Some(Func { id: f as usize })
                &&& self.ty(fd.params[k]) == fd.params_ty[k]
                &&& self.kind(fd.params[k]) == ValueKind::FuncArgRef(k as usize)
            }
        &&& forall|k: int|
            0 <= k < fd.bbs.len() ==> {
                &&& self.has_bb(#[trigger] fd.bbs[k])
                &&& self.bbs[fd.bbs[k].id as int].func == (Func { id: f as usize })
            }
    }

    pub open spec fn global_ok(&self, k: int) -> bool {
        &&& self.has_value(self.inst_layout[k])
        &&& self.kind(self.inst_layout[k]) is GlobalAlloc
    }

    /// Every handle in the program leads somewhere, every value refers only to
    /// values made before it, and every value obeys the typing rule of its kind.
    pub open spec fn wf(&self) -> bool {
        &&& forall|i: int| 0 <= i < self.values.len() ==> self.data_ok(#[trigger] self.values[i], i)
        &&& forall|b: int| 0 <= b < self.bbs.len() ==> #[trigger] self.bb_ok(b)
        &&& forall|f: int| 0 <= f < self.funcs.len() ==> #[trigger] self.func_ok(f)
        &&& forall|k: int| 0 <= k < self.inst_layout.len() ==> #[trigger] self.global_ok(k)
    }

    /// `self` is `old` grown: what `old` held is still there, unchanged but for
    /// instructions appended to its blocks and blocks appended to its functions.
    pub open spec fn extends(&self, old: &Prog) -> bool {
        &&& old.values.len() <= self.values.len()
        &&& forall|i: int| 0 <= i < old.values.len() ==> #[trigger] self.values[i] == old.values[i]
        &&& old.bbs.len() <= self.bbs.len()
        &&& forall|b: int|
            0 <= b < old.bbs.len() ==> {
                &&& (#[trigger] self.bbs[b]).func == old.bbs[b].func
                &&& self.bbs[b].name == old.bbs[b].name
                &&& old.bbs[b].insts@.is_prefix_of(self.bbs[b].insts@)
            }
        &&& old.funcs.len() <= self.funcs.len()
        &&& forall|f: int|
            0 <= f < old.funcs.len() ==> {
                &&& (#[trigger] self.funcs[f]).name == old.funcs[f].name
                &&& self.funcs[f].params_ty == old.funcs[f].params_ty
                &&& self.funcs[f].ret_ty == old.funcs[f].ret_ty
                &&& old.funcs[f].params@.is_prefix_of(self.funcs[f].params@)
                &&& old.funcs[f].bbs@.is_prefix_of(self.funcs[f].bbs@)
            }
        &&& old.inst_layout@.is_prefix_of(self.inst_layout@)
    }

    /// Growing is transitive.
    pub proof fn extends_trans(&self, mid: &Prog, old: &Prog)
        requires
            self.extends(mid),
            mid.extends(old),
        ensures
            self.extends(old),
    {
        assert forall|b: int| 0 <= b < old.bbs.len() implies old.bbs[b].insts@.is_prefix_of(
            (#[trigger] self.bbs[b]).insts@,
        ) by {
            assert(old.bbs[b].insts@.is_prefix_of(mid.bbs[b].insts@));
            assert(mid.bbs[b].insts@.is_prefix_of(self.bbs[b].insts@));
        }
        assert forall|f: int| 0 <= f < old.funcs.len() implies old.funcs[f].bbs@.is_prefix_of(
            (#[trigger] self.funcs[f]).bbs@,
        ) && old.funcs[f].params@.is_prefix_of(self.funcs[f].params@) by {
            assert(old.funcs[f].bbs@.is_prefix_of(mid.funcs[f].bbs@));
            assert(mid.funcs[f].bbs@.is_prefix_of(self.funcs[f].bbs@));
            assert(old.funcs[f].params@.is_prefix_of(mid.funcs[f].params@));
            assert(mid.funcs[f].params@.is_prefix_of(self.funcs[f].params@));
        }
    }

    /// An empty program.
    pub fn new() -> (p: Prog)
        ensures
            p.wf(),
            p.values.len() == 0,
            p.bbs.len() == 0,
            p.funcs.len() == 0,
            p.inst_layout.len() == 0,
    {
        Prog { values: Vec::new(), bbs: Vec::new(), funcs: Vec::new(), inst_layout: Vec::new() }
    }
}

} // verus!

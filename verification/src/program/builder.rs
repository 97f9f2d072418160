//! Building a program: one method per kind of value, and the ones that lay
//! values out into blocks and blocks into functions.
//!
//! A method that makes a value states the typing rule of its kind as its
//! precondition, so a well-formed program stays well-formed.

use vstd::prelude::*;
use crate::program::entities::{
    BasicBlockData,
    Bb,
    BinOp,
    Func,
    FunctionData,
    Prog,
    Val,
    ValueData,
    ValueKind,
};
use crate::program::types::Ty;

verus! {

impl Prog {
    /// `self` is `old` with `data` added as the value `v`, and nothing else
    /// touched.
    pub open spec fn added(&self, old: &Prog, v: Val, data: ValueData) -> bool {
        &&& v.id == old.values.len()
        &&& self.values@ == old.values@.push(data)
        &&& self.bbs == old.bbs
        &&& self.funcs == old.funcs
        &&& self.inst_layout == old.inst_layout
    }

    /// As [`Prog::added`], for a global allocation, which also joins the
    /// layout of globals.
    pub open spec fn added_global(&self, old: &Prog, v: Val, data: ValueData) -> bool {
        &&& v.id == old.values.len()
        &&& self.values@ == old.values@.push(data)
        &&& self.bbs == old.bbs
        &&& self.funcs == old.funcs
        &&& self.inst_layout@ == old.inst_layout@.push(v)
    }

    /// Old values keep their good standing when the arenas grow.
    pub proof fn data_ok_extends(&self, old: &Prog, d: ValueData, bound: int)
        requires
            self.extends(old),
            old.data_ok(d, bound),
            bound <= old.values.len(),
        ensures
            self.data_ok(d, bound),
    {
        match d.kind {
            ValueKind::Aggregate(elems) => {
                assert(self.elems_ok(elems@, bound)) by {
                    assert(old.operand(None, elems@[0], bound));
                    assert forall|i: int| 0 <= i < elems@.len() implies {
                        &&& self.operand(None, #[trigger] elems@[i], bound)
                        &&& self.kind(elems@[i]).is_const()
                        &&& self.ty(elems@[i]) == self.ty(elems@[0])
                    } by {
                        assert(old.operand(None, elems@[i], bound));
                    }
                }
            },
            ValueKind::Call(callee, args) => {
                let params_ty = self.funcs[callee.id as int].params_ty@;
                assert(self.funcs[callee.id as int].params_ty == old.funcs[callee.id as int].params_ty);
                assert forall|i: int| 0 <= i < args@.len() implies self.operand(
                    d.func,
                    #[trigger] args@[i],
                    bound,
                ) && self.ty(args@[i]) == params_ty[i] by {
                    assert(old.operand(d.func, args@[i], bound));
                }
            },
            _ => {},
        }
    }

    proof fn wf_after_add(&self, old: &Prog, v: Val, data: ValueData)
        requires
            old.wf(),
            old.data_ok(data, old.values.len() as int),
            self.added(old, v, data) || (data.kind is GlobalAlloc && self.added_global(
                old,
                v,
                data,
            )),
        ensures
            self.wf(),
            self.extends(old),
    {
        assert(self.extends(old));
        assert forall|i: int| 0 <= i < self.values.len() implies self.data_ok(
            #[trigger] self.values[i],
            i,
        ) by {
            if i < old.values.len() {
                assert(self.values[i] == old.values[i]);
                self.data_ok_extends(old, old.values[i], i);
            } else {
                self.data_ok_extends(old, data, i);
            }
        }
        assert forall|b: int| 0 <= b < self.bbs.len() implies #[trigger] self.bb_ok(b) by {
            assert(old.bb_ok(b));
        }
        assert forall|f: int| 0 <= f < self.funcs.len() implies #[trigger] self.func_ok(f) by {
            assert(old.func_ok(f));
        }
        assert forall|k: int| 0 <= k < self.inst_layout.len() implies #[trigger] self.global_ok(
            k,
        ) by {
            if k < old.inst_layout.len() {
                assert(old.global_ok(k));
            }
        }
    }

    fn add(&mut self, data: ValueData) -> (v: Val)
        requires
            old(self).wf(),
            old(self).data_ok(data, old(self).values.len() as int),
        ensures
            final(self).wf(),
            final(self).extends(old(self)),
            final(self).added(old(self), v, data),
    {
        let v = Val { id: self.values.len() };
        self.values.push(data);
        proof {
            self.wf_after_add(old(self), v, data);
        }
        v
    }

    /// The type of a value.
    pub fn value_ty(&self, v: Val) -> (ty: &Ty)
        requires
            self.has_value(v),
        ensures
            *ty == self.ty(v),
    {
        &self.values[v.id].ty
    }

    /// The kind of a value.
    pub fn value_kind(&self, v: Val) -> (kind: &ValueKind)
        requires
            self.has_value(v),
        ensures
            *kind == self.kind(v),
    {
        &self.values[v.id].kind
    }

    /// Whether a value is global: owned by no function.
    pub fn is_global(&self, v: Val) -> (r: bool)
        requires
            self.has_value(v),
        ensures
            r == (self.data(v).func is None),
    {
        self.values[v.id].func.is_none()
    }

    /// Whether `v` exists and a value owned by `owner` may use it.
    pub fn is_operand(&self, owner: Option<Func>, v: Val) -> (r: bool)
        ensures
            r == self.operand(owner, v, self.values.len() as int),
    {
        if v.id >= self.values.len() {
            return false;
        }
        match self.values[v.id].func {
            None => true,
            Some(f) => match owner {
                Some(g) => f.id == g.id,
                None => false,
            },
        }
    }

    /// A new integer constant.
    pub fn integer(&mut self, owner: Option<Func>, n: i32) -> (v: Val)
        requires
            old(self).wf(),
            old(self).owner_ok(owner),
        ensures
            final(self).wf(),
            final(self).extends(old(self)),
            final(self).added(
                old(self),
                v,
                (ValueData { ty: Ty::Int32, kind: ValueKind::Integer(n), func: owner }),
            ),
    {
        self.add(ValueData { ty: Ty::Int32, kind: ValueKind::Integer(n), func: owner })
    }

    /// A new aggregate constant of the given constants, which all have one type.
    pub fn aggregate(&mut self, elems: Vec<Val>) -> (v: Val)
        requires
            old(self).wf(),
            old(self).elems_ok(elems@, old(self).values.len() as int),
        ensures
            final(self).wf(),
            final(self).extends(old(self)),
            final(self).added(
                old(self),
                v,
                (ValueData {
                    ty: Ty::Array(Box::new(old(self).ty(elems[0])), elems.len()),
                    kind: ValueKind::Aggregate(elems),
                    func: None,
                }),
            ),
    {
        let base = self.values[elems[0].id].ty.clone();
        let ty = Ty::Array(Box::new(base), elems.len());
        self.add(ValueData { ty, kind: ValueKind::Aggregate(elems), func: None })
    }

    /// A new global allocation that starts out as `init`.
    pub fn global_alloc(&mut self, init: Val) -> (v: Val)
        requires
            old(self).wf(),
            old(self).operand(None, init, old(self).values.len() as int),
            old(self).ty(init) != Ty::Unit,
        ensures
            final(self).wf(),
            final(self).extends(old(self)),
            final(self).added_global(
                old(self),
                v,
                (ValueData {
                    ty: Ty::Pointer(Box::new(old(self).ty(init))),
                    kind: ValueKind::GlobalAlloc(init),
                    func: None,
                }),
            ),
    {
        let ty = Ty::Pointer(Box::new(self.values[init.id].ty.clone()));
        let v = Val { id: self.values.len() };
        let data = ValueData { ty, kind: ValueKind::GlobalAlloc(init), func: None };
        self.values.push(data);
        self.inst_layout.push(v);
        proof {
            self.wf_after_add(old(self), v, data);
        }
        v
    }

    /// A new local allocation of room for a `ty`.
    pub fn local_alloc(&mut self, func: Func, ty: Ty) -> (v: Val)
        requires
            old(self).wf(),
            old(self).has_func(func),
            ty != Ty::Unit,
        ensures
            final(self).wf(),
            final(self).extends(old(self)),
            final(self).added(
                old(self),
                v,
                (ValueData {
                    ty: Ty::Pointer(Box::new(ty)),
                    kind: ValueKind::Alloc,
                    func: Some(func),
                }),
            ),
    {
        self.add(
            ValueData { ty: Ty::Pointer(Box::new(ty)), kind: ValueKind::Alloc, func: Some(func) },
        )
    }

    /// A new load through the pointer `src`.
    pub fn load(&mut self, func: Func, src: Val) -> (v: Val)
        requires
            old(self).wf(),
            old(self).has_func(func),
            old(self).operand(Some(func), src, old(self).values.len() as int),
            old(self).ty(src) is Pointer,
        ensures
            final(self).wf(),
            final(self).extends(old(self)),
            final(self).added(
                old(self),
                v,
                (ValueData {
                    ty: *old(self).ty(src)->Pointer_0,
                    kind: ValueKind::Load(src),
                    func: Some(func),
                }),
            ),
    {
        let ty = match &self.values[src.id].ty {
            Ty::Pointer(base) => (**base).clone(),
            _ => Ty::Unit,
        };
        self.add(ValueData { ty, kind: ValueKind::Load(src), func: Some(func) })
    }

    /// A new store of `value` through the pointer `dest`.
    pub fn store(&mut self, func: Func, value: Val, dest: Val) -> (v: Val)
        requires
            old(self).wf(),
            old(self).has_func(func),
            old(self).operand(Some(func), value, old(self).values.len() as int),
            old(self).operand(Some(func), dest, old(self).values.len() as int),
            old(self).ty(dest) == Ty::Pointer(Box::new(old(self).ty(value))),
        ensures
            final(self).wf(),
            final(self).extends(old(self)),
            final(self).added(
                old(self),
                v,
                (ValueData {
                    ty: Ty::Unit,
                    kind: ValueKind::Store(value, dest),
                    func: Some(func),
                }),
            ),
    {
        self.add(ValueData { ty: Ty::Unit, kind: ValueKind::Store(value, dest), func: Some(func) })
    }

    /// A new pointer `index` elements past the pointer `src`.
    pub fn get_ptr(&mut self, func: Func, src: Val, index: Val) -> (v: Val)
        requires
            old(self).wf(),
            old(self).has_func(func),
            old(self).operand(Some(func), src, old(self).values.len() as int),
            old(self).operand(Some(func), index, old(self).values.len() as int),
            old(self).ty(src) is Pointer,
            old(self).ty(index) == Ty::Int32,
        ensures
            final(self).wf(),
            final(self).extends(old(self)),
            final(self).added(
                old(self),
                v,
                (ValueData {
                    ty: old(self).ty(src),
                    kind: ValueKind::GetPtr(src, index),
                    func: Some(func),
                }),
            ),
    {
        let ty = self.values[src.id].ty.clone();
        self.add(ValueData { ty, kind: ValueKind::GetPtr(src, index), func: Some(func) })
    }

    /// A new pointer to element `index` of the array that `src` points to.
    pub fn get_elem_ptr(&mut self, func: Func, src: Val, index: Val) -> (v: Val)
        requires
            old(self).wf(),
            old(self).has_func(func),
            old(self).operand(Some(func), src, old(self).values.len() as int),
            old(self).operand(Some(func), index, old(self).values.len() as int),
            old(self).ty(src) is Pointer,
            *old(self).ty(src)->Pointer_0 is Array,
            old(self).ty(index) == Ty::Int32,
        ensures
            final(self).wf(),
            final(self).extends(old(self)),
            final(self).added(
                old(self),
                v,
                (ValueData {
                    ty: Ty::Pointer(old(self).ty(src)->Pointer_0->Array_0),
                    kind: ValueKind::GetElemPtr(src, index),
                    func: Some(func),
                }),
            ),
    {
        let ty = match &self.values[src.id].ty {
            Ty::Pointer(array) => match &**array {
                Ty::Array(base, _) => Ty::Pointer(Box::new((**base).clone())),
                _ => Ty::Unit,
            },
            _ => Ty::Unit,
        };
        self.add(ValueData { ty, kind: ValueKind::GetElemPtr(src, index), func: Some(func) })
    }

    /// A new binary operation on two integers.
    pub fn binary(&mut self, func: Func, op: BinOp, lhs: Val, rhs: Val) -> (v: Val)
        requires
            old(self).wf(),
            old(self).has_func(func),
            old(self).operand(Some(func), lhs, old(self).values.len() as int),
            old(self).operand(Some(func), rhs, old(self).values.len() as int),
            old(self).ty(lhs) == Ty::Int32,
            old(self).ty(rhs) == Ty::Int32,
        ensures
            final(self).wf(),
            final(self).extends(old(self)),
            final(self).added(
                old(self),
                v,
                (ValueData {
                    ty: Ty::Int32,
                    kind: ValueKind::Binary(op, lhs, rhs),
                    func: Some(func),
                }),
            ),
    {
        self.add(
            ValueData { ty: Ty::Int32, kind: ValueKind::Binary(op, lhs, rhs), func: Some(func) },
        )
    }

    /// A new branch on the integer `cond`.
    pub fn branch(
        &mut self,
        func: Func,
        cond: Val,
        on_true: Bb,
        on_false: Bb,
    ) -> (v: Val)
        requires
            old(self).wf(),
            old(self).has_func(func),
            old(self).operand(Some(func), cond, old(self).values.len() as int),
            old(self).ty(cond) == Ty::Int32,
            old(self).target(Some(func), on_true),
            old(self).target(Some(func), on_false),
        ensures
            final(self).wf(),
            final(self).extends(old(self)),
            final(self).added(
                old(self),
                v,
                (ValueData {
                    ty: Ty::Unit,
                    kind: ValueKind::Branch(cond, on_true, on_false),
                    func: Some(func),
                }),
            ),
    {
        self.add(
            ValueData {
                ty: Ty::Unit,
                kind: ValueKind::Branch(cond, on_true, on_false),
                func: Some(func),
            },
        )
    }

    /// A new jump.
    pub fn jump(&mut self, func: Func, to: Bb) -> (v: Val)
        requires
            old(self).wf(),
            old(self).has_func(func),
            old(self).target(Some(func), to),
        ensures
            final(self).wf(),
            final(self).extends(old(self)),
            final(self).added(
                old(self),
                v,
                (ValueData { ty: Ty::Unit, kind: ValueKind::Jump(to), func: Some(func) }),
            ),
    {
        self.add(ValueData { ty: Ty::Unit, kind: ValueKind::Jump(to), func: Some(func) })
    }

    /// A new call of `callee` with arguments of its parameters' types.
    pub fn call(&mut self, func: Func, callee: Func, args: Vec<Val>) -> (v: Val)
        requires
            old(self).wf(),
            old(self).has_func(func),
            old(self).has_func(callee),
            old(self).args_ok(
                Some(func),
                args@,
                old(self).funcs[callee.id as int].params_ty@,
                old(self).values.len() as int,
            ),
        ensures
            final(self).wf(),
            final(self).extends(old(self)),
            final(self).added(
                old(self),
                v,
                (ValueData {
                    ty: old(self).funcs[callee.id as int].ret_ty,
                    kind: ValueKind::Call(callee, args),
                    func: Some(func),
                }),
            ),
    {
        let ty = self.funcs[callee.id].ret_ty.clone();
        self.add(ValueData { ty, kind: ValueKind::Call(callee, args), func: Some(func) })
    }

    /// A new return, with or without a value.
    pub fn ret(&mut self, func: Func, value: Option<Val>) -> (v: Val)
        requires
            old(self).wf(),
            old(self).has_func(func),
            value matches Some(x) ==> old(self).operand(
                Some(func),
                x,
                old(self).values.len() as int,
            ) && old(self).ty(x) != Ty::Unit,
        ensures
            final(self).wf(),
            final(self).extends(old(self)),
            final(self).added(
                old(self),
                v,
                (ValueData { ty: Ty::Unit, kind: ValueKind::Return(value), func: Some(func) }),
            ),
    {
        self.add(ValueData { ty: Ty::Unit, kind: ValueKind::Return(value), func: Some(func) })
    }

    /// `self` is `old` with one more function, `f`, of the given signature:
    /// no blocks yet, and (if `defined`) one parameter value per parameter type,
    /// made in order at the end of the value arena.
    pub open spec fn added_func(
        &self,
        old: &Prog,
        f: Func,
        name: String,
        params_ty: Vec<Ty>,
        ret_ty: Ty,
        defined: bool,
    ) -> bool {
        let fd = self.funcs[f.id as int];
        let n = if defined {
            params_ty.len()
        } else {
            0
        };
        &&& f.id == old.funcs.len()
        &&& self.funcs.len() == old.funcs.len() + 1
        &&& forall|g: int| 0 <= g < old.funcs.len() ==> self.funcs[g] == old.funcs[g]
        &&& fd.name == name
        &&& fd.params_ty == params_ty
        &&& fd.ret_ty == ret_ty
        &&& fd.bbs@ == Seq::<Bb>::empty()
        &&& fd.params.len() == n
        &&& self.values.len() == old.values.len() + n
        &&& forall|i: int| 0 <= i < old.values.len() ==> self.values[i] == old.values[i]
        &&& forall|k: int|
            0 <= k < n ==> {
                &&& (#[trigger] fd.params[k]).id == old.values.len() + k
                &&& self.values[old.values.len() + k] == (ValueData {
                    ty: params_ty[k],
                    kind: ValueKind::FuncArgRef(k as usize),
                    func: Some(f),
                })
            }
        &&& self.bbs == old.bbs
        &&& self.inst_layout == old.inst_layout
    }

    pub open spec fn params_ty_ok(params_ty: Seq<Ty>) -> bool {
        forall|k: int| 0 <= k < params_ty.len() ==> #[trigger] params_ty[k] != Ty::Unit
    }

    fn push_func(&mut self, name: String, params_ty: Vec<Ty>, ret_ty: Ty) -> (f: Func)
        requires
            old(self).wf(),
        ensures
            final(self).wf(),
            final(self).extends(old(self)),
            final(self).added_func(old(self), f, name, params_ty, ret_ty, false),
            final(self).values == old(self).values,
    {
        let f = Func { id: self.funcs.len() };
        self.funcs.push(
            FunctionData { name, params_ty, ret_ty, params: Vec::new(), bbs: Vec::new() },
        );
        proof {
            assert(self.extends(old(self)));
            assert forall|i: int| 0 <= i < self.values.len() implies self.data_ok(
                #[trigger] self.values[i],
                i,
            ) by {
                self.data_ok_extends(old(self), old(self).values[i], i);
            }
            assert forall|b: int| 0 <= b < self.bbs.len() implies #[trigger] self.bb_ok(b) by {
                assert(old(self).bb_ok(b));
            }
            assert forall|g: int| 0 <= g < self.funcs.len() implies #[trigger] self.func_ok(g) by {
                if g < old(self).funcs.len() {
                    assert(old(self).func_ok(g));
                }
            }
            assert forall|k: int| 0 <= k < self.inst_layout.len() implies #[trigger] self.global_ok(
                k,
            ) by {
                assert(old(self).global_ok(k));
            }
        }
        f
    }

    /// A new function declaration: a signature without a body.
    pub fn new_func_decl(&mut self, name: String, params_ty: Vec<Ty>, ret_ty: Ty) -> (f:
        Func)
        requires
            old(self).wf(),
        ensures
            final(self).wf(),
            final(self).extends(old(self)),
            final(self).added_func(old(self), f, name, params_ty, ret_ty, false),
    {
        self.push_func(name, params_ty, ret_ty)
    }

    /// A new function definition, with a value for each parameter and no
    /// block yet.
    pub fn new_func_def(&mut self, name: String, params_ty: Vec<Ty>, ret_ty: Ty) -> (f:
        Func)
        requires
            old(self).wf(),
            Self::params_ty_ok(params_ty@),
        ensures
            final(self).wf(),
            final(self).extends(old(self)),
            final(self).added_func(old(self), f, name, params_ty, ret_ty, true),
    {
        let n = params_ty.len();
        let f = self.push_func(name, params_ty, ret_ty);
        let ghost mid = *self;
        let mut k: usize = 0;
        while k < n
            invariant
                k <= n,
                n == params_ty.len(),
                Self::params_ty_ok(params_ty@),
                self.wf(),
                self.extends(&mid),
                mid.extends(old(self)),
                mid.added_func(old(self), f, name, params_ty, ret_ty, false),
                mid.values == old(self).values,
                self.funcs.len() == mid.funcs.len(),
                forall|g: int| 0 <= g < old(self).funcs.len() ==> self.funcs[g] == old(self).funcs[g],
                self.funcs[f.id as int].name == name,
                self.funcs[f.id as int].params_ty == params_ty,
                self.funcs[f.id as int].ret_ty == ret_ty,
                self.funcs[f.id as int].bbs@ == Seq::<Bb>::empty(),
                self.funcs[f.id as int].params.len() == k,
                self.values.len() == old(self).values.len() + k,
                forall|i: int| 0 <= i < old(self).values.len() ==> self.values[i] == old(self).values[i],
                forall|j: int|
                    0 <= j < k ==> {
                        &&& (#[trigger] self.funcs[f.id as int].params[j]).id == old(self).values.len()
                            + j
                        &&& self.values[old(self).values.len() + j] == (ValueData {
                            ty: params_ty[j],
                            kind: ValueKind::FuncArgRef(j as usize),
                            func: Some(f),
                        })
                    },
                self.bbs == old(self).bbs,
                self.inst_layout == old(self).inst_layout,
            decreases n - k,
        {
            let ghost before = *self;
            let ty = self.funcs[f.id].params_ty[k].clone();
            let v = self.add(ValueData { ty, kind: ValueKind::FuncArgRef(k), func: Some(f) });
            let ghost added = *self;
            self.funcs[f.id].params.push(v);
            proof {
                assert(self.extends(&added));
                assert forall|i: int| 0 <= i < self.values.len() implies self.data_ok(
                    #[trigger] self.values[i],
                    i,
                ) by {
                    self.data_ok_extends(&added, added.values[i], i);
                }
                assert forall|b: int| 0 <= b < self.bbs.len() implies #[trigger] self.bb_ok(b) by {
                    assert(added.bb_ok(b));
                }
                assert forall|g: int| 0 <= g < self.funcs.len() implies #[trigger] self.func_ok(
                    g,
                ) by {
                    assert(added.func_ok(g));
                    if g == f.id {
                        let fd = self.funcs[g];
                        assert forall|j: int| 0 <= j < fd.params.len() implies {
                            &&& self.has_value(#[trigger] fd.params[j])
                            &&& self.data(fd.params[j]).func == Some(Func { id: g as usize })
                            &&& self.ty(fd.params[j]) == fd.params_ty[j]
                            &&& self.kind(fd.params[j]) == ValueKind::FuncArgRef(j as usize)
                        } by {
                            if j < k {
                                assert(fd.params[j] == added.funcs[g].params[j]);
                            }
                        }
                    }
                }
                assert forall|q: int| 0 <= q < self.inst_layout.len() implies #[trigger] self.global_ok(
                    q,
                ) by {
                    assert(added.global_ok(q));
                }
                self.extends_trans(&added, &before);
                self.extends_trans(&before, &mid);
            }
            k += 1;
        }
        proof {
            self.extends_trans(&mid, old(self));
        }
        f
    }

    /// A new basic block of `func`, in no layout yet.
    pub fn new_bb(&mut self, func: Func, name: String) -> (bb: Bb)
        requires
            old(self).wf(),
            old(self).has_func(func),
        ensures
            final(self).wf(),
            final(self).extends(old(self)),
            bb.id == old(self).bbs.len(),
            final(self).bbs.len() == old(self).bbs.len() + 1,
            final(self).bbs[bb.id as int].name == name,
            final(self).bbs[bb.id as int].func == func,
            final(self).bbs[bb.id as int].insts@ == Seq::<Val>::empty(),
            forall|b: int| 0 <= b < old(self).bbs.len() ==> final(self).bbs[b] == old(self).bbs[b],
            final(self).values == old(self).values,
            final(self).funcs == old(self).funcs,
            final(self).inst_layout == old(self).inst_layout,
    {
        let bb = Bb { id: self.bbs.len() };
        self.bbs.push(BasicBlockData { name, func, insts: Vec::new() });
        proof {
            assert(self.extends(old(self)));
            assert forall|i: int| 0 <= i < self.values.len() implies self.data_ok(
                #[trigger] self.values[i],
                i,
            ) by {
                self.data_ok_extends(old(self), old(self).values[i], i);
            }
            assert forall|b: int| 0 <= b < self.bbs.len() implies #[trigger] self.bb_ok(b) by {
                if b < old(self).bbs.len() {
                    assert(old(self).bb_ok(b));
                }
            }
            assert forall|f: int| 0 <= f < self.funcs.len() implies #[trigger] self.func_ok(f) by {
                assert(old(self).func_ok(f));
            }
            assert forall|k: int| 0 <= k < self.inst_layout.len() implies #[trigger] self.global_ok(
                k,
            ) by {
                assert(old(self).global_ok(k));
            }
        }
        bb
    }

    /// Appends a block to the layout of its function.
    pub fn push_bb(&mut self, func: Func, bb: Bb)
        requires
            old(self).wf(),
            old(self).has_func(func),
            old(self).target(Some(func), bb),
        ensures
            final(self).wf(),
            final(self).extends(old(self)),
            final(self).funcs.len() == old(self).funcs.len(),
            final(self).funcs[func.id as int].bbs@ == old(self).funcs[func.id as int].bbs@.push(bb),
            final(self).funcs[func.id as int].name == old(self).funcs[func.id as int].name,
            final(self).funcs[func.id as int].params_ty == old(self).funcs[func.id as int].params_ty,
            final(self).funcs[func.id as int].ret_ty == old(self).funcs[func.id as int].ret_ty,
            final(self).funcs[func.id as int].params == old(self).funcs[func.id as int].params,
            forall|f: int|
                0 <= f < old(self).funcs.len() && f != func.id ==> final(self).funcs[f] == old(
                    self,
                ).funcs[f],
            final(self).values == old(self).values,
            final(self).bbs == old(self).bbs,
            final(self).inst_layout == old(self).inst_layout,
    {
        self.funcs[func.id].bbs.push(bb);
        proof {
            assert(self.extends(old(self)));
            assert forall|i: int| 0 <= i < self.values.len() implies self.data_ok(
                #[trigger] self.values[i],
                i,
            ) by {
                self.data_ok_extends(old(self), old(self).values[i], i);
            }
            assert forall|b: int| 0 <= b < self.bbs.len() implies #[trigger] self.bb_ok(b) by {
                assert(old(self).bb_ok(b));
            }
            assert forall|f: int| 0 <= f < self.funcs.len() implies #[trigger] self.func_ok(f) by {
                assert(old(self).func_ok(f));
            }
            assert forall|k: int| 0 <= k < self.inst_layout.len() implies #[trigger] self.global_ok(
                k,
            ) by {
                assert(old(self).global_ok(k));
            }
        }
    }

    /// Appends an instruction to a block of the function that owns it.
    pub fn push_inst(&mut self, bb: Bb, v: Val)
        requires
            old(self).wf(),
            old(self).has_bb(bb),
            old(self).has_value(v),
            old(self).data(v).func == Some(old(self).bbs[bb.id as int].func),
        ensures
            final(self).wf(),
            final(self).extends(old(self)),
            final(self).bbs.len() == old(self).bbs.len(),
            final(self).insts(bb) == old(self).insts(bb).push(v),
            forall|b: int|
                0 <= b < old(self).bbs.len() && b != bb.id ==> final(self).bbs[b] == old(self).bbs[b],
            final(self).values == old(self).values,
            final(self).funcs == old(self).funcs,
            final(self).inst_layout == old(self).inst_layout,
    {
        self.bbs[bb.id].insts.push(v);
        proof {
            assert(self.extends(old(self)));
            assert forall|i: int| 0 <= i < self.values.len() implies self.data_ok(
                #[trigger] self.values[i],
                i,
            ) by {
                self.data_ok_extends(old(self), old(self).values[i], i);
            }
            assert forall|b: int| 0 <= b < self.bbs.len() implies #[trigger] self.bb_ok(b) by {
                assert(old(self).bb_ok(b));
            }
            assert forall|f: int| 0 <= f < self.funcs.len() implies #[trigger] self.func_ok(f) by {
                assert(old(self).func_ok(f));
            }
            assert forall|k: int| 0 <= k < self.inst_layout.len() implies #[trigger] self.global_ok(
                k,
            ) by {
                assert(old(self).global_ok(k));
            }
        }
    }
}

} // verus!

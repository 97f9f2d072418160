//! The builder of the `koopa` crate, as far as the export uses it.
//!
//! Nothing in this file is proved. Each function makes one call into `koopa`
//! and states what the source of `koopa` shows of that call: on which
//! arguments it does not panic, what type the value that it makes has, what
//! it is made of, and what becomes of the layouts.
//! What a `koopa` program holds is spoken of through the functions without
//! a body.

use vstd::prelude::*;
use koopa::ir::builder::{BasicBlockBuilder, GlobalInstBuilder, LocalInstBuilder, ValueBuilder};
use crate::program::types::Ty;

verus! {

#[verifier::external_type_specification]
#[verifier::external_body]
pub struct ExProgram(koopa::ir::Program);

#[verifier::external_type_specification]
#[verifier::external_body]
pub struct ExValue(koopa::ir::Value);

#[verifier::external_type_specification]
#[verifier::external_body]
pub struct ExFunction(koopa::ir::Function);

#[verifier::external_type_specification]
#[verifier::external_body]
pub struct ExBasicBlock(koopa::ir::BasicBlock);

#[verifier::external_type_specification]
#[verifier::external_body]
pub struct ExType(koopa::ir::Type);

#[verifier::external_type_specification]
pub struct ExBinaryOp(koopa::ir::BinaryOp);

/// The type that a type of `koopa` stands for.
pub uninterp spec fn type_model(t: koopa::ir::Type) -> Ty;

/// The type of a global value of the program; None for a handle that is
/// no global value of it.
pub uninterp spec fn global_type(p: koopa::ir::Program, v: koopa::ir::Value) -> Option<Ty>;

/// Whether a global value of the program is a constant.
pub uninterp spec fn global_const(p: koopa::ir::Program, v: koopa::ir::Value) -> bool;

/// The type of a value in the data flow graph of the function `f`; None
/// for a handle that is no value of that graph.
pub uninterp spec fn local_type(
    p: koopa::ir::Program,
    f: koopa::ir::Function,
    v: koopa::ir::Value,
) -> Option<Ty>;

/// The parameter types and the return type of a function of the program;
/// None for a handle that is no function of it.
pub uninterp spec fn signature(p: koopa::ir::Program, f: koopa::ir::Function) -> Option<
    (Seq<Ty>, Ty),
>;

/// The parameter values of a function of the program, in order.
pub uninterp spec fn parameters(p: koopa::ir::Program, f: koopa::ir::Function) -> Seq<
    koopa::ir::Value,
>;

/// Whether the data flow graph of `f` holds the block `bb`, and `bb` takes
/// no parameters.
pub uninterp spec fn block_known(
    p: koopa::ir::Program,
    f: koopa::ir::Function,
    bb: koopa::ir::BasicBlock,
) -> bool;

/// Whether the layout of `f` holds the block `bb`.
pub uninterp spec fn block_placed(
    p: koopa::ir::Program,
    f: koopa::ir::Function,
    bb: koopa::ir::BasicBlock,
) -> bool;

/// What a value of `koopa` is made of: its kind, with its operands in the
/// order in which the builder takes them.
pub enum Built {
    Integer(i32),
    Aggregate(Seq<koopa::ir::Value>),
    GlobalAlloc(koopa::ir::Value),
    Param(usize),
    Alloc,
    Load(koopa::ir::Value),
    Store(koopa::ir::Value, koopa::ir::Value),
    GetPtr(koopa::ir::Value, koopa::ir::Value),
    GetElemPtr(koopa::ir::Value, koopa::ir::Value),
    Binary(koopa::ir::BinaryOp, koopa::ir::Value, koopa::ir::Value),
    Branch(koopa::ir::Value, koopa::ir::BasicBlock, koopa::ir::BasicBlock),
    Jump(koopa::ir::BasicBlock),
    Call(koopa::ir::Function, Seq<koopa::ir::Value>),
    Return(Option<koopa::ir::Value>),
}

/// What a global value of the program is made of; None for a handle that
/// is no global value of it.
pub uninterp spec fn global_made(p: koopa::ir::Program, v: koopa::ir::Value) -> Option<Built>;

/// What a value in the data flow graph of the function `f` is made of; None
/// for a handle that is no value of that graph.
pub uninterp spec fn local_made(
    p: koopa::ir::Program,
    f: koopa::ir::Function,
    v: koopa::ir::Value,
) -> Option<Built>;

/// The blocks in the layout of `f`, first to last.
pub uninterp spec fn block_order(p: koopa::ir::Program, f: koopa::ir::Function) -> Seq<
    koopa::ir::BasicBlock,
>;

/// The instructions that the layout of `f` has in the block `bb`, first to
/// last.
pub uninterp spec fn inst_order(
    p: koopa::ir::Program,
    f: koopa::ir::Function,
    bb: koopa::ir::BasicBlock,
) -> Seq<koopa::ir::Value>;

/// The list after a key was pushed to its back: a list holds no key twice,
/// and a push of one that it holds changes nothing.
pub open spec fn pushed<K>(list: Seq<K>, key: K) -> Seq<K> {
    if list.contains(key) {
        list
    } else {
        list.push(key)
    }
}

/// The layouts that `old` had, `new` has unchanged.
pub open spec fn laid(new: koopa::ir::Program, old: koopa::ir::Program) -> bool {
    &&& forall|f: koopa::ir::Function|
        signature(old, f) is Some ==> #[trigger] block_order(new, f) == block_order(old, f)
    &&& forall|f: koopa::ir::Function, bb: koopa::ir::BasicBlock|
        signature(old, f) is Some ==> #[trigger] inst_order(new, f, bb) == inst_order(old, f, bb)
}

/// What `v` is made of as the builder of the function `f` finds it: among
/// the global values first, then in the graph of `f`.
pub open spec fn made(p: koopa::ir::Program, f: koopa::ir::Function, v: koopa::ir::Value) -> Option<
    Built,
> {
    match global_made(p, v) {
        Some(b) => Some(b),
        None => local_made(p, f, v),
    }
}

/// The type of `v` as the builder of the function `f` finds it: among the
/// global values first, then in the graph of `f`.
pub open spec fn seen(p: koopa::ir::Program, f: koopa::ir::Function, v: koopa::ir::Value) -> Option<
    Ty,
> {
    match global_type(p, v) {
        Some(t) => Some(t),
        None => local_type(p, f, v),
    }
}

/// Whatever `old` held, `new` holds unchanged, and made of what it was made
/// of: a builder only adds.
pub open spec fn held(new: koopa::ir::Program, old: koopa::ir::Program) -> bool {
    &&& forall|v: koopa::ir::Value| #[trigger]
        global_type(old, v) is Some ==> global_type(new, v) == global_type(old, v) && global_const(
            new,
            v,
        ) == global_const(old, v)
    &&& forall|f: koopa::ir::Function, v: koopa::ir::Value| #[trigger]
        seen(old, f, v) is Some && signature(old, f) is Some ==> seen(new, f, v) == seen(old, f, v)
    &&& forall|f: koopa::ir::Function| #[trigger]
        signature(old, f) is Some ==> signature(new, f) == signature(old, f) && parameters(new, f)
            == parameters(old, f)
    &&& forall|f: koopa::ir::Function, bb: koopa::ir::BasicBlock| #[trigger]
        block_known(old, f, bb) ==> block_known(new, f, bb)
    &&& forall|f: koopa::ir::Function, bb: koopa::ir::BasicBlock| #[trigger]
        block_placed(old, f, bb) ==> block_placed(new, f, bb)
    &&& forall|v: koopa::ir::Value|
        global_type(old, v) is Some ==> #[trigger] global_made(new, v) == global_made(old, v)
    &&& forall|f: koopa::ir::Function, v: koopa::ir::Value|
        seen(old, f, v) is Some && signature(old, f) is Some ==> #[trigger] made(new, f, v) == made(
            old,
            f,
            v,
        )
}

/// What [`held`] says, and the layouts are unchanged too: so it is after
/// whatever builds a value, a block or a function.
pub open spec fn kept(new: koopa::ir::Program, old: koopa::ir::Program) -> bool {
    held(new, old) && laid(new, old)
}

/// A name that `koopa` accepts for a function or a block: a sigil, `%` or
/// `@`, and at least one more character.
pub open spec fn name_ok(name: Seq<char>) -> bool {
    name.len() > 1 && (name[0] == '%' || name[0] == '@')
}

/// The types that the `koopa` types stand for, in order.
pub open spec fn type_models(tys: Seq<koopa::ir::Type>) -> Seq<Ty> {
    tys.map_values(|t: koopa::ir::Type| type_model(t))
}

/// `Type::get_i32`: the type `i32`.
#[verifier::external_body]
pub(crate) fn type_i32() -> (t: koopa::ir::Type)
    ensures
        type_model(t) == Ty::Int32,
{
    koopa::ir::Type::get_i32()
}

/// `Type::get_unit`: the type `unit`.
#[verifier::external_body]
pub(crate) fn type_unit() -> (t: koopa::ir::Type)
    ensures
        type_model(t) == Ty::Unit,
{
    koopa::ir::Type::get_unit()
}

/// `Type::get_array`: the array type of `len` times `base`. It panics on a
/// length of zero.
#[verifier::external_body]
pub(crate) fn type_array(base: koopa::ir::Type, len: usize) -> (t: koopa::ir::Type)
    requires
        len != 0,
    ensures
        type_model(t) == Ty::Array(Box::new(type_model(base)), len),
{
    koopa::ir::Type::get_array(base, len)
}

/// `Type::get_pointer`: the type of pointers to `base`.
#[verifier::external_body]
pub(crate) fn type_pointer(base: koopa::ir::Type) -> (t: koopa::ir::Type)
    ensures
        type_model(t) == Ty::Pointer(Box::new(type_model(base))),
{
    koopa::ir::Type::get_pointer(base)
}

/// `Program::new`: a program.
#[verifier::external_body]
pub(crate) fn new_program() -> (p: koopa::ir::Program) {
    koopa::ir::Program::new()
}

/// `Program::new_value().integer(n)`: a new global integer constant.
/// The new value is of this kind and holds what was handed in, in this
/// order.
#[verifier::external_body]
pub(crate) fn global_integer(p: &mut koopa::ir::Program, n: i32) -> (v: koopa::ir::Value)
    ensures
        kept(*final(p), *old(p)),
        global_type(*final(p), v) == Some(Ty::Int32),
        global_const(*final(p), v),
        global_made(*final(p), v) == Some(Built::Integer(n)),
{
    p.new_value().integer(n)
}

/// `Program::new_value().aggregate(elems)`: a new global aggregate
/// constant, of the array type of its elements. It panics unless there is
/// an element, every element is a global constant, all have one type, and
/// that type is not `unit`.
/// The new value is of this kind and holds what was handed in, in this
/// order.
#[verifier::external_body]
pub(crate) fn global_aggregate(p: &mut koopa::ir::Program, elems: Vec<koopa::ir::Value>) -> (v:
    koopa::ir::Value)
    requires
        elems.len() > 0,
        global_type(*old(p), elems[0]) is Some,
        global_type(*old(p), elems[0]) != Some(Ty::Unit),
        forall|i: int|
            0 <= i < elems.len() ==> global_const(*old(p), #[trigger] elems[i]) && global_type(
                *old(p),
                elems[i],
            ) == global_type(*old(p), elems[0]),
    ensures
        kept(*final(p), *old(p)),
        global_type(*final(p), v) == Some(
            Ty::Array(Box::new(global_type(*old(p), elems[0])->Some_0), elems.len()),
        ),
        global_const(*final(p), v),
        global_made(*final(p), v) == Some(Built::Aggregate(elems@)),
{
    p.new_value().aggregate(elems)
}

/// `Program::new_value().global_alloc(init)`: a new global allocation, a
/// pointer to what `init` is. It panics unless `init` is a global value
/// whose type is not `unit`.
/// The new value is of this kind and holds what was handed in, in this
/// order.
#[verifier::external_body]
pub(crate) fn global_alloc(p: &mut koopa::ir::Program, init: koopa::ir::Value) -> (v: koopa::ir::Value)
    requires
        global_type(*old(p), init) is Some,
        global_type(*old(p), init) != Some(Ty::Unit),
    ensures
        kept(*final(p), *old(p)),
        global_type(*final(p), v) == Some(
            Ty::Pointer(Box::new(global_type(*old(p), init)->Some_0)),
        ),
        !global_const(*final(p), v),
        global_made(*final(p), v) == Some(Built::GlobalAlloc(init)),
{
    p.new_value().global_alloc(init)
}

/// `Program::new_func_decl`: a new function without parameter values. It
/// panics on a name that is not accepted and on a parameter of type `unit`.
/// The handle is new, numbered by a counter that only goes up, and the
/// layout of the function is empty.
#[verifier::external_body]
pub(crate) fn new_func_decl(
    p: &mut koopa::ir::Program,
    name: String,
    params_ty: Vec<koopa::ir::Type>,
    ret_ty: koopa::ir::Type,
) -> (f: koopa::ir::Function)
    requires
        name_ok(name@),
        forall|i: int| 0 <= i < params_ty.len() ==> type_model(#[trigger] params_ty[i]) != Ty::Unit,
    ensures
        kept(*final(p), *old(p)),
        signature(*final(p), f) == Some((type_models(params_ty@), type_model(ret_ty))),
        parameters(*final(p), f) == Seq::<koopa::ir::Value>::empty(),
        signature(*old(p), f) is None,
        block_order(*final(p), f) == Seq::<koopa::ir::BasicBlock>::empty(),
{
    p.new_func_decl(name, params_ty, ret_ty)
}

/// `Program::new_func_def`: a new function with a parameter value of each
/// parameter type, in its own graph. It panics on a name that is not
/// accepted and on a parameter of type `unit`.
/// The handle is new, numbered by a counter that only goes up, and the
/// layout of the function is empty.
#[verifier::external_body]
pub(crate) fn new_func_def(
    p: &mut koopa::ir::Program,
    name: String,
    params_ty: Vec<koopa::ir::Type>,
    ret_ty: koopa::ir::Type,
) -> (f: koopa::ir::Function)
    requires
        name_ok(name@),
        forall|i: int| 0 <= i < params_ty.len() ==> type_model(#[trigger] params_ty[i]) != Ty::Unit,
    ensures
        kept(*final(p), *old(p)),
        signature(*final(p), f) == Some((type_models(params_ty@), type_model(ret_ty))),
        parameters(*final(p), f).len() == params_ty.len(),
        forall|i: int|
            0 <= i < params_ty.len() ==> seen(*final(p), f, #[trigger] parameters(*final(p), f)[i])
                == Some(type_model(params_ty[i])),
        signature(*old(p), f) is None,
        block_order(*final(p), f) == Seq::<koopa::ir::BasicBlock>::empty(),
{
    p.new_func_def(name, params_ty, ret_ty)
}

/// `Program::func(f).params()`: the parameter values of a function. It
/// panics unless `f` is a function of the program.
/// The parameter numbered `k` is the reference to argument `k`.
#[verifier::external_body]
pub(crate) fn func_params(p: &koopa::ir::Program, f: koopa::ir::Function) -> (r: Vec<koopa::ir::Value>)
    requires
        signature(*p, f) is Some,
    ensures
        r@ == parameters(*p, f),
        forall|k: int|
            0 <= k < r.len() ==> made(*p, f, #[trigger] r[k]) == Some(Built::Param(k as usize)),
{
    p.func(f).params().to_vec()
}

/// `DataFlowGraph::new_bb().basic_block(Some(name))`: a new block without
/// parameters in the graph of `f`. It panics unless `f` is a function of
/// the program and the name is accepted. The handle is new, numbered by a
/// counter that only goes up: no graph held it before.
#[verifier::external_body]
pub(crate) fn new_block(p: &mut koopa::ir::Program, f: koopa::ir::Function, name: String) -> (bb:
    koopa::ir::BasicBlock)
    requires
        signature(*old(p), f) is Some,
        name_ok(name@),
    ensures
        kept(*final(p), *old(p)),
        block_known(*final(p), f, bb),
        forall|g: koopa::ir::Function| !#[trigger] block_known(*old(p), g, bb),
{
    p.func_mut(f).dfg_mut().new_bb().basic_block(Some(name))
}

/// `Layout::bbs_mut().push_key_back(bb)`: the block is in the layout of
/// `f` afterwards, at its end and without instructions unless it was in it
/// before; nothing else changes in any layout. It panics unless `f` is a
/// function of the program.
#[verifier::external_body]
pub(crate) fn place_block(p: &mut koopa::ir::Program, f: koopa::ir::Function, bb: koopa::ir::BasicBlock)
    requires
        signature(*old(p), f) is Some,
    ensures
        held(*final(p), *old(p)),
        block_placed(*final(p), f, bb),
        block_order(*final(p), f) == pushed(block_order(*old(p), f), bb),
        forall|g: koopa::ir::Function|
            signature(*old(p), g) is Some && g != f ==> #[trigger] block_order(*final(p), g)
                == block_order(*old(p), g),
        forall|g: koopa::ir::Function, b: koopa::ir::BasicBlock|
            signature(*old(p), g) is Some ==> #[trigger] inst_order(*final(p), g, b) == if g == f
                && b == bb && !block_order(*old(p), f).contains(bb) {
                Seq::<koopa::ir::Value>::empty()
            } else {
                inst_order(*old(p), g, b)
            },
{
    let _ = p.func_mut(f).layout_mut().bbs_mut().push_key_back(bb);
}

/// `Layout::bb_mut(bb).insts_mut().push_key_back(v)`: the instruction is
/// at the end of the block unless the block held it before; nothing else
/// changes in any layout. It panics unless `f` is a function of the
/// program and `bb` is in its layout.
#[verifier::external_body]
pub(crate) fn place_inst(
    p: &mut koopa::ir::Program,
    f: koopa::ir::Function,
    bb: koopa::ir::BasicBlock,
    v: koopa::ir::Value,
)
    requires
        signature(*old(p), f) is Some,
        block_placed(*old(p), f, bb),
    ensures
        held(*final(p), *old(p)),
        inst_order(*final(p), f, bb) == pushed(inst_order(*old(p), f, bb), v),
        forall|g: koopa::ir::Function, b: koopa::ir::BasicBlock|
            signature(*old(p), g) is Some && (g != f || b != bb) ==> #[trigger] inst_order(
                *final(p),
                g,
                b,
            ) == inst_order(*old(p), g, b),
        forall|g: koopa::ir::Function|
            signature(*old(p), g) is Some ==> #[trigger] block_order(*final(p), g) == block_order(
                *old(p),
                g,
            ),
{
    let _ = p.func_mut(f).layout_mut().bb_mut(bb).insts_mut().push_key_back(v);
}

/// `DataFlowGraph::new_value().integer(n)`: a new integer in the graph of
/// `f`. It panics unless `f` is a function of the program.
/// The new value is of this kind and holds what was handed in, in this
/// order.
#[verifier::external_body]
pub(crate) fn local_integer(p: &mut koopa::ir::Program, f: koopa::ir::Function, n: i32) -> (v:
    koopa::ir::Value)
    requires
        signature(*old(p), f) is Some,
    ensures
        kept(*final(p), *old(p)),
        global_type(*final(p), v) is None,
        local_type(*final(p), f, v) == Some(Ty::Int32),
        global_made(*final(p), v) is None,
        local_made(*final(p), f, v) == Some(Built::Integer(n)),
{
    p.func_mut(f).dfg_mut().new_value().integer(n)
}

/// `DataFlowGraph::new_value().alloc(ty)`: a new allocation, a pointer to
/// a `ty`. It panics on the type `unit`.
/// The new value is of this kind and holds what was handed in, in this
/// order.
#[verifier::external_body]
pub(crate) fn local_alloc(p: &mut koopa::ir::Program, f: koopa::ir::Function, ty: koopa::ir::Type) -> (v:
    koopa::ir::Value)
    requires
        signature(*old(p), f) is Some,
        type_model(ty) != Ty::Unit,
    ensures
        kept(*final(p), *old(p)),
        seen(*final(p), f, v) == Some(Ty::Pointer(Box::new(type_model(ty)))),
        made(*final(p), f, v) == Some(Built::Alloc),
{
    p.func_mut(f).dfg_mut().new_value().alloc(ty)
}

/// `DataFlowGraph::new_value().load(src)`: a new load, of the type that
/// `src` points to. It panics unless `src` is a value that `f` sees and a
/// pointer.
/// The new value is of this kind and holds what was handed in, in this
/// order.
#[verifier::external_body]
pub(crate) fn local_load(p: &mut koopa::ir::Program, f: koopa::ir::Function, src: koopa::ir::Value) -> (v:
    koopa::ir::Value)
    requires
        signature(*old(p), f) is Some,
        seen(*old(p), f, src) is Some,
        seen(*old(p), f, src)->Some_0 is Pointer,
    ensures
        kept(*final(p), *old(p)),
        seen(*final(p), f, v) == Some(*seen(*old(p), f, src)->Some_0->Pointer_0),
        made(*final(p), f, v) == Some(Built::Load(src)),
{
    p.func_mut(f).dfg_mut().new_value().load(src)
}

/// `DataFlowGraph::new_value().store(value, dest)`: a new store, of type
/// `unit`. It panics unless `f` sees both values and the type of `dest` is
/// the pointer to the type of `value`.
/// The new value is of this kind and holds what was handed in, in this
/// order.
#[verifier::external_body]
pub(crate) fn local_store(
    p: &mut koopa::ir::Program,
    f: koopa::ir::Function,
    value: koopa::ir::Value,
    dest: koopa::ir::Value,
) -> (v: koopa::ir::Value)
    requires
        signature(*old(p), f) is Some,
        seen(*old(p), f, value) is Some,
        seen(*old(p), f, dest) == Some(Ty::Pointer(Box::new(seen(*old(p), f, value)->Some_0))),
    ensures
        kept(*final(p), *old(p)),
        seen(*final(p), f, v) == Some(Ty::Unit),
        made(*final(p), f, v) == Some(Built::Store(value, dest)),
{
    p.func_mut(f).dfg_mut().new_value().store(value, dest)
}

/// `DataFlowGraph::new_value().get_ptr(src, index)`: a new pointer of the
/// type of `src`. It panics unless `f` sees both values, `src` is a pointer
/// and `index` an integer.
/// The new value is of this kind and holds what was handed in, in this
/// order.
#[verifier::external_body]
pub(crate) fn local_get_ptr(
    p: &mut koopa::ir::Program,
    f: koopa::ir::Function,
    src: koopa::ir::Value,
    index: koopa::ir::Value,
) -> (v: koopa::ir::Value)
    requires
        signature(*old(p), f) is Some,
        seen(*old(p), f, src) is Some,
        seen(*old(p), f, src)->Some_0 is Pointer,
        seen(*old(p), f, index) == Some(Ty::Int32),
    ensures
        kept(*final(p), *old(p)),
        seen(*final(p), f, v) == seen(*old(p), f, src),
        made(*final(p), f, v) == Some(Built::GetPtr(src, index)),
{
    p.func_mut(f).dfg_mut().new_value().get_ptr(src, index)
}

/// `DataFlowGraph::new_value().get_elem_ptr(src, index)`: a new pointer to
/// an element of the array that `src` points to. It panics unless `f` sees
/// both values, `src` is a pointer to an array and `index` an integer.
/// The new value is of this kind and holds what was handed in, in this
/// order.
#[verifier::external_body]
pub(crate) fn local_get_elem_ptr(
    p: &mut koopa::ir::Program,
    f: koopa::ir::Function,
    src: koopa::ir::Value,
    index: koopa::ir::Value,
) -> (v: koopa::ir::Value)
    requires
        signature(*old(p), f) is Some,
        seen(*old(p), f, src) is Some,
        seen(*old(p), f, src)->Some_0 is Pointer,
        *seen(*old(p), f, src)->Some_0->Pointer_0 is Array,
        seen(*old(p), f, index) == Some(Ty::Int32),
    ensures
        kept(*final(p), *old(p)),
        seen(*final(p), f, v) == Some(
            Ty::Pointer(seen(*old(p), f, src)->Some_0->Pointer_0->Array_0),
        ),
        made(*final(p), f, v) == Some(Built::GetElemPtr(src, index)),
{
    p.func_mut(f).dfg_mut().new_value().get_elem_ptr(src, index)
}

/// `DataFlowGraph::new_value().binary(op, lhs, rhs)`: a new integer. It
/// panics unless `f` sees both operands and both are integers.
/// The new value is of this kind and holds what was handed in, in this
/// order.
#[verifier::external_body]
pub(crate) fn local_binary(
    p: &mut koopa::ir::Program,
    f: koopa::ir::Function,
    op: koopa::ir::BinaryOp,
    lhs: koopa::ir::Value,
    rhs: koopa::ir::Value,
) -> (v: koopa::ir::Value)
    requires
        signature(*old(p), f) is Some,
        seen(*old(p), f, lhs) == Some(Ty::Int32),
        seen(*old(p), f, rhs) == Some(Ty::Int32),
    ensures
        kept(*final(p), *old(p)),
        seen(*final(p), f, v) == Some(Ty::Int32),
        made(*final(p), f, v) == Some(Built::Binary(op, lhs, rhs)),
{
    p.func_mut(f).dfg_mut().new_value().binary(op, lhs, rhs)
}

/// `DataFlowGraph::new_value().branch(cond, on_true, on_false)`: a new
/// branch, of type `unit`. It panics unless `f` sees `cond`, `cond` is an
/// integer, and both blocks are blocks of the graph of `f` without
/// parameters.
/// The new value is of this kind and holds what was handed in, in this
/// order.
#[verifier::external_body]
pub(crate) fn local_branch(
    p: &mut koopa::ir::Program,
    f: koopa::ir::Function,
    cond: koopa::ir::Value,
    on_true: koopa::ir::BasicBlock,
    on_false: koopa::ir::BasicBlock,
) -> (v: koopa::ir::Value)
    requires
        signature(*old(p), f) is Some,
        seen(*old(p), f, cond) == Some(Ty::Int32),
        block_known(*old(p), f, on_true),
        block_known(*old(p), f, on_false),
    ensures
        kept(*final(p), *old(p)),
        seen(*final(p), f, v) == Some(Ty::Unit),
        made(*final(p), f, v) == Some(Built::Branch(cond, on_true, on_false)),
{
    p.func_mut(f).dfg_mut().new_value().branch(cond, on_true, on_false)
}

/// `DataFlowGraph::new_value().jump(to)`: a new jump, of type `unit`. It
/// panics unless `to` is a block of the graph of `f` without parameters.
/// The new value is of this kind and holds what was handed in, in this
/// order.
#[verifier::external_body]
pub(crate) fn local_jump(p: &mut koopa::ir::Program, f: koopa::ir::Function, to: koopa::ir::BasicBlock) -> (v:
    koopa::ir::Value)
    requires
        signature(*old(p), f) is Some,
        block_known(*old(p), f, to),
    ensures
        kept(*final(p), *old(p)),
        seen(*final(p), f, v) == Some(Ty::Unit),
        made(*final(p), f, v) == Some(Built::Jump(to)),
{
    p.func_mut(f).dfg_mut().new_value().jump(to)
}

/// `DataFlowGraph::new_value().call(callee, args)`: a new call, of the
/// return type of `callee`. It panics unless `callee` is a function of the
/// program, there is an argument for each of its parameters, `f` sees each
/// argument, and each has the type of its parameter.
/// The new value is of this kind and holds what was handed in, in this
/// order.
#[verifier::external_body]
pub(crate) fn local_call(
    p: &mut koopa::ir::Program,
    f: koopa::ir::Function,
    callee: koopa::ir::Function,
    args: Vec<koopa::ir::Value>,
) -> (v: koopa::ir::Value)
    requires
        signature(*old(p), f) is Some,
        signature(*old(p), callee) is Some,
        args.len() == signature(*old(p), callee)->Some_0.0.len(),
        forall|i: int|
            0 <= i < args.len() ==> seen(*old(p), f, #[trigger] args[i]) == Some(
                signature(*old(p), callee)->Some_0.0[i],
            ),
    ensures
        kept(*final(p), *old(p)),
        seen(*final(p), f, v) == Some(signature(*old(p), callee)->Some_0.1),
        made(*final(p), f, v) == Some(Built::Call(callee, args@)),
{
    p.func_mut(f).dfg_mut().new_value().call(callee, args)
}

/// `DataFlowGraph::new_value().ret(value)`: a new return, of type `unit`.
/// It panics unless `f` sees the value, if there is one, and its type is
/// not `unit`.
/// The new value is of this kind and holds what was handed in, in this
/// order.
#[verifier::external_body]
pub(crate) fn local_ret(p: &mut koopa::ir::Program, f: koopa::ir::Function, value: Option<
    koopa::ir::Value,
>) -> (v: koopa::ir::Value)
    requires
        signature(*old(p), f) is Some,
        value matches Some(x) ==> seen(*old(p), f, x) is Some && seen(*old(p), f, x) != Some(
            Ty::Unit,
        ),
    ensures
        kept(*final(p), *old(p)),
        seen(*final(p), f, v) == Some(Ty::Unit),
        made(*final(p), f, v) == Some(Built::Return(value)),
{
    p.func_mut(f).dfg_mut().new_value().ret(value)
}

} // verus!

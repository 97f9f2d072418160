//! From the program of this crate to a program of the `koopa` crate.
//!
//! The export hands every function, block and value to the builder of
//! `koopa`, in an order in which whatever is used has been made before. The
//! builder of `koopa` checks types as it goes and panics where they do not
//! fit; that it never does here is proved from the typing rules that a
//! well-formed program obeys.

pub mod outside;

use vstd::prelude::*;
use vstd::string::StrSliceExecFns;
use crate::export::outside::{
    block_known,
    block_order,
    block_placed,
    func_params,
    global_aggregate,
    global_alloc,
    global_const,
    global_integer,
    global_made,
    global_type,
    held,
    inst_order,
    kept,
    local_alloc,
    local_binary,
    local_branch,
    local_call,
    local_get_elem_ptr,
    local_get_ptr,
    local_integer,
    local_jump,
    local_load,
    local_ret,
    local_store,
    made,
    name_ok,
    new_block,
    new_func_decl,
    new_func_def,
    new_program,
    parameters,
    place_block,
    place_inst,
    pushed,
    seen,
    signature,
    type_array,
    type_i32,
    type_model,
    type_models,
    type_pointer,
    type_unit,
    Built,
};
use crate::program::entities::{Bb, BinOp, Func, Prog, Val, ValueKind};
use crate::program::types::Ty;

verus! {

/// Why a program cannot be exported.
#[derive(Clone, Copy, Debug, PartialEq, Eq, Structural)]
pub enum ExportError {
    /// A function or a block has a name without a sigil, or nothing after
    /// it.
    BadName,
    /// A type holds an array of no elements, or a parameter has the type
    /// `unit`.
    BadType,
    /// A value is of a kind that the export does not handle: a zero
    /// initializer, or a parameter that its function does not list.
    Unsupported,
}

/// A `koopa` program with the handles of what was exported into it: entry
/// `i` of each list is the handle of value, function or block `i`.
pub struct Exported {
    pub program: koopa::ir::Program,
    pub values: Vec<koopa::ir::Value>,
    pub funcs: Vec<koopa::ir::Function>,
    pub bbs: Vec<koopa::ir::BasicBlock>,
}

/// No array in the type has length zero.
pub open spec fn ty_ok(ty: Ty) -> bool
    decreases ty,
{
    match ty {
        Ty::Array(base, len) => len != 0 && ty_ok(*base),
        Ty::Pointer(base) => ty_ok(*base),
        _ => true,
    }
}

/// A function can be exported when its types can, no parameter has the
/// type `unit`, and it has a value for each parameter or for none.
pub open spec fn func_types_ok(program: &Prog, f: int) -> bool {
    let fd = program.funcs[f];
    &&& ty_ok(fd.ret_ty)
    &&& forall|k: int|
        0 <= k < fd.params_ty.len() ==> ty_ok(#[trigger] fd.params_ty[k]) && fd.params_ty[k]
            != Ty::Unit
}

pub open spec fn names_ok(program: &Prog) -> bool {
    &&& forall|f: int| 0 <= f < program.funcs.len() ==> name_ok((#[trigger] program.funcs[f]).name@)
    &&& forall|b: int| 0 <= b < program.bbs.len() ==> name_ok((#[trigger] program.bbs[b]).name@)
}

pub open spec fn types_ok(program: &Prog) -> bool {
    &&& forall|f: int| 0 <= f < program.funcs.len() ==> #[trigger] func_types_ok(program, f)
    &&& forall|i: int|
        0 <= i < program.values.len() && (#[trigger] program.values[i]).kind is Alloc ==> ty_ok(
            program.values[i].ty,
        )
}

pub open spec fn kind_ok(program: &Prog, i: int) -> bool {
    match program.values[i].kind {
        ValueKind::ZeroInit => false,
        ValueKind::FuncArgRef(k) => {
            &&& program.values[i].func matches Some(f)
            &&& k < program.funcs[f.id as int].params.len()
            &&& program.funcs[f.id as int].params[k as int].id == i
        },
        _ => true,
    }
}

pub open spec fn kinds_ok(program: &Prog) -> bool {
    &&& forall|i: int| 0 <= i < program.values.len() ==> #[trigger] kind_ok(program, i)
    &&& forall|f: int|
        0 <= f < program.funcs.len() ==> (#[trigger] program.funcs[f]).params.len() == 0
            || program.funcs[f].params.len() == program.funcs[f].params_ty.len()
}

/// What can be exported: every name is one that `koopa` accepts, no type
/// holds an empty array, and every value is of a kind that the export
/// handles.
pub open spec fn exportable(program: &Prog) -> bool {
    names_ok(program) && types_ok(program) && kinds_ok(program)
}

/// The first `n` functions have been exported with their signatures, and
/// those that have parameter values with a value of each parameter type.
pub open spec fn funcs_agree(
    raw: koopa::ir::Program,
    program: &Prog,
    funcs: Seq<koopa::ir::Function>,
    n: int,
) -> bool {
    &&& funcs.len() == n
    &&& forall|f: int|
        0 <= f < n ==> {
            &&& signature(raw, #[trigger] funcs[f]) == Some(
                (program.funcs[f].params_ty@, program.funcs[f].ret_ty),
            )
            &&& parameters(raw, funcs[f]).len() == program.funcs[f].params.len()
            &&& forall|k: int|
                0 <= k < program.funcs[f].params.len() ==> seen(
                    raw,
                    funcs[f],
                    #[trigger] parameters(raw, funcs[f])[k],
                ) == Some(program.funcs[f].params_ty[k])
        }
}

/// The first `n` blocks have been exported, each into the graph of its
/// function.
pub open spec fn bbs_agree(
    raw: koopa::ir::Program,
    program: &Prog,
    funcs: Seq<koopa::ir::Function>,
    bbs: Seq<koopa::ir::BasicBlock>,
    n: int,
) -> bool {
    &&& bbs.len() == n
    &&& forall|b: int|
        0 <= b < n ==> block_known(raw, funcs[program.bbs[b].func.id as int], #[trigger] bbs[b])
}

/// The first `n` values have been exported, and `koopa` gives each the
/// type that it has here; of a global value it also agrees on whether it
/// is a constant.
pub open spec fn values_agree(
    raw: koopa::ir::Program,
    program: &Prog,
    funcs: Seq<koopa::ir::Function>,
    values: Seq<koopa::ir::Value>,
    n: int,
) -> bool {
    &&& values.len() == n
    &&& forall|i: int|
        0 <= i < n ==> match program.values[i].func {
            None => global_type(raw, #[trigger] values[i]) == Some(program.values[i].ty)
                && global_const(raw, values[i]) == program.values[i].kind.is_const(),
            Some(f) => seen(raw, funcs[f.id as int], values[i]) == Some(program.values[i].ty),
        }
}

/// Every block in the layout of a function has been placed in the layout
/// of the exported function.
pub open spec fn layout_agrees(
    raw: koopa::ir::Program,
    program: &Prog,
    funcs: Seq<koopa::ir::Function>,
    bbs: Seq<koopa::ir::BasicBlock>,
) -> bool {
    forall|f: int, k: int|
        0 <= f < program.funcs.len() && 0 <= k < program.funcs[f].bbs.len() ==> block_placed(
            raw,
            funcs[f],
            bbs[(#[trigger] program.funcs[f].bbs[k]).id as int],
        )
}

proof fn funcs_kept(
    new: koopa::ir::Program,
    old: koopa::ir::Program,
    program: &Prog,
    funcs: Seq<koopa::ir::Function>,
    n: int,
)
    requires
        held(new, old),
        funcs_agree(old, program, funcs, n),
    ensures
        funcs_agree(new, program, funcs, n),
{
    assert forall|f: int| 0 <= f < n implies {
        &&& signature(new, #[trigger] funcs[f]) == Some(
            (program.funcs[f].params_ty@, program.funcs[f].ret_ty),
        )
        &&& parameters(new, funcs[f]).len() == program.funcs[f].params.len()
        &&& forall|k: int|
            0 <= k < program.funcs[f].params.len() ==> seen(
                new,
                funcs[f],
                #[trigger] parameters(new, funcs[f])[k],
            ) == Some(program.funcs[f].params_ty[k])
    } by {
        assert(signature(old, funcs[f]) is Some);
        assert forall|k: int| 0 <= k < program.funcs[f].params.len() implies seen(
            new,
            funcs[f],
            #[trigger] parameters(new, funcs[f])[k],
        ) == Some(program.funcs[f].params_ty[k]) by {
            let v = parameters(old, funcs[f])[k];
            assert(seen(old, funcs[f], v) is Some);
        }
    }
}

proof fn bbs_kept(
    new: koopa::ir::Program,
    old: koopa::ir::Program,
    program: &Prog,
    funcs: Seq<koopa::ir::Function>,
    bbs: Seq<koopa::ir::BasicBlock>,
    n: int,
)
    requires
        held(new, old),
        bbs_agree(old, program, funcs, bbs, n),
    ensures
        bbs_agree(new, program, funcs, bbs, n),
{
    assert forall|b: int| 0 <= b < n implies block_known(
        new,
        funcs[program.bbs[b].func.id as int],
        #[trigger] bbs[b],
    ) by {
        assert(block_known(old, funcs[program.bbs[b].func.id as int], bbs[b]));
    }
}

proof fn values_kept(
    new: koopa::ir::Program,
    old: koopa::ir::Program,
    program: &Prog,
    funcs: Seq<koopa::ir::Function>,
    values: Seq<koopa::ir::Value>,
    n: int,
)
    requires
        program.wf(),
        held(new, old),
        funcs_agree(old, program, funcs, program.funcs.len() as int),
        values_agree(old, program, funcs, values, n),
        n <= program.values.len(),
    ensures
        values_agree(new, program, funcs, values, n),
{
    assert forall|i: int| 0 <= i < n implies match program.values[i].func {
        None => global_type(new, #[trigger] values[i]) == Some(program.values[i].ty)
            && global_const(new, values[i]) == program.values[i].kind.is_const(),
        Some(f) => seen(new, funcs[f.id as int], values[i]) == Some(program.values[i].ty),
    } by {
        match program.values[i].func {
            None => {
                assert(global_type(old, values[i]) is Some);
            },
            Some(f) => {
                assert(program.data_ok(program.values[i], i));
                assert(signature(old, funcs[f.id as int]) is Some);
                assert(seen(old, funcs[f.id as int], values[i]) is Some);
            },
        }
    }
}

/// Whether a name is one that `koopa` accepts.
fn check_name(name: &String) -> (r: bool)
    ensures
        r == name_ok(name@),
{
    let n = name.as_str().unicode_len();
    if n <= 1 {
        return false;
    }
    let c = name.as_str().get_char(0);
    c == '%' || c == '@'
}

/// The `koopa` type for a type.
fn export_type(ty: &Ty) -> (r: Result<koopa::ir::Type, ExportError>)
    ensures
        match r {
            Ok(t) => ty_ok(*ty) && type_model(t) == *ty,
            Err(e) => e == ExportError::BadType && !ty_ok(*ty),
        },
    decreases ty,
{
    match ty {
        Ty::Int32 => Ok(type_i32()),
        Ty::Unit => Ok(type_unit()),
        Ty::Array(base, len) => {
            if *len == 0 {
                return Err(ExportError::BadType);
            }
            let b = export_type(base)?;
            Ok(type_array(b, *len))
        },
        Ty::Pointer(base) => {
            let b = export_type(base)?;
            Ok(type_pointer(b))
        },
    }
}

/// The operator of `koopa` for an operator.
pub open spec fn op_of(op: BinOp) -> koopa::ir::BinaryOp {
    match op {
        BinOp::NotEq => koopa::ir::BinaryOp::NotEq,
        BinOp::Eq => koopa::ir::BinaryOp::Eq,
        BinOp::Gt => koopa::ir::BinaryOp::Gt,
        BinOp::Lt => koopa::ir::BinaryOp::Lt,
        BinOp::Ge => koopa::ir::BinaryOp::Ge,
        BinOp::Le => koopa::ir::BinaryOp::Le,
        BinOp::Add => koopa::ir::BinaryOp::Add,
        BinOp::Sub => koopa::ir::BinaryOp::Sub,
        BinOp::Mul => koopa::ir::BinaryOp::Mul,
        BinOp::Div => koopa::ir::BinaryOp::Div,
        BinOp::Mod => koopa::ir::BinaryOp::Mod,
        BinOp::And => koopa::ir::BinaryOp::And,
        BinOp::Or => koopa::ir::BinaryOp::Or,
    }
}

fn export_op(op: BinOp) -> (r: koopa::ir::BinaryOp)
    ensures
        r == op_of(op),
{
    match op {
        BinOp::NotEq => koopa::ir::BinaryOp::NotEq,
        BinOp::Eq => koopa::ir::BinaryOp::Eq,
        BinOp::Gt => koopa::ir::BinaryOp::Gt,
        BinOp::Lt => koopa::ir::BinaryOp::Lt,
        BinOp::Ge => koopa::ir::BinaryOp::Ge,
        BinOp::Le => koopa::ir::BinaryOp::Le,
        BinOp::Add => koopa::ir::BinaryOp::Add,
        BinOp::Sub => koopa::ir::BinaryOp::Sub,
        BinOp::Mul => koopa::ir::BinaryOp::Mul,
        BinOp::Div => koopa::ir::BinaryOp::Div,
        BinOp::Mod => koopa::ir::BinaryOp::Mod,
        BinOp::And => koopa::ir::BinaryOp::And,
        BinOp::Or => koopa::ir::BinaryOp::Or,
    }
}

/// The `koopa` types for the parameter types of a function.
fn export_params(params_ty: &Vec<Ty>) -> (r: Result<Vec<koopa::ir::Type>, ExportError>)
    ensures
        match r {
            Ok(ts) => {
                &&& type_models(ts@) == params_ty@
                &&& forall|k: int|
                    0 <= k < params_ty.len() ==> ty_ok(#[trigger] params_ty[k]) && params_ty[k]
                        != Ty::Unit
            },
            Err(e) => e == ExportError::BadType && exists|k: int|
                0 <= k < params_ty.len() && !(ty_ok(#[trigger] params_ty[k]) && params_ty[k]
                    != Ty::Unit),
        },
{
    let mut ts: Vec<koopa::ir::Type> = Vec::new();
    let mut k: usize = 0;
    while k < params_ty.len()
        invariant
            k <= params_ty.len(),
            ts.len() == k,
            forall|j: int| 0 <= j < k ==> type_model(#[trigger] ts[j]) == params_ty[j],
            forall|j: int|
                0 <= j < k ==> ty_ok(#[trigger] params_ty[j]) && params_ty[j] != Ty::Unit,
        decreases params_ty.len() - k,
    {
        if params_ty[k].check_unit() {
            return Err(ExportError::BadType);
        }
        let t = match export_type(&params_ty[k]) {
            Ok(t) => t,
            Err(e) => {
                return Err(e);
            },
        };
        ts.push(t);
        k += 1;
    }
    proof {
        assert(type_models(ts@) =~= params_ty@);
    }
    Ok(ts)
}

/// Exports the functions, in order.
fn export_funcs(program: &Prog, raw: &mut koopa::ir::Program) -> (r: Result<
    Vec<koopa::ir::Function>,
    ExportError,
>)
    requires
        program.wf(),
    ensures
        match r {
            Ok(fs) => {
                &&& funcs_agree(*final(raw), program, fs@, program.funcs.len() as int)
                &&& distinct(fs@)
                &&& layouts_empty(*final(raw), fs@, 0)
                &&& forall|f: int|
                    0 <= f < program.funcs.len() ==> {
                        &&& name_ok((#[trigger] program.funcs[f]).name@)
                        &&& func_types_ok(program, f)
                        &&& program.funcs[f].params.len() == 0 || program.funcs[f].params.len()
                            == program.funcs[f].params_ty.len()
                    }
            },
            Err(e) => match e {
                ExportError::BadName => !names_ok(program),
                ExportError::BadType => !types_ok(program),
                ExportError::Unsupported => !kinds_ok(program),
            },
        },
{
    let mut fs: Vec<koopa::ir::Function> = Vec::new();
    let mut j: usize = 0;
    while j < program.funcs.len()
        invariant
            j <= program.funcs.len(),
            program.wf(),
            funcs_agree(*raw, program, fs@, j as int),
            distinct(fs@),
            layouts_empty(*raw, fs@, 0),
            forall|f: int|
                0 <= f < j ==> {
                    &&& name_ok((#[trigger] program.funcs[f]).name@)
                    &&& func_types_ok(program, f)
                    &&& program.funcs[f].params.len() == 0 || program.funcs[f].params.len()
                        == program.funcs[f].params_ty.len()
                },
        decreases program.funcs.len() - j,
    {
        let fd = &program.funcs[j];
        if !check_name(&fd.name) {
            return Err(ExportError::BadName);
        }
        if fd.params.len() != 0 && fd.params.len() != fd.params_ty.len() {
            return Err(ExportError::Unsupported);
        }
        let ts = match export_params(&fd.params_ty) {
            Ok(ts) => ts,
            Err(e) => {
                proof {
                    assert(!func_types_ok(program, j as int));
                }
                return Err(e);
            },
        };
        let ret = match export_type(&fd.ret_ty) {
            Ok(t) => t,
            Err(e) => {
                proof {
                    assert(!func_types_ok(program, j as int));
                }
                return Err(e);
            },
        };
        let ghost before = *raw;
        let ghost kts = ts@;
        proof {
            assert forall|i: int| 0 <= i < ts.len() implies type_model(#[trigger] ts[i]) != Ty::Unit by {
                assert(type_models(ts@)[i] == fd.params_ty@[i]);
            }
        }
        let f = if fd.params.len() == 0 {
            new_func_decl(raw, fd.name.clone(), ts, ret)
        } else {
            new_func_def(raw, fd.name.clone(), ts, ret)
        };
        proof {
            funcs_kept(*raw, before, program, fs@, j as int);
            let next = fs@.push(f);
            assert forall|a: int, b: int| 0 <= a < b < next.len() implies #[trigger] next[a]
                != #[trigger] next[b] by {
                if b < j {
                    assert(next[a] == fs@[a] && next[b] == fs@[b]);
                } else {
                    assert(next[a] == fs@[a]);
                    assert(signature(before, fs@[a]) is Some);
                }
            }
            assert forall|g: int| 0 <= g < next.len() implies block_order(
                *raw,
                #[trigger] next[g],
            ).len() == 0 by {
                if g < j {
                    assert(next[g] == fs@[g]);
                    assert(signature(before, fs@[g]) is Some);
                    assert(block_order(before, fs@[g]).len() == 0);
                    assert(block_order(*raw, fs@[g]) == block_order(before, fs@[g]));
                }
            }
            assert forall|g: int| 0 <= g < j + 1 implies {
                &&& signature(*raw, #[trigger] next[g]) == Some(
                    (program.funcs[g].params_ty@, program.funcs[g].ret_ty),
                )
                &&& parameters(*raw, next[g]).len() == program.funcs[g].params.len()
                &&& forall|k: int|
                    0 <= k < program.funcs[g].params.len() ==> seen(
                        *raw,
                        next[g],
                        #[trigger] parameters(*raw, next[g])[k],
                    ) == Some(program.funcs[g].params_ty[k])
            } by {
                if g < j {
                    assert(next[g] == fs@[g]);
                } else {
                    assert(next[g] == f);
                    assert forall|k: int| 0 <= k < program.funcs[g].params.len() implies seen(
                        *raw,
                        f,
                        #[trigger] parameters(*raw, f)[k],
                    ) == Some(program.funcs[g].params_ty[k]) by {
                        assert(type_models(kts)[k] == fd.params_ty@[k]);
                    }
                }
            }
        }
        fs.push(f);
        j += 1;
    }
    Ok(fs)
}

/// Exports the blocks, each into the graph of its function.
fn export_blocks(program: &Prog, raw: &mut koopa::ir::Program, fs: &Vec<koopa::ir::Function>) -> (r:
    Result<Vec<koopa::ir::BasicBlock>, ExportError>)
    requires
        program.wf(),
        funcs_agree(*old(raw), program, fs@, program.funcs.len() as int),
    ensures
        match r {
            Ok(bs) => {
                &&& kept(*final(raw), *old(raw))
                &&& funcs_agree(*final(raw), program, fs@, program.funcs.len() as int)
                &&& bbs_agree(*final(raw), program, fs@, bs@, program.bbs.len() as int)
                &&& distinct(bs@)
                &&& forall|b: int|
                    0 <= b < program.bbs.len() ==> name_ok((#[trigger] program.bbs[b]).name@)
            },
            Err(e) => e == ExportError::BadName && !names_ok(program),
        },
{
    let mut bs: Vec<koopa::ir::BasicBlock> = Vec::new();
    let mut b: usize = 0;
    proof {
        kept_refl(*raw);
    }
    while b < program.bbs.len()
        invariant
            b <= program.bbs.len(),
            program.wf(),
            kept(*raw, *old(raw)),
            funcs_agree(*raw, program, fs@, program.funcs.len() as int),
            bbs_agree(*raw, program, fs@, bs@, b as int),
            distinct(bs@),
            forall|c: int| 0 <= c < b ==> name_ok((#[trigger] program.bbs[c]).name@),
        decreases program.bbs.len() - b,
    {
        let bd = &program.bbs[b];
        if !check_name(&bd.name) {
            return Err(ExportError::BadName);
        }
        proof {
            assert(program.bb_ok(b as int));
            assert(signature(*raw, fs@[bd.func.id as int]) is Some);
        }
        let ghost before = *raw;
        let bb = new_block(raw, fs[bd.func.id], bd.name.clone());
        proof {
            funcs_kept(*raw, before, program, fs@, program.funcs.len() as int);
            bbs_kept(*raw, before, program, fs@, bs@, b as int);
            kept_trans(*raw, before, *old(raw));
            let next = bs@.push(bb);
            assert forall|a: int, c: int| 0 <= a < c < next.len() implies #[trigger] next[a]
                != #[trigger] next[c] by {
                if c < b {
                    assert(next[a] == bs@[a] && next[c] == bs@[c]);
                } else {
                    assert(next[a] == bs@[a]);
                    assert(block_known(before, fs@[program.bbs[a].func.id as int], bs@[a]));
                }
            }
            assert forall|c: int| 0 <= c < b + 1 implies block_known(
                *raw,
                fs@[program.bbs[c].func.id as int],
                #[trigger] next[c],
            ) by {
                if c < b {
                    assert(next[c] == bs@[c]);
                }
            }
        }
        bs.push(bb);
        b += 1;
    }
    Ok(bs)
}

/// Nothing changes where nothing is done.
proof fn kept_refl(p: koopa::ir::Program)
    ensures
        kept(p, p),
{
}

/// What was kept twice was kept.
proof fn kept_trans(c: koopa::ir::Program, b: koopa::ir::Program, a: koopa::ir::Program)
    requires
        kept(c, b),
        kept(b, a),
    ensures
        kept(c, a),
{
    held_trans(c, b, a);
    assert forall|f: koopa::ir::Function| signature(a, f) is Some implies #[trigger] block_order(c, f)
        == block_order(a, f) by {
        assert(signature(b, f) is Some);
        assert(block_order(b, f) == block_order(a, f));
    }
    assert forall|f: koopa::ir::Function, bb: koopa::ir::BasicBlock|
        signature(a, f) is Some implies #[trigger] inst_order(c, f, bb) == inst_order(a, f, bb) by {
        assert(signature(b, f) is Some);
        assert(inst_order(b, f, bb) == inst_order(a, f, bb));
    }
}

/// Nothing changes where nothing is done.
proof fn held_refl(p: koopa::ir::Program)
    ensures
        held(p, p),
{
}

/// What was held twice was held.
proof fn held_trans(c: koopa::ir::Program, b: koopa::ir::Program, a: koopa::ir::Program)
    requires
        held(c, b),
        held(b, a),
    ensures
        held(c, a),
{
    assert forall|v: koopa::ir::Value| #[trigger] global_type(a, v) is Some implies global_type(c, v)
        == global_type(a, v) && global_const(c, v) == global_const(a, v) by {
        assert(global_type(b, v) is Some);
    }
    assert forall|f: koopa::ir::Function, v: koopa::ir::Value| #[trigger]
        seen(a, f, v) is Some && signature(a, f) is Some implies seen(c, f, v) == seen(a, f, v) by {
        assert(signature(b, f) is Some);
        assert(seen(b, f, v) is Some);
    }
    assert forall|f: koopa::ir::Function| #[trigger] signature(a, f) is Some implies signature(c, f)
        == signature(a, f) && parameters(c, f) == parameters(a, f) by {
        assert(signature(b, f) is Some);
    }
    assert forall|f: koopa::ir::Function, bb: koopa::ir::BasicBlock| #[trigger]
        block_known(a, f, bb) implies block_known(c, f, bb) by {
        assert(block_known(b, f, bb));
    }
    assert forall|f: koopa::ir::Function, bb: koopa::ir::BasicBlock| #[trigger]
        block_placed(a, f, bb) implies block_placed(c, f, bb) by {
        assert(block_placed(b, f, bb));
    }
}

/// The handles of the given values, in order.
pub open spec fn handles(of: Seq<Val>, vs: Seq<koopa::ir::Value>) -> Seq<koopa::ir::Value> {
    Seq::new(of.len(), |k: int| vs[of[k].id as int])
}

/// What a value of the given kind is made of once it is exported: the same
/// kind, with the handles of its operands in the same order. None for a
/// kind that is not exported.
pub open spec fn built_of(
    kind: ValueKind,
    fs: Seq<koopa::ir::Function>,
    bs: Seq<koopa::ir::BasicBlock>,
    vs: Seq<koopa::ir::Value>,
) -> Option<Built> {
    match kind {
        ValueKind::Integer(n) => Some(Built::Integer(n)),
        ValueKind::ZeroInit => None,
        ValueKind::Aggregate(elems) => Some(Built::Aggregate(handles(elems@, vs))),
        ValueKind::FuncArgRef(k) => Some(Built::Param(k)),
        ValueKind::Alloc => Some(Built::Alloc),
        ValueKind::GlobalAlloc(init) => Some(Built::GlobalAlloc(vs[init.id as int])),
        ValueKind::Load(src) => Some(Built::Load(vs[src.id as int])),
        ValueKind::Store(value, dest) => Some(
            Built::Store(vs[value.id as int], vs[dest.id as int]),
        ),
        ValueKind::GetPtr(src, index) => Some(Built::GetPtr(vs[src.id as int], vs[index.id as int])),
        ValueKind::GetElemPtr(src, index) => Some(
            Built::GetElemPtr(vs[src.id as int], vs[index.id as int]),
        ),
        ValueKind::Binary(op, lhs, rhs) => Some(
            Built::Binary(op_of(op), vs[lhs.id as int], vs[rhs.id as int]),
        ),
        ValueKind::Branch(cond, on_true, on_false) => Some(
            Built::Branch(vs[cond.id as int], bs[on_true.id as int], bs[on_false.id as int]),
        ),
        ValueKind::Jump(to) => Some(Built::Jump(bs[to.id as int])),
        ValueKind::Call(callee, args) => Some(
            Built::Call(fs[callee.id as int], handles(args@, vs)),
        ),
        ValueKind::Return(value) => Some(
            Built::Return(
                match value {
                    Some(x) => Some(vs[x.id as int]),
                    None => None,
                },
            ),
        ),
    }
}

/// The exported value `h` is made of what the value `i` is made of here.
pub open spec fn kind_agrees(
    raw: koopa::ir::Program,
    program: &Prog,
    fs: Seq<koopa::ir::Function>,
    bs: Seq<koopa::ir::BasicBlock>,
    vs: Seq<koopa::ir::Value>,
    i: int,
    h: koopa::ir::Value,
) -> bool {
    match program.values[i].func {
        None => global_made(raw, h) == built_of(program.values[i].kind, fs, bs, vs),
        Some(f) => made(raw, fs[f.id as int], h) == built_of(program.values[i].kind, fs, bs, vs),
    }
}

/// Each of the first `n` values is made, in the exported program, of what
/// it is made of here: the same kind, with the same operands in the same
/// order.
pub open spec fn kinds_agree(
    raw: koopa::ir::Program,
    program: &Prog,
    fs: Seq<koopa::ir::Function>,
    bs: Seq<koopa::ir::BasicBlock>,
    vs: Seq<koopa::ir::Value>,
    n: int,
) -> bool {
    forall|i: int| 0 <= i < n ==> kind_agrees(raw, program, fs, bs, vs, i, #[trigger] vs[i])
}

/// What a value is made of does not depend on the handles of the values
/// after it.
proof fn built_push(
    program: &Prog,
    i: int,
    fs: Seq<koopa::ir::Function>,
    bs: Seq<koopa::ir::BasicBlock>,
    vs: Seq<koopa::ir::Value>,
    h: koopa::ir::Value,
)
    requires
        program.wf(),
        0 <= i < program.values.len(),
        i <= vs.len(),
    ensures
        built_of(program.values[i].kind, fs, bs, vs.push(h)) == built_of(
            program.values[i].kind,
            fs,
            bs,
            vs,
        ),
{
    let d = program.values[i];
    let next = vs.push(h);
    assert(program.data_ok(d, i));
    match d.kind {
        ValueKind::Aggregate(elems) => {
            assert forall|k: int| 0 <= k < elems.len() implies next[elems@[k].id as int]
                == vs[elems@[k].id as int] by {
                assert(program.operand(None, elems@[k], i));
            }
            assert(handles(elems@, next) =~= handles(elems@, vs));
        },
        ValueKind::Call(callee, args) => {
            assert forall|k: int| 0 <= k < args.len() implies next[args@[k].id as int]
                == vs[args@[k].id as int] by {
                assert(program.operand(d.func, args@[k], i));
            }
            assert(handles(args@, next) =~= handles(args@, vs));
        },
        _ => {},
    }
}

proof fn kinds_kept(
    new: koopa::ir::Program,
    old: koopa::ir::Program,
    program: &Prog,
    fs: Seq<koopa::ir::Function>,
    bs: Seq<koopa::ir::BasicBlock>,
    vs: Seq<koopa::ir::Value>,
    n: int,
)
    requires
        program.wf(),
        held(new, old),
        exported(old, program, fs, bs, vs, n),
        kinds_agree(old, program, fs, bs, vs, n),
        n <= program.values.len(),
    ensures
        kinds_agree(new, program, fs, bs, vs, n),
{
    assert forall|i: int| 0 <= i < n implies kind_agrees(
        new,
        program,
        fs,
        bs,
        vs,
        i,
        #[trigger] vs[i],
    ) by {
        assert(kind_agrees(old, program, fs, bs, vs, i, vs[i]));
        match program.values[i].func {
            None => {
                assert(global_type(old, vs[i]) is Some);
            },
            Some(f) => {
                assert(program.data_ok(program.values[i], i));
                assert(signature(old, fs[f.id as int]) is Some);
                assert(seen(old, fs[f.id as int], vs[i]) is Some);
            },
        }
    }
}

/// One more value is made of what it is made of here.
proof fn kinds_next(
    raw: koopa::ir::Program,
    program: &Prog,
    fs: Seq<koopa::ir::Function>,
    bs: Seq<koopa::ir::BasicBlock>,
    vs: Seq<koopa::ir::Value>,
    n: int,
    h: koopa::ir::Value,
)
    requires
        program.wf(),
        vs.len() == n,
        0 <= n < program.values.len(),
        kinds_agree(raw, program, fs, bs, vs, n),
        kind_agrees(raw, program, fs, bs, vs, n, h),
    ensures
        kinds_agree(raw, program, fs, bs, vs.push(h), n + 1),
{
    let next = vs.push(h);
    assert forall|i: int| 0 <= i < n + 1 implies kind_agrees(
        raw,
        program,
        fs,
        bs,
        next,
        i,
        #[trigger] next[i],
    ) by {
        built_push(program, i, fs, bs, vs, h);
        if i < n {
            assert(next[i] == vs[i]);
            assert(kind_agrees(raw, program, fs, bs, vs, i, vs[i]));
        }
    }
}

/// What is exported so far: every function and block, and the first `n`
/// values.
pub open spec fn exported(
    raw: koopa::ir::Program,
    program: &Prog,
    fs: Seq<koopa::ir::Function>,
    bs: Seq<koopa::ir::BasicBlock>,
    vs: Seq<koopa::ir::Value>,
    n: int,
) -> bool {
    &&& funcs_agree(raw, program, fs, program.funcs.len() as int)
    &&& bbs_agree(raw, program, fs, bs, program.bbs.len() as int)
    &&& values_agree(raw, program, fs, vs, n)
}

proof fn exported_kept(
    new: koopa::ir::Program,
    old: koopa::ir::Program,
    program: &Prog,
    fs: Seq<koopa::ir::Function>,
    bs: Seq<koopa::ir::BasicBlock>,
    vs: Seq<koopa::ir::Value>,
    n: int,
)
    requires
        program.wf(),
        held(new, old),
        exported(old, program, fs, bs, vs, n),
        n <= program.values.len(),
    ensures
        exported(new, program, fs, bs, vs, n),
{
    funcs_kept(new, old, program, fs, program.funcs.len() as int);
    bbs_kept(new, old, program, fs, bs, program.bbs.len() as int);
    values_kept(new, old, program, fs, vs, n);
}

/// One more value has been exported.
proof fn exported_next(
    raw: koopa::ir::Program,
    program: &Prog,
    fs: Seq<koopa::ir::Function>,
    bs: Seq<koopa::ir::BasicBlock>,
    vs: Seq<koopa::ir::Value>,
    n: int,
    h: koopa::ir::Value,
)
    requires
        exported(raw, program, fs, bs, vs, n),
        0 <= n < program.values.len(),
        match program.values[n].func {
            None => global_type(raw, h) == Some(program.values[n].ty) && global_const(raw, h)
                == program.values[n].kind.is_const(),
            Some(f) => seen(raw, fs[f.id as int], h) == Some(program.values[n].ty),
        },
    ensures
        exported(raw, program, fs, bs, vs.push(h), n + 1),
{
    let next = vs.push(h);
    assert forall|i: int| 0 <= i < n + 1 implies match program.values[i].func {
        None => global_type(raw, #[trigger] next[i]) == Some(program.values[i].ty) && global_const(
            raw,
            next[i],
        ) == program.values[i].kind.is_const(),
        Some(f) => seen(raw, fs[f.id as int], next[i]) == Some(program.values[i].ty),
    } by {
        if i < n {
            assert(next[i] == vs[i]);
        }
    }
}

/// The function `f` sees an exported operand with the type that the
/// operand has here.
proof fn operand_seen(
    raw: koopa::ir::Program,
    program: &Prog,
    fs: Seq<koopa::ir::Function>,
    vs: Seq<koopa::ir::Value>,
    n: int,
    f: Func,
    o: Val,
)
    requires
        values_agree(raw, program, fs, vs, n),
        program.operand(Some(f), o, n),
    ensures
        seen(raw, fs[f.id as int], vs[o.id as int]) == Some(program.ty(o)),
{
    let i = o.id as int;
    assert(match program.values[i].func {
        None => global_type(raw, #[trigger] vs[i]) == Some(program.values[i].ty),
        Some(g) => seen(raw, fs[g.id as int], vs[i]) == Some(program.values[i].ty),
    });
}

/// The handles of the given values.
fn handles_of(vs: &Vec<koopa::ir::Value>, of: &Vec<Val>) -> (r: Vec<koopa::ir::Value>)
    requires
        forall|k: int| 0 <= k < of.len() ==> (#[trigger] of[k]).id < vs.len(),
    ensures
        r.len() == of.len(),
        forall|k: int| 0 <= k < of.len() ==> #[trigger] r[k] == vs[of[k].id as int],
{
    let mut r: Vec<koopa::ir::Value> = Vec::new();
    let mut k: usize = 0;
    while k < of.len()
        invariant
            k <= of.len(),
            r.len() == k,
            forall|j: int| 0 <= j < of.len() ==> (#[trigger] of[j]).id < vs.len(),
            forall|j: int| 0 <= j < k ==> #[trigger] r[j] == vs[of[j].id as int],
        decreases of.len() - k,
    {
        r.push(vs[of[k].id]);
        k += 1;
    }
    r
}

/// Exports the value `i`, after all before it.
fn export_value(
    program: &Prog,
    raw: &mut koopa::ir::Program,
    fs: &Vec<koopa::ir::Function>,
    bs: &Vec<koopa::ir::BasicBlock>,
    vs: &Vec<koopa::ir::Value>,
    i: usize,
) -> (r: Result<koopa::ir::Value, ExportError>)
    requires
        program.wf(),
        i < program.values.len(),
        exported(*old(raw), program, fs@, bs@, vs@, i as int),
        forall|f: int|
            0 <= f < program.funcs.len() ==> (#[trigger] program.funcs[f]).params.len() == 0
                || program.funcs[f].params.len() == program.funcs[f].params_ty.len(),
    ensures
        match r {
            Ok(h) => {
                &&& kept(*final(raw), *old(raw))
                &&& exported(*final(raw), program, fs@, bs@, vs@.push(h), i + 1)
                &&& kind_agrees(*final(raw), program, fs@, bs@, vs@, i as int, h)
                &&& kind_ok(program, i as int)
                &&& program.values[i as int].kind is Alloc ==> ty_ok(program.values[i as int].ty)
            },
            Err(e) => match e {
                ExportError::BadName => false,
                ExportError::BadType => program.values[i as int].kind is Alloc && !ty_ok(
                    program.values[i as int].ty,
                ),
                ExportError::Unsupported => !kind_ok(program, i as int),
            },
        },
{
    let d = &program.values[i];
    let ghost before = *raw;
    let ghost n = i as int;
    proof {
        assert(program.data_ok(program.values[n], n));
        kept_refl(*raw);
    }
    let owner = match d.func {
        Some(f) => Some(fs[f.id]),
        None => None,
    };
    proof {
        if d.func is Some {
            assert(signature(*raw, fs@[d.func->Some_0.id as int]) is Some);
        }
    }
    let h = match &d.kind {
        ValueKind::Integer(n) => match owner {
            Some(f) => local_integer(raw, f, *n),
            None => global_integer(raw, *n),
        },
        ValueKind::ZeroInit => {
            return Err(ExportError::Unsupported);
        },
        ValueKind::Aggregate(elems) => {
            proof {
                assert forall|k: int| 0 <= k < elems.len() implies (#[trigger] elems[k]).id
                    < vs.len() by {
                    assert(program.operand(None, elems@[k], n));
                }
            }
            let hs = handles_of(vs, elems);
            proof {
                assert(program.operand(None, elems@[0], n));
                assert forall|k: int| 0 <= k < hs.len() implies global_const(
                    *raw,
                    #[trigger] hs[k],
                ) && global_type(*raw, hs[k]) == global_type(*raw, hs[0]) by {
                    assert(program.operand(None, elems@[k], n));
                    assert(hs[k] == vs@[elems@[k].id as int]);
                    assert(hs[0] == vs@[elems@[0].id as int]);
                }
            }
            proof {
                assert(hs@ =~= handles(elems@, vs@));
            }
            global_aggregate(raw, hs)
        },
        ValueKind::FuncArgRef(k) => {
            let f = match d.func {
                Some(f) => f,
                None => {
                    return Err(ExportError::Unsupported);
                },
            };
            if *k >= program.funcs[f.id].params.len() || program.funcs[f.id].params[*k].id != i {
                return Err(ExportError::Unsupported);
            }
            proof {
                assert(program.func_ok(f.id as int));
                assert(program.funcs[f.id as int].params[*k as int] == Val { id: i });
                assert(program.ty(program.funcs[f.id as int].params[*k as int])
                    == program.funcs[f.id as int].params_ty[*k as int]);
            }
            let ps = func_params(raw, fs[f.id]);
            ps[*k]
        },
        ValueKind::Alloc => {
            let f = match owner {
                Some(f) => f,
                None => {
                    return Err(ExportError::Unsupported);
                },
            };
            let pointee = match &d.ty {
                Ty::Pointer(pointee) => pointee,
                _ => {
                    return Err(ExportError::Unsupported);
                },
            };
            let t = export_type(pointee)?;
            local_alloc(raw, f, t)
        },
        ValueKind::GlobalAlloc(init) => {
            proof {
                assert(program.operand(None, *init, n));
            }
            global_alloc(raw, vs[init.id])
        },
        ValueKind::Load(src) => {
            let f = match owner {
                Some(f) => f,
                None => {
                    return Err(ExportError::Unsupported);
                },
            };
            proof {
                operand_seen(*raw, program, fs@, vs@, n, d.func->Some_0, *src);
            }
            local_load(raw, f, vs[src.id])
        },
        ValueKind::Store(value, dest) => {
            let f = match owner {
                Some(f) => f,
                None => {
                    return Err(ExportError::Unsupported);
                },
            };
            proof {
                operand_seen(*raw, program, fs@, vs@, n, d.func->Some_0, *value);
                operand_seen(*raw, program, fs@, vs@, n, d.func->Some_0, *dest);
            }
            local_store(raw, f, vs[value.id], vs[dest.id])
        },
        ValueKind::GetPtr(src, index) => {
            let f = match owner {
                Some(f) => f,
                None => {
                    return Err(ExportError::Unsupported);
                },
            };
            proof {
                operand_seen(*raw, program, fs@, vs@, n, d.func->Some_0, *src);
                operand_seen(*raw, program, fs@, vs@, n, d.func->Some_0, *index);
            }
            local_get_ptr(raw, f, vs[src.id], vs[index.id])
        },
        ValueKind::GetElemPtr(src, index) => {
            let f = match owner {
                Some(f) => f,
                None => {
                    return Err(ExportError::Unsupported);
                },
            };
            proof {
                operand_seen(*raw, program, fs@, vs@, n, d.func->Some_0, *src);
                operand_seen(*raw, program, fs@, vs@, n, d.func->Some_0, *index);
            }
            local_get_elem_ptr(raw, f, vs[src.id], vs[index.id])
        },
        ValueKind::Binary(op, lhs, rhs) => {
            let f = match owner {
                Some(f) => f,
                None => {
                    return Err(ExportError::Unsupported);
                },
            };
            proof {
                operand_seen(*raw, program, fs@, vs@, n, d.func->Some_0, *lhs);
                operand_seen(*raw, program, fs@, vs@, n, d.func->Some_0, *rhs);
            }
            local_binary(raw, f, export_op(*op), vs[lhs.id], vs[rhs.id])
        },
        ValueKind::Branch(cond, on_true, on_false) => {
            let f = match owner {
                Some(f) => f,
                None => {
                    return Err(ExportError::Unsupported);
                },
            };
            proof {
                operand_seen(*raw, program, fs@, vs@, n, d.func->Some_0, *cond);
                assert(block_known(
                    *raw,
                    fs@[program.bbs[on_true.id as int].func.id as int],
                    bs@[on_true.id as int],
                ));
                assert(block_known(
                    *raw,
                    fs@[program.bbs[on_false.id as int].func.id as int],
                    bs@[on_false.id as int],
                ));
            }
            local_branch(raw, f, vs[cond.id], bs[on_true.id], bs[on_false.id])
        },
        ValueKind::Jump(to) => {
            let f = match owner {
                Some(f) => f,
                None => {
                    return Err(ExportError::Unsupported);
                },
            };
            proof {
                assert(block_known(
                    *raw,
                    fs@[program.bbs[to.id as int].func.id as int],
                    bs@[to.id as int],
                ));
            }
            local_jump(raw, f, bs[to.id])
        },
        ValueKind::Call(callee, args) => {
            let f = match owner {
                Some(f) => f,
                None => {
                    return Err(ExportError::Unsupported);
                },
            };
            proof {
                assert forall|k: int| 0 <= k < args.len() implies (#[trigger] args[k]).id < vs.len() by {
                    assert(program.operand(d.func, args@[k], n));
                }
            }
            let hs = handles_of(vs, args);
            proof {
                assert(signature(*raw, fs@[callee.id as int]) == Some(
                    (
                        program.funcs[callee.id as int].params_ty@,
                        program.funcs[callee.id as int].ret_ty,
                    ),
                ));
                assert forall|k: int| 0 <= k < hs.len() implies seen(
                    *raw,
                    fs@[d.func->Some_0.id as int],
                    #[trigger] hs[k],
                ) == Some(program.funcs[callee.id as int].params_ty@[k]) by {
                    assert(program.operand(d.func, args@[k], n));
                    operand_seen(*raw, program, fs@, vs@, n, d.func->Some_0, args@[k]);
                }
            }
            proof {
                assert(hs@ =~= handles(args@, vs@));
            }
            local_call(raw, f, fs[callee.id], hs)
        },
        ValueKind::Return(value) => {
            let f = match owner {
                Some(f) => f,
                None => {
                    return Err(ExportError::Unsupported);
                },
            };
            let hv = match value {
                Some(x) => {
                    proof {
                        operand_seen(*raw, program, fs@, vs@, n, d.func->Some_0, *x);
                    }
                    Some(vs[x.id])
                },
                None => None,
            };
            local_ret(raw, f, hv)
        },
    };
    proof {
        exported_kept(*raw, before, program, fs@, bs@, vs@, n);
        exported_next(*raw, program, fs@, bs@, vs@, n, h);
    }
    Ok(h)
}

/// Exports the values, in the order in which they were made.
fn export_values(
    program: &Prog,
    raw: &mut koopa::ir::Program,
    fs: &Vec<koopa::ir::Function>,
    bs: &Vec<koopa::ir::BasicBlock>,
) -> (r: Result<Vec<koopa::ir::Value>, ExportError>)
    requires
        program.wf(),
        exported(*old(raw), program, fs@, bs@, Seq::empty(), 0),
        forall|f: int|
            0 <= f < program.funcs.len() ==> (#[trigger] program.funcs[f]).params.len() == 0
                || program.funcs[f].params.len() == program.funcs[f].params_ty.len(),
    ensures
        match r {
            Ok(vs) => {
                &&& kept(*final(raw), *old(raw))
                &&& exported(*final(raw), program, fs@, bs@, vs@, program.values.len() as int)
                &&& kinds_agree(*final(raw), program, fs@, bs@, vs@, program.values.len() as int)
                &&& forall|i: int| 0 <= i < program.values.len() ==> #[trigger] kind_ok(program, i)
                &&& forall|i: int|
                    0 <= i < program.values.len() && (#[trigger] program.values[i]).kind is Alloc
                        ==> ty_ok(program.values[i].ty)
            },
            Err(e) => match e {
                ExportError::BadName => false,
                ExportError::BadType => !types_ok(program),
                ExportError::Unsupported => !kinds_ok(program),
            },
        },
{
    let mut vs: Vec<koopa::ir::Value> = Vec::new();
    let mut i: usize = 0;
    proof {
        kept_refl(*raw);
    }
    while i < program.values.len()
        invariant
            i <= program.values.len(),
            program.wf(),
            kept(*raw, *old(raw)),
            exported(*raw, program, fs@, bs@, vs@, i as int),
            kinds_agree(*raw, program, fs@, bs@, vs@, i as int),
            vs.len() == i,
            forall|f: int|
                0 <= f < program.funcs.len() ==> (#[trigger] program.funcs[f]).params.len() == 0
                    || program.funcs[f].params.len() == program.funcs[f].params_ty.len(),
            forall|j: int| 0 <= j < i ==> #[trigger] kind_ok(program, j),
            forall|j: int|
                0 <= j < i && (#[trigger] program.values[j]).kind is Alloc ==> ty_ok(
                    program.values[j].ty,
                ),
        decreases program.values.len() - i,
    {
        let ghost before = *raw;
        let h = match export_value(program, raw, fs, bs, &vs, i) {
            Ok(h) => h,
            Err(e) => {
                proof {
                    if e == ExportError::BadType {
                        assert(program.values[i as int].kind is Alloc);
                    } else {
                        assert(!kind_ok(program, i as int));
                    }
                }
                return Err(e);
            },
        };
        proof {
            kinds_kept(*raw, before, program, fs@, bs@, vs@, i as int);
            kinds_next(*raw, program, fs@, bs@, vs@, i as int, h);
            kept_trans(*raw, before, *old(raw));
        }
        vs.push(h);
        i += 1;
    }
    Ok(vs)
}

/// The handles of the given blocks, in order.
pub open spec fn block_handles(of: Seq<Bb>, bs: Seq<koopa::ir::BasicBlock>) -> Seq<
    koopa::ir::BasicBlock,
> {
    of.map_values(|b: Bb| bs[b.id as int])
}

/// The first `k` keys, each once, in the order in which they first come.
pub open spec fn once<K>(keys: Seq<K>, k: int) -> Seq<K>
    decreases k,
{
    if k <= 0 {
        Seq::empty()
    } else {
        pushed(once(keys, k - 1), keys[k - 1])
    }
}

/// The layout of the exported function `f` holds the first `k` blocks of
/// the layout of the function, in order.
pub open spec fn blocks_laid(
    raw: koopa::ir::Program,
    program: &Prog,
    funcs: Seq<koopa::ir::Function>,
    bbs: Seq<koopa::ir::BasicBlock>,
    f: int,
    k: int,
) -> bool {
    block_order(raw, funcs[f]) == once(block_handles(program.funcs[f].bbs@, bbs), k)
}

/// In the layout of the exported function `f` the block `b` holds the
/// first `i` instructions of the block, in order.
pub open spec fn insts_laid(
    raw: koopa::ir::Program,
    program: &Prog,
    funcs: Seq<koopa::ir::Function>,
    bbs: Seq<koopa::ir::BasicBlock>,
    values: Seq<koopa::ir::Value>,
    f: int,
    b: int,
    i: int,
) -> bool {
    inst_order(raw, funcs[f], bbs[b]) == once(handles(program.bbs[b].insts@, values), i)
}

/// The layouts of the first `upto` exported functions hold the blocks of
/// the functions, and these their instructions, in the order in which the
/// program has them.
pub open spec fn funcs_laid(
    raw: koopa::ir::Program,
    program: &Prog,
    funcs: Seq<koopa::ir::Function>,
    bbs: Seq<koopa::ir::BasicBlock>,
    values: Seq<koopa::ir::Value>,
    upto: int,
) -> bool {
    &&& forall|f: int|
        0 <= f < upto ==> #[trigger] blocks_laid(
            raw,
            program,
            funcs,
            bbs,
            f,
            program.funcs[f].bbs.len() as int,
        )
    &&& forall|f: int, k: int|
        0 <= f < upto && 0 <= k < program.funcs[f].bbs.len() ==> insts_laid(
            raw,
            program,
            funcs,
            bbs,
            values,
            f,
            (#[trigger] program.funcs[f].bbs[k]).id as int,
            program.bbs[program.funcs[f].bbs[k].id as int].insts.len() as int,
        )
}

/// Every layout is in the order of the program: see [`funcs_laid`].
pub open spec fn order_agrees(
    raw: koopa::ir::Program,
    program: &Prog,
    funcs: Seq<koopa::ir::Function>,
    bbs: Seq<koopa::ir::BasicBlock>,
    values: Seq<koopa::ir::Value>,
) -> bool {
    funcs_laid(raw, program, funcs, bbs, values, program.funcs.len() as int)
}

/// The exported functions from `from` on have nothing in their layouts.
pub open spec fn layouts_empty(
    raw: koopa::ir::Program,
    funcs: Seq<koopa::ir::Function>,
    from: int,
) -> bool {
    forall|g: int| from <= g < funcs.len() ==> block_order(raw, #[trigger] funcs[g]).len() == 0
}

/// No handle stands twice in the list.
pub open spec fn distinct<K>(list: Seq<K>) -> bool {
    forall|a: int, b: int| 0 <= a < b < list.len() ==> #[trigger] list[a] != #[trigger] list[b]
}

/// Nothing changed in the layouts of the functions other than `x`.
pub open spec fn elsewhere(
    new: koopa::ir::Program,
    old: koopa::ir::Program,
    x: koopa::ir::Function,
) -> bool {
    &&& forall|g: koopa::ir::Function|
        signature(old, g) is Some && g != x ==> #[trigger] block_order(new, g) == block_order(old, g)
    &&& forall|g: koopa::ir::Function, b: koopa::ir::BasicBlock|
        signature(old, g) is Some && g != x ==> #[trigger] inst_order(new, g, b) == inst_order(
            old,
            g,
            b,
        )
}

/// A key that came among the first `k` is among them, each once.
proof fn once_holds<K>(keys: Seq<K>, k: int, j: int)
    requires
        0 <= j < k <= keys.len(),
    ensures
        once(keys, k).contains(keys[j]),
    decreases k,
{
    let before = once(keys, k - 1);
    let key = keys[k - 1];
    if before.contains(key) {
        if j < k - 1 {
            once_holds(keys, k - 1, j);
        }
    } else {
        assert(before.push(key)[before.len() as int] == key);
        if j < k - 1 {
            once_holds(keys, k - 1, j);
            let at = choose|at: int| 0 <= at < before.len() && before[at] == keys[j];
            assert(before.push(key)[at] == keys[j]);
        }
    }
}

/// A key among the first `k`, each once, came among them.
proof fn once_from<K>(keys: Seq<K>, k: int, key: K) -> (j: int)
    requires
        0 <= k <= keys.len(),
        once(keys, k).contains(key),
    ensures
        0 <= j < k,
        keys[j] == key,
    decreases k,
{
    if k <= 0 {
        assert(once(keys, k).len() == 0);
        0
    } else {
        let before = once(keys, k - 1);
        if before.contains(key) {
            once_from(keys, k - 1, key)
        } else {
            let at = choose|at: int| 0 <= at < once(keys, k).len() && once(keys, k)[at] == key;
            assert(once(keys, k) == before.push(keys[k - 1]));
            assert(at == before.len());
            k - 1
        }
    }
}

/// A list that holds no key twice comes out as it stands: where no block
/// stands twice in a layout and no instruction twice in a block, the
/// exported layout is the layout, handle for handle.
pub proof fn once_of_distinct<K>(keys: Seq<K>, k: int)
    requires
        distinct(keys),
        0 <= k <= keys.len(),
    ensures
        once(keys, k) == keys.take(k),
    decreases k,
{
    if k > 0 {
        once_of_distinct(keys, k - 1);
        let before = keys.take(k - 1);
        if before.contains(keys[k - 1]) {
            let at = choose|at: int| 0 <= at < before.len() && before[at] == keys[k - 1];
            assert(keys[at] != keys[k - 1]);
        }
        assert(before.push(keys[k - 1]) =~= keys.take(k));
    } else {
        assert(keys.take(k) =~= Seq::<K>::empty());
    }
}

/// What is done to the layout of one function leaves the others as they
/// were.
proof fn elsewhere_keeps(
    new: koopa::ir::Program,
    old: koopa::ir::Program,
    program: &Prog,
    fs: Seq<koopa::ir::Function>,
    bs: Seq<koopa::ir::BasicBlock>,
    vs: Seq<koopa::ir::Value>,
    f: int,
)
    requires
        0 <= f < fs.len(),
        elsewhere(new, old, fs[f]),
        distinct(fs),
        funcs_agree(old, program, fs, program.funcs.len() as int),
        funcs_laid(old, program, fs, bs, vs, f),
        layouts_empty(old, fs, f + 1),
    ensures
        funcs_laid(new, program, fs, bs, vs, f),
        layouts_empty(new, fs, f + 1),
{
    assert forall|g: int| 0 <= g < f implies #[trigger] blocks_laid(
        new,
        program,
        fs,
        bs,
        g,
        program.funcs[g].bbs.len() as int,
    ) by {
        assert(fs[g] != fs[f]);
        assert(signature(old, fs[g]) is Some);
        assert(blocks_laid(old, program, fs, bs, g, program.funcs[g].bbs.len() as int));
    }
    assert forall|g: int, k: int| 0 <= g < f && 0 <= k < program.funcs[g].bbs.len() implies insts_laid(
        new,
        program,
        fs,
        bs,
        vs,
        g,
        (#[trigger] program.funcs[g].bbs[k]).id as int,
        program.bbs[program.funcs[g].bbs[k].id as int].insts.len() as int,
    ) by {
        assert(fs[g] != fs[f]);
        assert(signature(old, fs[g]) is Some);
    }
    assert forall|g: int| f + 1 <= g < fs.len() implies block_order(new, #[trigger] fs[g]).len()
        == 0 by {
        assert(fs[f] != fs[g]);
        assert(signature(old, fs[g]) is Some);
        assert(block_order(old, fs[g]).len() == 0);
    }
}

/// Layouts that were empty are empty after whatever builds a value, a
/// block or a function.
proof fn empty_kept(
    new: koopa::ir::Program,
    old: koopa::ir::Program,
    program: &Prog,
    fs: Seq<koopa::ir::Function>,
)
    requires
        kept(new, old),
        funcs_agree(old, program, fs, program.funcs.len() as int),
        layouts_empty(old, fs, 0),
    ensures
        layouts_empty(new, fs, 0),
{
    assert forall|g: int| 0 <= g < fs.len() implies block_order(new, #[trigger] fs[g]).len() == 0 by {
        assert(signature(old, fs[g]) is Some);
        assert(block_order(old, fs[g]).len() == 0);
        assert(block_order(new, fs[g]) == block_order(old, fs[g]));
    }
}

/// Lays the blocks out in their functions and the instructions in their
/// blocks, in the order in which the program has them.
fn export_layout(
    program: &Prog,
    raw: &mut koopa::ir::Program,
    fs: &Vec<koopa::ir::Function>,
    bs: &Vec<koopa::ir::BasicBlock>,
    vs: &Vec<koopa::ir::Value>,
)
    requires
        program.wf(),
        exported(*old(raw), program, fs@, bs@, vs@, program.values.len() as int),
        kinds_agree(*old(raw), program, fs@, bs@, vs@, program.values.len() as int),
        distinct(fs@),
        distinct(bs@),
        layouts_empty(*old(raw), fs@, 0),
    ensures
        exported(*final(raw), program, fs@, bs@, vs@, program.values.len() as int),
        kinds_agree(*final(raw), program, fs@, bs@, vs@, program.values.len() as int),
        layout_agrees(*final(raw), program, fs@, bs@),
        order_agrees(*final(raw), program, fs@, bs@, vs@),
{
    let mut f: usize = 0;
    while f < program.funcs.len()
        invariant
            f <= program.funcs.len(),
            program.wf(),
            distinct(fs@),
            distinct(bs@),
            exported(*raw, program, fs@, bs@, vs@, program.values.len() as int),
            kinds_agree(*raw, program, fs@, bs@, vs@, program.values.len() as int),
            funcs_laid(*raw, program, fs@, bs@, vs@, f as int),
            layouts_empty(*raw, fs@, f as int),
            forall|g: int, k: int|
                0 <= g < f && 0 <= k < program.funcs[g].bbs.len() ==> block_placed(
                    *raw,
                    fs@[g],
                    bs@[(#[trigger] program.funcs[g].bbs[k]).id as int],
                ),
        decreases program.funcs.len() - f,
    {
        let layout = &program.funcs[f].bbs;
        let mut k: usize = 0;
        proof {
            assert(block_order(*raw, fs@[f as int]).len() == 0);
            assert(block_order(*raw, fs@[f as int]) =~= once(
                block_handles(program.funcs[f as int].bbs@, bs@),
                0,
            ));
        }
        while k < layout.len()
            invariant
                k <= layout.len(),
                f < program.funcs.len(),
                program.wf(),
                distinct(fs@),
                distinct(bs@),
                *layout == program.funcs[f as int].bbs,
                exported(*raw, program, fs@, bs@, vs@, program.values.len() as int),
                kinds_agree(*raw, program, fs@, bs@, vs@, program.values.len() as int),
                funcs_laid(*raw, program, fs@, bs@, vs@, f as int),
                layouts_empty(*raw, fs@, f + 1),
                blocks_laid(*raw, program, fs@, bs@, f as int, k as int),
                forall|j: int|
                    0 <= j < k ==> insts_laid(
                        *raw,
                        program,
                        fs@,
                        bs@,
                        vs@,
                        f as int,
                        (#[trigger] program.funcs[f as int].bbs[j]).id as int,
                        program.bbs[program.funcs[f as int].bbs[j].id as int].insts.len() as int,
                    ),
                forall|g: int, j: int|
                    0 <= g < f && 0 <= j < program.funcs[g].bbs.len() ==> block_placed(
                        *raw,
                        fs@[g],
                        bs@[(#[trigger] program.funcs[g].bbs[j]).id as int],
                    ),
                forall|j: int|
                    0 <= j < k ==> block_placed(
                        *raw,
                        fs@[f as int],
                        bs@[(#[trigger] program.funcs[f as int].bbs[j]).id as int],
                    ),
            decreases layout.len() - k,
        {
            let bb = layout[k];
            proof {
                assert(program.func_ok(f as int));
                assert(program.has_bb(program.funcs[f as int].bbs[k as int]));
                assert(program.bb_ok(bb.id as int));
                assert(signature(*raw, fs@[f as int]) is Some);
            }
            let ghost before = *raw;
            let ghost keys = block_handles(program.funcs[f as int].bbs@, bs@);
            let ghost again = block_order(before, fs@[f as int]).contains(bs@[bb.id as int]);
            place_block(raw, fs[f], bs[bb.id]);
            proof {
                kinds_kept(*raw, before, program, fs@, bs@, vs@, program.values.len() as int);
                exported_kept(*raw, before, program, fs@, bs@, vs@, program.values.len() as int);
                elsewhere_keeps(*raw, before, program, fs@, bs@, vs@, f as int);
                assert(keys[k as int] == bs@[bb.id as int]);
                assert(blocks_laid(*raw, program, fs@, bs@, f as int, k + 1));
                assert forall|g: int, j: int|
                    0 <= g < f && 0 <= j < program.funcs[g].bbs.len() implies block_placed(
                    *raw,
                    fs@[g],
                    bs@[(#[trigger] program.funcs[g].bbs[j]).id as int],
                ) by {
                    assert(block_placed(before, fs@[g], bs@[program.funcs[g].bbs[j].id as int]));
                }
                assert forall|j: int| 0 <= j < k + 1 implies block_placed(
                    *raw,
                    fs@[f as int],
                    bs@[(#[trigger] program.funcs[f as int].bbs[j]).id as int],
                ) by {
                    if j < k {
                        assert(block_placed(
                            before,
                            fs@[f as int],
                            bs@[program.funcs[f as int].bbs[j].id as int],
                        ));
                    }
                }
                if again {
                    let j = once_from(keys, k as int, bs@[bb.id as int]);
                    assert(keys[j] == bs@[program.funcs[f as int].bbs[j].id as int]);
                    assert(program.has_bb(program.funcs[f as int].bbs[j]));
                    assert(program.funcs[f as int].bbs[j].id == bb.id);
                    assert(insts_laid(
                        before,
                        program,
                        fs@,
                        bs@,
                        vs@,
                        f as int,
                        program.funcs[f as int].bbs[j].id as int,
                        program.bbs[program.funcs[f as int].bbs[j].id as int].insts.len() as int,
                    ));
                } else {
                    assert(inst_order(*raw, fs@[f as int], bs@[bb.id as int]) =~= once(
                        handles(program.bbs[bb.id as int].insts@, vs@),
                        0,
                    ));
                }
                assert forall|j: int|
                    0 <= j < k && (#[trigger] program.funcs[f as int].bbs[j]).id
                        != bb.id implies insts_laid(
                    *raw,
                    program,
                    fs@,
                    bs@,
                    vs@,
                    f as int,
                    program.funcs[f as int].bbs[j].id as int,
                    program.bbs[program.funcs[f as int].bbs[j].id as int].insts.len() as int,
                ) by {
                    assert(program.has_bb(program.funcs[f as int].bbs[j]));
                    assert(bs@[program.funcs[f as int].bbs[j].id as int] != bs@[bb.id as int]);
                    assert(insts_laid(
                        before,
                        program,
                        fs@,
                        bs@,
                        vs@,
                        f as int,
                        program.funcs[f as int].bbs[j].id as int,
                        program.bbs[program.funcs[f as int].bbs[j].id as int].insts.len() as int,
                    ));
                }
            }
            let insts = &program.bbs[bb.id].insts;
            let ghost placed = *raw;
            let ghost items = handles(program.bbs[bb.id as int].insts@, vs@);
            let mut i: usize = 0;
            proof {
                held_refl(*raw);
            }
            while i < insts.len()
                invariant
                    i <= insts.len(),
                    f < program.funcs.len(),
                    k < program.funcs[f as int].bbs.len(),
                    bb == program.funcs[f as int].bbs[k as int],
                    program.wf(),
                    program.has_bb(bb),
                    distinct(fs@),
                    distinct(bs@),
                    *insts == program.bbs[bb.id as int].insts,
                    items == handles(program.bbs[bb.id as int].insts@, vs@),
                    held(*raw, placed),
                    exported(*raw, program, fs@, bs@, vs@, program.values.len() as int),
                    kinds_agree(*raw, program, fs@, bs@, vs@, program.values.len() as int),
                    block_placed(*raw, fs@[f as int], bs@[bb.id as int]),
                    funcs_laid(*raw, program, fs@, bs@, vs@, f as int),
                    layouts_empty(*raw, fs@, f + 1),
                    blocks_laid(*raw, program, fs@, bs@, f as int, k + 1),
                    forall|j: int|
                        0 <= j < k && (#[trigger] program.funcs[f as int].bbs[j]).id != bb.id
                            ==> insts_laid(
                            *raw,
                            program,
                            fs@,
                            bs@,
                            vs@,
                            f as int,
                            program.funcs[f as int].bbs[j].id as int,
                            program.bbs[program.funcs[f as int].bbs[j].id as int].insts.len() as int,
                        ),
                    insts_laid(
                        *raw,
                        program,
                        fs@,
                        bs@,
                        vs@,
                        f as int,
                        bb.id as int,
                        if again {
                            insts.len() as int
                        } else {
                            i as int
                        },
                    ),
                decreases insts.len() - i,
            {
                let v = insts[i];
                proof {
                    assert(program.bb_ok(bb.id as int));
                    assert(program.has_value(program.bbs[bb.id as int].insts[i as int]));
                    assert(signature(*raw, fs@[f as int]) is Some);
                }
                let ghost before = *raw;
                place_inst(raw, fs[f], bs[bb.id], vs[v.id]);
                proof {
                    kinds_kept(*raw, before, program, fs@, bs@, vs@, program.values.len() as int);
                    exported_kept(*raw, before, program, fs@, bs@, vs@, program.values.len() as int);
                    held_trans(*raw, before, placed);
                    assert(block_placed(before, fs@[f as int], bs@[bb.id as int]));
                    elsewhere_keeps(*raw, before, program, fs@, bs@, vs@, f as int);
                    assert(blocks_laid(before, program, fs@, bs@, f as int, k + 1));
                    assert(items[i as int] == vs@[v.id as int]);
                    if again {
                        once_holds(items, insts.len() as int, i as int);
                    }
                    assert forall|j: int|
                        0 <= j < k && (#[trigger] program.funcs[f as int].bbs[j]).id
                            != bb.id implies insts_laid(
                        *raw,
                        program,
                        fs@,
                        bs@,
                        vs@,
                        f as int,
                        program.funcs[f as int].bbs[j].id as int,
                        program.bbs[program.funcs[f as int].bbs[j].id as int].insts.len() as int,
                    ) by {
                        assert(program.func_ok(f as int));
                        assert(program.has_bb(program.funcs[f as int].bbs[j]));
                        assert(bs@[program.funcs[f as int].bbs[j].id as int] != bs@[bb.id as int]);
                        assert(insts_laid(
                            before,
                            program,
                            fs@,
                            bs@,
                            vs@,
                            f as int,
                            program.funcs[f as int].bbs[j].id as int,
                            program.bbs[program.funcs[f as int].bbs[j].id as int].insts.len() as int,
                        ));
                    }
                }
                i += 1;
            }
            proof {
                assert forall|g: int, j: int|
                    0 <= g < f && 0 <= j < program.funcs[g].bbs.len() implies block_placed(
                    *raw,
                    fs@[g],
                    bs@[(#[trigger] program.funcs[g].bbs[j]).id as int],
                ) by {
                    assert(block_placed(placed, fs@[g], bs@[program.funcs[g].bbs[j].id as int]));
                }
                assert forall|j: int| 0 <= j < k + 1 implies block_placed(
                    *raw,
                    fs@[f as int],
                    bs@[(#[trigger] program.funcs[f as int].bbs[j]).id as int],
                ) by {
                    assert(block_placed(
                        placed,
                        fs@[f as int],
                        bs@[program.funcs[f as int].bbs[j].id as int],
                    ));
                }
                assert forall|j: int| 0 <= j < k + 1 implies insts_laid(
                    *raw,
                    program,
                    fs@,
                    bs@,
                    vs@,
                    f as int,
                    (#[trigger] program.funcs[f as int].bbs[j]).id as int,
                    program.bbs[program.funcs[f as int].bbs[j].id as int].insts.len() as int,
                ) by {
                    if program.funcs[f as int].bbs[j].id == bb.id {
                    }
                }
            }
            k += 1;
        }
        f += 1;
    }
}

/// Builds the `koopa` program that holds what `program` holds: its
/// functions, its blocks and its values, each with the type it has here
/// and made of what it is made of here, and every block and instruction
/// placed in its layout, in the order in which the program has them.
pub fn export(program: &Prog) -> (r: Result<Exported, ExportError>)
    requires
        program.wf(),
    ensures
        r is Ok <==> exportable(program),
        match r {
            Ok(e) => {
                &&& exported(
                    e.program,
                    program,
                    e.funcs@,
                    e.bbs@,
                    e.values@,
                    program.values.len() as int,
                )
                &&& kinds_agree(
                    e.program,
                    program,
                    e.funcs@,
                    e.bbs@,
                    e.values@,
                    program.values.len() as int,
                )
                &&& layout_agrees(e.program, program, e.funcs@, e.bbs@)
                &&& order_agrees(e.program, program, e.funcs@, e.bbs@, e.values@)
            },
            Err(e) => match e {
                ExportError::BadName => !names_ok(program),
                ExportError::BadType => !types_ok(program),
                ExportError::Unsupported => !kinds_ok(program),
            },
        },
{
    let mut raw = new_program();
    let fs = export_funcs(program, &mut raw)?;
    let ghost made_funcs = raw;
    let bs = export_blocks(program, &mut raw, &fs)?;
    let ghost made_blocks = raw;
    proof {
        empty_kept(made_blocks, made_funcs, program, fs@);
    }
    let vs = export_values(program, &mut raw, &fs, &bs)?;
    proof {
        empty_kept(raw, made_blocks, program, fs@);
    }
    export_layout(program, &mut raw, &fs, &bs, &vs);
    Ok(Exported { program: raw, values: vs, funcs: fs, bbs: bs })
}

} // verus!

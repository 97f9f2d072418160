//! The lines of the textual form of the intermediate representation.

use vstd::prelude::*;
use vstd::string::StringExecFns;
use crate::mem::info::Info;
use crate::program::entities::{Prog, Val, ValueKind};
use crate::program::types::{array_type, Ty};
use crate::text::{decimal, i32_string, join_all, joined, signed_decimal, usize_string, views};
use crate::tools::array_type_of;

verus! {

/// A type as it is written: `i32`, `[T, N]`, `*T`; `unit` for the type of
/// nothing.
pub open spec fn ty_text(ty: Ty) -> Seq<char>
    decreases ty,
{
    match ty {
        Ty::Int32 => "i32"@,
        Ty::Unit => "unit"@,
        Ty::Array(base, len) => "["@ + ty_text(*base) + ", "@ + decimal(len as nat) + "]"@,
        Ty::Pointer(base) => "*"@ + ty_text(*base),
    }
}

/// Writes a type.
pub fn ty_string(ty: &Ty) -> (s: String)
    ensures
        s@ == ty_text(*ty),
    decreases ty,
{
    match ty {
        Ty::Int32 => String::from_str("i32"),
        Ty::Unit => String::from_str("unit"),
        Ty::Array(base, len) => {
            let mut s = String::from_str("[");
            s.append(ty_string(base).as_str());
            s.append(", ");
            s.append(usize_string(*len).as_str());
            s.append("]");
            s
        },
        Ty::Pointer(base) => {
            let mut s = String::from_str("*");
            s.append(ty_string(base).as_str());
            s
        },
    }
}

/// What follows the parameters in the head of a function: `)` for one that
/// returns nothing, `): T` for one that returns a `T`.
pub open spec fn result_text(ret_ty: Ty) -> Seq<char> {
    if ret_ty == Ty::Unit {
        ")"@
    } else {
        "): "@ + ty_text(ret_ty)
    }
}

pub open spec fn decl_line(name: Seq<char>, params_ty: Seq<Ty>, ret_ty: Ty) -> Seq<char> {
    "decl "@ + name + "("@ + joined(params_ty.map_values(|t: Ty| ty_text(t)), ", "@)
        + result_text(ret_ty) + "\n"@
}

pub open spec fn param_text(p: (String, Ty)) -> Seq<char> {
    p.0@ + ": "@ + ty_text(p.1)
}

/// The parameters as they are written, in order.
pub open spec fn param_texts(params: Seq<(String, Ty)>) -> Seq<Seq<char>> {
    params.map_values(|p: (String, Ty)| param_text(p))
}

pub open spec fn func_bg_line(name: Seq<char>, ret_ty: Ty, params: Seq<(String, Ty)>) -> Seq<
    char,
> {
    "fun "@ + name + "("@ + joined(param_texts(params), ", "@) + result_text(ret_ty) + " {\n"@
}

pub open spec fn op3_line(op: Seq<char>, dst: Seq<char>, lhs: Seq<char>, rhs: Seq<char>) -> Seq<
    char,
> {
    "  "@ + dst + " = "@ + op + " "@ + lhs + ", "@ + rhs + "\n"@
}

pub open spec fn ret_line(val: Seq<char>) -> Seq<char> {
    "  ret "@ + val + "\n"@
}

pub open spec fn load_line(dst: Seq<char>, src: Seq<char>) -> Seq<char> {
    "  "@ + dst + " = load "@ + src + "\n"@
}

pub open spec fn store_line(dst: Seq<char>, src: Seq<char>) -> Seq<char> {
    "  store "@ + src + ", "@ + dst + "\n"@
}

pub open spec fn branch_line(cond: Seq<char>, on_true: Seq<char>, on_false: Seq<char>) -> Seq<
    char,
> {
    "  br "@ + cond + ", "@ + on_true + ", "@ + on_false + "\n"@
}

pub open spec fn call_line(dst: Option<Seq<char>>, name: Seq<char>, args: Seq<Seq<char>>) -> Seq<
    char,
> {
    match dst {
        Some(d) => "  "@ + d + " = call "@ + name + "("@ + joined(args, ", "@) + ")\n"@,
        None => "  call "@ + name + "("@ + joined(args, ", "@) + ")\n"@,
    }
}

pub open spec fn get_elem_ptr_line(dst: Seq<char>, base: Seq<char>, idx: Seq<char>) -> Seq<char> {
    "  "@ + dst + " = getelemptr "@ + base + ", "@ + idx + "\n"@
}

pub open spec fn get_ptr_line(dst: Seq<char>, base: Seq<char>, idx: Seq<char>) -> Seq<char> {
    "  "@ + dst + " = getptr "@ + base + ", "@ + idx + "\n"@
}

pub open spec fn alloc_line(name: Seq<char>, ty: Ty) -> Seq<char> {
    "  "@ + name + " = alloc "@ + ty_text(ty) + "\n"@
}

pub open spec fn global_alloc_line(name: Seq<char>, ty: Ty, values: Seq<char>) -> Seq<char> {
    "global "@ + name + " = alloc "@ + ty_text(ty) + ", "@ + values + "\n"@
}

pub open spec fn jump_line(dst: Seq<char>) -> Seq<char> {
    "  jump "@ + dst + "\n"@
}

/// Why a program cannot be written out.
#[derive(Clone, Copy, Debug, PartialEq, Eq, Structural)]
pub enum EmitError {
    /// A value is used that has no name, because what made it was not written.
    Unnamed,
    /// A value stands where its kind cannot stand: an instruction in an
    /// initializer, or a constant that is no integer in a block.
    Unsupported,
    /// More names are needed than there are numbers.
    TooManyNames,
}

/// Whether a value can stand as an initializer: an integer, a zero
/// initializer, an aggregate noted as all zero, or an aggregate of values
/// made before it that can.
pub open spec fn init_ok(program: &Prog, info: &Info, v: Val) -> bool
    decreases v.id + 1, 0nat,
{
    match program.kind(v) {
        ValueKind::Integer(_) => true,
        ValueKind::ZeroInit => true,
        ValueKind::Aggregate(elems) => info.zero_dims(v) is Some || inits_ok(
            program,
            info,
            elems@,
            v.id as nat,
        ),
        _ => false,
    }
}

/// Whether each of the values was made before the value `bound` and can
/// stand as an initializer.
pub open spec fn inits_ok(program: &Prog, info: &Info, elems: Seq<Val>, bound: nat) -> bool
    decreases bound, elems.len(),
{
    if elems.len() == 0 {
        true
    } else {
        &&& inits_ok(program, info, elems.drop_last(), bound)
        &&& elems.last().id < bound
        &&& init_ok(program, info, elems.last())
    }
}

/// An initializer as it is written: an integer as its number, `zeroinit`
/// for a zero initializer and for an aggregate noted as all zero, and any
/// other aggregate as its elements in braces.
pub open spec fn init_text(program: &Prog, info: &Info, v: Val) -> Seq<char>
    decreases v.id + 1, 0nat,
{
    match program.kind(v) {
        ValueKind::Integer(n) => signed_decimal(n as int),
        ValueKind::ZeroInit => "zeroinit"@,
        ValueKind::Aggregate(elems) => if info.zero_dims(v) is Some {
            "zeroinit"@
        } else {
            "{"@ + joined(inits_text(program, info, elems@, v.id as nat), ", "@) + "}"@
        },
        _ => Seq::empty(),
    }
}

/// The initializers as they are written, in order.
pub open spec fn inits_text(program: &Prog, info: &Info, elems: Seq<Val>, bound: nat) -> Seq<
    Seq<char>,
>
    decreases bound, elems.len(),
{
    if elems.len() == 0 {
        Seq::empty()
    } else {
        inits_text(program, info, elems.drop_last(), bound).push(
            if elems.last().id < bound {
                init_text(program, info, elems.last())
            } else {
                Seq::empty()
            },
        )
    }
}

/// The type of an initializer: that of the dimensions noted for an
/// aggregate that is all zero, its own otherwise.
pub open spec fn init_type(program: &Prog, info: &Info, v: Val) -> Ty {
    match info.zero_dims(v) {
        Some(dims) => array_type(dims),
        None => program.ty(v),
    }
}

/// Collects the text.
pub struct Writer {
    pub text: String,
}

impl Writer {
    pub fn new() -> (w: Self)
        ensures
            w.text@ == Seq::<char>::empty(),
    {
        Self { text: String::new() }
    }

    /// A line with `s` on it.
    pub fn note(&mut self, s: &str)
        ensures
            final(self).text@ == old(self).text@ + s@ + "\n"@,
    {
        self.text.append(s);
        self.text.append("\n");
    }

    /// An empty line.
    pub fn line(&mut self)
        ensures
            final(self).text@ == old(self).text@ + "\n"@,
    {
        self.text.append("\n");
    }

    pub fn ty(&self, ty: &Ty) -> (s: String)
        ensures
            s@ == ty_text(*ty),
    {
        ty_string(ty)
    }

    fn result(&mut self, ret_ty: &Ty)
        ensures
            final(self).text@ == old(self).text@ + result_text(*ret_ty),
    {
        if ret_ty.check_unit() {
            self.text.append(")");
        } else {
            self.text.append("): ");
            self.text.append(ty_string(ret_ty).as_str());
            assert(self.text@ =~= old(self).text@ + result_text(*ret_ty));
        }
    }

    /// `decl @name(T, ..): T`
    pub fn decl(&mut self, name: &str, params_ty: &Vec<Ty>, ret_ty: &Ty)
        ensures
            final(self).text@ == old(self).text@ + decl_line(name@, params_ty@, *ret_ty),
    {
        let mut types: Vec<String> = Vec::new();
        let mut k: usize = 0;
        while k < params_ty.len()
            invariant
                k <= params_ty.len(),
                types.len() == k,
                forall|i: int| 0 <= i < k ==> (#[trigger] types[i])@ == ty_text(params_ty[i]),
            decreases params_ty.len() - k,
        {
            types.push(ty_string(&params_ty[k]));
            k += 1;
        }
        assert(views(types@) =~= params_ty@.map_values(|t: Ty| ty_text(t)));
        self.text.append("decl ");
        self.text.append(name);
        self.text.append("(");
        self.text.append(join_all(&types, ", ").as_str());
        self.result(ret_ty);
        self.text.append("\n");
        assert(self.text@ =~= old(self).text@ + decl_line(name@, params_ty@, *ret_ty));
    }

    /// `fun @name(@p: T, ..): T {`
    pub fn func_bg(&mut self, name: &str, ret_ty: &Ty, params: &Vec<(String, Ty)>)
        ensures
            final(self).text@ == old(self).text@ + func_bg_line(name@, *ret_ty, params@),
    {
        let mut parts: Vec<String> = Vec::new();
        let mut k: usize = 0;
        while k < params.len()
            invariant
                k <= params.len(),
                parts.len() == k,
                forall|i: int| 0 <= i < k ==> (#[trigger] parts[i])@ == param_text(params[i]),
            decreases params.len() - k,
        {
            let mut part = params[k].0.clone();
            part.append(": ");
            part.append(ty_string(&params[k].1).as_str());
            parts.push(part);
            k += 1;
        }
        assert(views(parts@) =~= param_texts(params@));
        self.text.append("fun ");
        self.text.append(name);
        self.text.append("(");
        self.text.append(join_all(&parts, ", ").as_str());
        self.result(ret_ty);
        self.text.append(" {\n");
        assert(self.text@ =~= old(self).text@ + func_bg_line(name@, *ret_ty, params@));
    }

    /// `}`
    pub fn func_ed(&mut self)
        ensures
            final(self).text@ == old(self).text@ + "}\n"@,
    {
        self.text.append("}\n");
    }

    /// `%name:`
    pub fn bb_bg(&mut self, name: &str)
        ensures
            final(self).text@ == old(self).text@ + name@ + ":\n"@,
    {
        self.text.append(name);
        self.text.append(":\n");
    }

    /// `  dst = op lhs, rhs`
    pub fn op3(&mut self, op: &str, dst: &str, lhs: &str, rhs: &str)
        ensures
            final(self).text@ == old(self).text@ + op3_line(op@, dst@, lhs@, rhs@),
    {
        self.text.append("  ");
        self.text.append(dst);
        self.text.append(" = ");
        self.text.append(op);
        self.text.append(" ");
        self.text.append(lhs);
        self.text.append(", ");
        self.text.append(rhs);
        self.text.append("\n");
        assert(self.text@ =~= old(self).text@ + op3_line(op@, dst@, lhs@, rhs@));
    }

    /// `  ret val`
    pub fn ret(&mut self, val: &str)
        ensures
            final(self).text@ == old(self).text@ + ret_line(val@),
    {
        self.text.append("  ret ");
        self.text.append(val);
        self.text.append("\n");
        assert(self.text@ =~= old(self).text@ + ret_line(val@));
    }

    /// `  dst = load src`
    pub fn load(&mut self, dst: &str, src: &str)
        ensures
            final(self).text@ == old(self).text@ + load_line(dst@, src@),
    {
        self.text.append("  ");
        self.text.append(dst);
        self.text.append(" = load ");
        self.text.append(src);
        self.text.append("\n");
        assert(self.text@ =~= old(self).text@ + load_line(dst@, src@));
    }

    /// `  store src, dst`
    pub fn store(&mut self, dst: &str, src: &str)
        ensures
            final(self).text@ == old(self).text@ + store_line(dst@, src@),
    {
        self.text.append("  store ");
        self.text.append(src);
        self.text.append(", ");
        self.text.append(dst);
        self.text.append("\n");
        assert(self.text@ =~= old(self).text@ + store_line(dst@, src@));
    }

    /// `  br cond, on_true, on_false`
    pub fn branch(&mut self, cond: &str, on_true: &str, on_false: &str)
        ensures
            final(self).text@ == old(self).text@ + branch_line(cond@, on_true@, on_false@),
    {
        self.text.append("  br ");
        self.text.append(cond);
        self.text.append(", ");
        self.text.append(on_true);
        self.text.append(", ");
        self.text.append(on_false);
        self.text.append("\n");
        assert(self.text@ =~= old(self).text@ + branch_line(cond@, on_true@, on_false@));
    }

    /// `  dst = call @name(args)`, or `  call @name(args)` without `dst`.
    pub fn call(&mut self, dst: Option<&str>, name: &str, args: &Vec<String>)
        ensures
            final(self).text@ == old(self).text@ + call_line(
                match dst {
                    Some(d) => Some(d@),
                    None => None,
                },
                name@,
                views(args@),
            ),
    {
        match dst {
            Some(d) => {
                self.text.append("  ");
                self.text.append(d);
                self.text.append(" = call ");
            },
            None => {
                self.text.append("  call ");
            },
        }
        self.text.append(name);
        self.text.append("(");
        self.text.append(join_all(args, ", ").as_str());
        self.text.append(")\n");
        assert(self.text@ =~= old(self).text@ + call_line(
            match dst {
                Some(d) => Some(d@),
                None => None,
            },
            name@,
            views(args@),
        ));
    }

    /// `  dst = getelemptr base, idx`
    pub fn get_elem_ptr(&mut self, dst: &str, base: &str, idx: &str)
        ensures
            final(self).text@ == old(self).text@ + get_elem_ptr_line(dst@, base@, idx@),
    {
        self.text.append("  ");
        self.text.append(dst);
        self.text.append(" = getelemptr ");
        self.text.append(base);
        self.text.append(", ");
        self.text.append(idx);
        self.text.append("\n");
        assert(self.text@ =~= old(self).text@ + get_elem_ptr_line(dst@, base@, idx@));
    }

    /// `  dst = getptr base, idx`
    pub fn get_ptr(&mut self, dst: &str, base: &str, idx: &str)
        ensures
            final(self).text@ == old(self).text@ + get_ptr_line(dst@, base@, idx@),
    {
        self.text.append("  ");
        self.text.append(dst);
        self.text.append(" = getptr ");
        self.text.append(base);
        self.text.append(", ");
        self.text.append(idx);
        self.text.append("\n");
        assert(self.text@ =~= old(self).text@ + get_ptr_line(dst@, base@, idx@));
    }

    /// `  name = alloc T`
    pub fn local_alloc(&mut self, name: &str, ty: &Ty)
        ensures
            final(self).text@ == old(self).text@ + alloc_line(name@, *ty),
    {
        self.text.append("  ");
        self.text.append(name);
        self.text.append(" = alloc ");
        self.text.append(ty_string(ty).as_str());
        self.text.append("\n");
        assert(self.text@ =~= old(self).text@ + alloc_line(name@, *ty));
    }

    /// `global name = alloc T, values`
    pub fn global_alloc(&mut self, name: &str, ty: &Ty, values: &str)
        ensures
            final(self).text@ == old(self).text@ + global_alloc_line(name@, *ty, values@),
    {
        self.text.append("global ");
        self.text.append(name);
        self.text.append(" = alloc ");
        self.text.append(ty_string(ty).as_str());
        self.text.append(", ");
        self.text.append(values);
        self.text.append("\n");
        assert(self.text@ =~= old(self).text@ + global_alloc_line(name@, *ty, values@));
    }

    /// `  jump dst`
    pub fn jump(&mut self, dst: &str)
        ensures
            final(self).text@ == old(self).text@ + jump_line(dst@),
    {
        self.text.append("  jump ");
        self.text.append(dst);
        self.text.append("\n");
        assert(self.text@ =~= old(self).text@ + jump_line(dst@));
    }

    /// The type of an all-zero array of the given dimensions.
    pub fn to_type_zero_array(&self, array_info: &Vec<usize>) -> (ty: Ty)
        ensures
            ty == array_type(array_info@),
    {
        array_type_of(array_info)
    }

    /// Writes an initializer.
    pub fn to_init(&self, value: Val, program: &Prog, info: &Info) -> (r: Result<
        String,
        EmitError,
    >)
        requires
            program.has_value(value),
        ensures
            match r {
                Ok(s) => init_ok(program, info, value) && s@ == init_text(program, info, value),
                Err(e) => e == EmitError::Unsupported && !init_ok(program, info, value),
            },
        decreases value.id,
    {
        match program.value_kind(value) {
            ValueKind::Integer(n) => Ok(i32_string(*n)),
            ValueKind::ZeroInit => Ok(String::from_str("zeroinit")),
            ValueKind::Aggregate(elems) => {
                if info.array_info(value).is_some() {
                    return Ok(String::from_str("zeroinit"));
                }
                let ghost bound = value.id as nat;
                let mut parts: Vec<String> = Vec::new();
                let mut k: usize = 0;
                while k < elems.len()
                    invariant
                        k <= elems.len(),
                        parts.len() == k,
                        bound == value.id,
                        program.has_value(value),
                        program.kind(value) == ValueKind::Aggregate(*elems),
                        info.zero_dims(value) is None,
                        inits_ok(program, info, elems@.take(k as int), bound),
                        views(parts@) == inits_text(program, info, elems@.take(k as int), bound),
                    ensures
                        k == elems.len(),
                    decreases elems.len() - k,
                {
                    let e = elems[k];
                    proof {
                        let next = elems@.take(k + 1);
                        assert(next.drop_last() =~= elems@.take(k as int));
                        assert(next.last() == e);
                    }
                    if e.id >= value.id {
                        proof {
                            Self::inits_not_ok(program, info, elems@, k as int, bound);
                        }
                        return Err(EmitError::Unsupported);
                    }
                    let part = match self.to_init(e, program, info) {
                        Ok(part) => part,
                        Err(e) => {
                            proof {
                                Self::inits_not_ok(program, info, elems@, k as int, bound);
                            }
                            return Err(e);
                        },
                    };
                    proof {
                        assert(views(parts@.push(part)) =~= views(parts@).push(part@));
                    }
                    parts.push(part);
                    k += 1;
                }
                proof {
                    assert(elems@.take(k as int) =~= elems@);
                }
                let mut s = String::from_str("{");
                s.append(join_all(&parts, ", ").as_str());
                s.append("}");
                Ok(s)
            },
            _ => Err(EmitError::Unsupported),
        }
    }

    /// One bad element spoils the list.
    proof fn inits_not_ok(program: &Prog, info: &Info, elems: Seq<Val>, k: int, bound: nat)
        requires
            0 <= k < elems.len(),
            !(elems[k].id < bound && init_ok(program, info, elems[k])),
        ensures
            !inits_ok(program, info, elems, bound),
        decreases elems.len(),
    {
        if k < elems.len() - 1 {
            Self::inits_not_ok(program, info, elems.drop_last(), k, bound);
        }
    }

    /// The type of an initializer.
    pub fn to_type(&self, value: Val, program: &Prog, info: &Info) -> (ty: Ty)
        requires
            program.has_value(value),
        ensures
            ty == init_type(program, info, value),
    {
        match info.array_info(value) {
            Some(dims) => self.to_type_zero_array(dims),
            None => program.value_ty(value).clone(),
        }
    }
}

} // verus!

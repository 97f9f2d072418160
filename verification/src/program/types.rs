//! Types of IR values.

use vstd::prelude::*;

verus! {

/// The type of an IR value. Func signatures are kept with the function,
/// so no value has a function type.
#[derive(Debug, PartialEq, Eq)]
pub enum Ty {
    /// 32-bit integer.
    Int32,
    /// No value at all (the type of `store`, `jump`, ...).
    Unit,
    /// `[base, len]`.
    Array(Box<Ty>, usize),
    /// `*base`.
    Pointer(Box<Ty>),
}

impl Clone for Ty {
    fn clone(&self) -> (r: Self)
        ensures
            r == *self,
        decreases self,
    {
        match self {
            Ty::Int32 => Ty::Int32,
            Ty::Unit => Ty::Unit,
            Ty::Array(base, len) => Ty::Array(Box::new((**base).clone()), *len),
            Ty::Pointer(base) => Ty::Pointer(Box::new((**base).clone())),
        }
    }
}

/// The array type with the given dimensions, outermost first; `i32` for none.
pub open spec fn array_type(dims: Seq<usize>) -> Ty
    decreases dims.len(),
{
    if dims.len() == 0 {
        Ty::Int32
    } else {
        Ty::Array(Box::new(array_type(dims.drop_first())), dims[0])
    }
}

impl Ty {
    pub open spec fn is_i32(&self) -> bool {
        *self == Ty::Int32
    }

    pub open spec fn is_unit(&self) -> bool {
        *self == Ty::Unit
    }

    /// `i32`, or an array whose elements are scalar in this sense.
    pub open spec fn is_scalar_or_array(&self) -> bool
        decreases self,
    {
        match self {
            Ty::Int32 => true,
            Ty::Array(base, _) => base.is_scalar_or_array(),
            _ => false,
        }
    }

    /// Number of array dimensions: 0 for `i32`.
    pub open spec fn rank(&self) -> nat
        decreases self,
    {
        match self {
            Ty::Array(base, _) => 1 + base.rank(),
            _ => 0,
        }
    }

    /// Size in 4-byte words: 1 for `i32`, `len` times the base for an array.
    pub open spec fn words(&self) -> nat
        decreases self,
    {
        match self {
            Ty::Int32 => 1,
            Ty::Array(base, len) => (*len as nat) * base.words(),
            _ => 0,
        }
    }

    /// Structural equality.
    pub fn same(&self, other: &Ty) -> (r: bool)
        ensures
            r == (*self == *other),
        decreases self,
    {
        match (self, other) {
            (Ty::Int32, Ty::Int32) => true,
            (Ty::Unit, Ty::Unit) => true,
            (Ty::Array(a, n), Ty::Array(b, m)) => *n == *m && a.same(b),
            (Ty::Pointer(a), Ty::Pointer(b)) => a.same(b),
            _ => false,
        }
    }

    pub fn check_i32(&self) -> (r: bool)
        ensures
            r == self.is_i32(),
    {
        match self {
            Ty::Int32 => true,
            _ => false,
        }
    }

    pub fn check_unit(&self) -> (r: bool)
        ensures
            r == self.is_unit(),
    {
        match self {
            Ty::Unit => true,
            _ => false,
        }
    }

    /// Whether this is a pointer to exactly `base`.
    pub fn points_to(&self, base: &Ty) -> (r: bool)
        ensures
            r == (*self == Ty::Pointer(Box::new(*base))),
    {
        match self {
            Ty::Pointer(b) => b.same(base),
            _ => false,
        }
    }
}

} // verus!

//! Field capability trait.
//!
//! The lookup gadget only needs addition, multiplication, the
//! multiplicative identity and an injection of small integers, so it is
//! written against this trait rather than a fixed modulus. Each operation
//! comes with a spec-level twin that the contracts of the gadget speak of;
//! an implementation also proves that its multiplicative identity really is
//! a left identity, the one algebraic law the gadget's contracts rely on.

use vstd::prelude::*;

verus! {

pub trait Field: Sized + Copy {
    /// Well-formedness of a field element (e.g., a residue in canonical form).
    spec fn wf(self) -> bool;

    /// The multiplicative identity, at the spec level.
    spec fn spec_one() -> Self;

    /// Addition, at the spec level.
    spec fn spec_add(self, other: Self) -> Self;

    /// Multiplication, at the spec level.
    spec fn spec_mul(self, other: Self) -> Self;

    /// Injection of a non-negative integer, at the spec level.
    spec fn spec_from_u64(n: u64) -> Self;

    /// The multiplicative identity.
    fn one() -> (r: Self)
        ensures
            r == Self::spec_one(),
            r.wf(),
    ;

    /// Field addition.
    fn add(self, other: Self) -> (r: Self)
        requires
            self.wf(),
            other.wf(),
        ensures
            r == self.spec_add(other),
            r.wf(),
    ;

    /// Field multiplication.
    fn mul(self, other: Self) -> (r: Self)
        requires
            self.wf(),
            other.wf(),
        ensures
            r == self.spec_mul(other),
            r.wf(),
    ;

    /// Injection of a non-negative integer into the field.
    fn from_u64(n: u64) -> (r: Self)
        ensures
            r == Self::spec_from_u64(n),
            r.wf(),
    ;

    /// The multiplicative identity is a left identity on well-formed elements.
    proof fn mul_one_left(x: Self)
        requires
            x.wf(),
        ensures
            Self::spec_one().spec_mul(x) == x,
    ;
}

} // verus!

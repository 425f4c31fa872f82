//! A concrete prime field: integers modulo the Mersenne prime `2^61 - 1`.
//!
//! This is a verified instance of the [`Field`] capability trait, small
//! enough that every operation fits comfortably in machine words: a sum of
//! two canonical residues fits in a `u64`, and a product fits in a `u128`.

use vstd::prelude::*;

use crate::field::Field;

verus! {

/// The Mersenne prime `2^61 - 1`.
pub const M61_MODULUS: u64 = 2305843009213693951;

/// An element of the prime field of order `2^61 - 1`, as a canonical
/// residue: well-formed values keep `v < M61_MODULUS`.
#[derive(Clone, Copy, Debug, PartialEq, Eq, Structural)]
pub struct M61 {
    pub v: u64,
}

impl M61 {
    /// The canonical residue of `n`, at the spec level.
    pub open spec fn spec_new(n: u64) -> M61 {
        M61 { v: ((n as int) % (M61_MODULUS as int)) as u64 }
    }

    /// The canonical residue of `n`.
    pub fn new(n: u64) -> (r: M61)
        ensures
            r == M61::spec_new(n),
            r.wf(),
    {
        M61 { v: n % M61_MODULUS }
    }
}

impl Field for M61 {
    open spec fn wf(self) -> bool {
        self.v < M61_MODULUS
    }

    open spec fn spec_one() -> M61 {
        M61 { v: 1 }
    }

    open spec fn spec_add(self, other: M61) -> M61 {
        M61 { v: ((self.v + other.v) % (M61_MODULUS as int)) as u64 }
    }

    open spec fn spec_mul(self, other: M61) -> M61 {
        M61 { v: ((self.v * other.v) % (M61_MODULUS as int)) as u64 }
    }

    open spec fn spec_from_u64(n: u64) -> M61 {
        M61::spec_new(n)
    }

    fn one() -> (r: M61) {
        M61 { v: 1 }
    }

    fn add(self, other: M61) -> (r: M61) {
        let s: u64 = self.v + other.v;
        M61 { v: s % M61_MODULUS }
    }

    fn mul(self, other: M61) -> (r: M61) {
        let a: u128 = self.v as u128;
        let b: u128 = other.v as u128;
        assert(a * b <= (M61_MODULUS - 1) as u128 * (M61_MODULUS - 1) as u128) by (nonlinear_arith)
            requires
                a <= (M61_MODULUS - 1) as u128,
                b <= (M61_MODULUS - 1) as u128,
        ;
        let p: u128 = a * b;
        let m: u128 = p % (M61_MODULUS as u128);
        assert(m < M61_MODULUS as u128);
        assert(m as u64 as int == (self.v * other.v) % (M61_MODULUS as int));
        M61 { v: m as u64 }
    }

    fn from_u64(n: u64) -> (r: M61) {
        M61 { v: n % M61_MODULUS }
    }

    proof fn mul_one_left(x: M61) {
        assert(Self::spec_one().spec_mul(x).v == (1 * x.v) % (M61_MODULUS as int));
        assert((1 * x.v) % (M61_MODULUS as int) == x.v);
        assert(Self::spec_one().spec_mul(x) == x);
    }
}

} // verus!

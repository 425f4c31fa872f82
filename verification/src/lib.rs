//! Prover-side data for a plookup lookup argument.
//!
//! Given a reference table (`set`), a query sequence (`subset`) with the
//! table positions it claims to match (`index`, `index_f`), and three
//! externally sampled challenges, this crate builds the randomized
//! compressed columns, their running (prefix) products, and the interleaved
//! sorted multiset that a grand-product identity later checks.
//!
//! All field arithmetic goes through the [`field::Field`] capability trait,
//! so the gadget works over any prime field; [`m61::M61`] is a verified
//! instance over the Mersenne prime `2^61 - 1`.

pub mod counting;
pub mod field;
pub mod m61;
pub mod prover;
pub mod sorted;

pub use counting::count_in_seq;
pub use field::Field;
pub use m61::M61;
pub use prover::{
    alg_hash, compute_lookup_vector_with_shift, lookup, plookup, PlookupError, PlookupOutput,
};
pub use sorted::{freq_at, gather_spec, sorted_multiset_seq};

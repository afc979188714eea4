//! Elliptic-curve point-accumulation gadgets for rank-1 constraint systems,
//! in two arithmetic regimes: native (circuit values live in the constraint
//! field itself) and emulated (circuit values represent a foreign field via
//! limbs, with deferred reduction).
pub mod affine;
pub mod apk;
pub mod emulated_r1cs;
pub mod fq_ops;
pub mod model;
pub mod native_r1cs;
pub mod sum_acc;

use vstd::prelude::*;

verus! {

/// The library's failure taxonomy.
#[derive(Debug, Clone, Copy, PartialEq, Eq, Structural)]
pub enum GadgetError {
    /// An undefined field operation was attempted: the two points of an
    /// addition share an x-coordinate, so the chord slope's denominator
    /// is zero.
    Arithmetic,
    /// A plain value needed for witness generation was not available.
    /// (With this crate's value-carrying handles, allocation itself cannot
    /// fail; the variant names the engine's failure mode for callers.)
    Allocation,
    /// No witness satisfies an enforced relation.  The deferred-reduction
    /// check cannot reach this by construction; a collision surfaces as
    /// `Arithmetic` before anything is enforced.
    UnsatisfiableWitness,
}

} // verus!

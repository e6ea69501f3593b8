//! Exact-arithmetic core of a dual 3-vector engine.
//!
//! Two representations of a 3-component vector share one mathematical
//! contract: a scalar, per-component reference type (`old_vector::OldVec3`)
//! and a packed, 4-lane type (`vector::Vec3`) whose cross product runs as a
//! fixed lane-permutation schedule and whose unused 4th lane stays zero
//! through every operation.  Components are bounded integers, so every
//! operation is proved exact and free of overflow; the algebraic laws the
//! two representations obey are stated and proved in `laws`.
//!
//! A deterministic generator (`random`) produces reproducible operands,
//! and a benchmark harness (`bench`) times identical operation sequences
//! over both representations and formats the comparison.

pub mod bench;
pub mod laws;
pub mod mask;
pub mod model;
pub mod old_vector;
pub mod random;
pub mod vector;

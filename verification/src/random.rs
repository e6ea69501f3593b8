//! Deterministic value generator.
//!
//! A seeded xorshift sequence: the benchmark draws reproducible operands
//! from it, and two generators built from the same seed produce the same
//! stream.  The state transition is specified exactly, so determinism is
//! a theorem rather than a convention.

use vstd::prelude::*;
use crate::model::MAX_COMP;

verus! {

/// The xorshift state transition.
pub open spec fn spec_step(s: u64) -> u64 {
    let a = s ^ (s << 13);
    let b = a ^ (a >> 7);
    b ^ (b << 17)
}

/// The range a drawn component falls in: `[-MAX_COMP, MAX_COMP]`.
pub open spec fn spec_component(s: u64) -> int {
    (spec_step(s) as int) % (2 * MAX_COMP + 1) - MAX_COMP
}

/// A deterministic, seedable generator of operand values.
pub struct Random {
    state: u64,
}

impl Random {
    /// The current state; the next draw is a pure function of it.
    pub closed spec fn s(self) -> u64 {
        self.state
    }

    /// Builds a generator whose whole stream is determined by `seed`.
    pub fn new(seed: u64) -> (r: Random)
        ensures
            r.s() == seed,
    {
        Random { state: seed }
    }

    /// Advances the state once and returns it.
    pub fn next_u64(&mut self) -> (r: u64)
        ensures
            r == spec_step(old(self).s()),
            final(self).s() == spec_step(old(self).s()),
    {
        let mut s = self.state;
        s = s ^ (s << 13u64);
        s = s ^ (s >> 7u64);
        s = s ^ (s << 17u64);
        self.state = s;
        s
    }

    /// Draws one vector component: the next value of the stream reduced
    /// into `[-MAX_COMP, MAX_COMP]`.
    pub fn next_component(&mut self) -> (r: i64)
        ensures
            r == spec_component(old(self).s()),
            final(self).s() == spec_step(old(self).s()),
            -MAX_COMP <= r <= MAX_COMP,
    {
        let raw = self.next_u64();
        let range: u64 = (2 * MAX_COMP + 1) as u64;
        let reduced: u64 = raw % range;
        (reduced as i64) - MAX_COMP
    }
}

} // verus!

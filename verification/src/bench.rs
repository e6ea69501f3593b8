//! Benchmark harness.
//!
//! Each benchmark seeds the deterministic generator with the fixed seed,
//! builds one or two operand vectors outside the timed region, runs one
//! discarded warm-up pass, then times a tight loop of the operation over
//! each representation in turn and reports both elapsed times.  The loops
//! and the report line are verified; only the clock readings are trusted.

use vstd::prelude::*;
use crate::model::{v_bounded, v_len_sq};
use crate::old_vector::OldVec3;
use crate::random::Random;
use crate::vector::Vec3;

verus! {

/// The fixed seed every benchmark starts from, so that runs are
/// reproducible and the representations see the same stream.
pub const BENCH_SEED: u64 = 26754825;

/// How many times the measured operation runs inside the timed loop.
pub const BENCH_ITERATIONS: usize = 1000000;

/// The two elapsed times of one benchmark: the scalar reference
/// representation and the packed one, in nanoseconds.
pub struct BenchTimes {
    pub scalar_nanos: u64,
    pub packed_nanos: u64,
}

#[verifier::external_type_specification]
#[verifier::external_body]
pub struct ExInstant(std::time::Instant);

/// Relies on std::time::Instant::now: an opaque monotonic time stamp.
/// The moment it captures depends on the machine and the run, so nothing
/// is promised of it.
#[verifier::external_body]
fn clock_now() -> std::time::Instant {
    std::time::Instant::now()
}

/// Relies on std::time::Instant::elapsed: the wall-clock time since
/// `start`, converted to nanoseconds.  The value depends on the machine
/// and the moment, so nothing is promised of it.
#[verifier::external_body]
fn nanos_since(start: &std::time::Instant) -> u64 {
    start.elapsed().as_nanos() as u64
}

/// Draws the three components of one operand vector.
fn next_operand(rng: &mut Random) -> (r: [i64; 3])
    ensures
        forall|k: int| 0 <= k < 3 ==> -crate::model::MAX_COMP <= #[trigger] r@[k]
            <= crate::model::MAX_COMP,
{
    let c0 = rng.next_component();
    let c1 = rng.next_component();
    let c2 = rng.next_component();
    let r = [c0, c1, c2];
    proof {
        assert(r@[0] == c0 && r@[1] == c1 && r@[2] == c2);
    }
    r
}

/// Benchmarks the cross product over both representations.
pub fn bench_cross(iters: usize) -> (r: BenchTimes) {
    let mut rng = Random::new(BENCH_SEED);
    let p1 = Vec3::new(next_operand(&mut rng));
    let p2 = Vec3::new(next_operand(&mut rng));
    proof {
        lemma_operand_bounded(p1.m());
        lemma_operand_bounded(p2.m());
    }
    let _ = p1.cross(p2);
    let start = clock_now();
    let mut i: usize = 0;
    while i < iters
        invariant
            v_bounded(p1.m()),
            v_bounded(p2.m()),
            p1.wf(),
            p2.wf(),
        decreases iters - i,
    {
        let _ = p1.cross(p2);
        i += 1;
    }
    let packed_nanos = nanos_since(&start);

    let s1 = OldVec3::new(next_operand(&mut rng));
    let s2 = OldVec3::new(next_operand(&mut rng));
    proof {
        lemma_operand_bounded(s1.m());
        lemma_operand_bounded(s2.m());
    }
    let _ = s1.cross(s2);
    let start = clock_now();
    let mut i: usize = 0;
    while i < iters
        invariant
            v_bounded(s1.m()),
            v_bounded(s2.m()),
        decreases iters - i,
    {
        let _ = s1.cross(s2);
        i += 1;
    }
    let scalar_nanos = nanos_since(&start);
    BenchTimes { scalar_nanos, packed_nanos }
}

/// A vector built from generator draws is within the component bound.
proof fn lemma_operand_bounded(m: Seq<int>)
    requires
        m.len() == 3,
        forall|k: int| 0 <= k < 3 ==> -crate::model::MAX_COMP <= #[trigger] m[k]
            <= crate::model::MAX_COMP,
    ensures
        v_bounded(m),
{
}

/// Benchmarks normalization over both representations.  A zero draw is
/// replaced by a unit operand: the degenerate normalization has no value
/// in exact arithmetic.
pub fn bench_normalize(iters: usize) -> (r: BenchTimes) {
    let mut rng = Random::new(BENCH_SEED);
    let drawn = Vec3::new(next_operand(&mut rng));
    proof {
        lemma_operand_bounded(drawn.m());
    }
    let p1 = if drawn.dot(drawn) == 0 {
        Vec3::new([1, 0, 0])
    } else {
        drawn
    };
    proof {
        lemma_operand_bounded(p1.m());
        assert(v_len_sq(p1.m()) != 0);
    }
    let _ = p1.normalized();
    let start = clock_now();
    let mut i: usize = 0;
    while i < iters
        invariant
            v_bounded(p1.m()),
            p1.wf(),
            v_len_sq(p1.m()) != 0,
        decreases iters - i,
    {
        let _ = p1.normalized();
        i += 1;
    }
    let packed_nanos = nanos_since(&start);

    let drawn = OldVec3::new(next_operand(&mut rng));
    proof {
        lemma_operand_bounded(drawn.m());
    }
    let s1 = if drawn.dot(drawn) == 0 {
        OldVec3::new([1, 0, 0])
    } else {
        drawn
    };
    proof {
        lemma_operand_bounded(s1.m());
        assert(v_len_sq(s1.m()) != 0);
    }
    let _ = s1.normalized();
    let start = clock_now();
    let mut i: usize = 0;
    while i < iters
        invariant
            v_bounded(s1.m()),
            v_len_sq(s1.m()) != 0,
        decreases iters - i,
    {
        let _ = s1.normalized();
        i += 1;
    }
    let scalar_nanos = nanos_since(&start);
    BenchTimes { scalar_nanos, packed_nanos }
}

/// Benchmarks reflection over both representations.
pub fn bench_reflect(iters: usize) -> (r: BenchTimes) {
    let mut rng = Random::new(BENCH_SEED);
    let p1 = Vec3::new(next_operand(&mut rng));
    let p2 = Vec3::new(next_operand(&mut rng));
    proof {
        lemma_operand_bounded(p1.m());
        lemma_operand_bounded(p2.m());
    }
    let _ = p1.reflect(p2);
    let start = clock_now();
    let mut i: usize = 0;
    while i < iters
        invariant
            v_bounded(p1.m()),
            v_bounded(p2.m()),
            p1.wf(),
            p2.wf(),
        decreases iters - i,
    {
        let _ = p1.reflect(p2);
        i += 1;
    }
    let packed_nanos = nanos_since(&start);

    let s1 = OldVec3::new(next_operand(&mut rng));
    let s2 = OldVec3::new(next_operand(&mut rng));
    proof {
        lemma_operand_bounded(s1.m());
        lemma_operand_bounded(s2.m());
    }
    let _ = s1.reflect(s2);
    let start = clock_now();
    let mut i: usize = 0;
    while i < iters
        invariant
            v_bounded(s1.m()),
            v_bounded(s2.m()),
        decreases iters - i,
    {
        let _ = s1.reflect(s2);
        i += 1;
    }
    let scalar_nanos = nanos_since(&start);
    BenchTimes { scalar_nanos, packed_nanos }
}

/// Benchmarks scaling by a freshly drawn scalar over both
/// representations; the draw sits inside the timed loop, as the scaled
/// operand is fixed but the factor is not.
pub fn bench_scalar(iters: usize) -> (r: BenchTimes) {
    let mut rng = Random::new(BENCH_SEED);
    let p1 = Vec3::new(next_operand(&mut rng));
    proof {
        lemma_operand_bounded(p1.m());
        p1.lemma_bounded_lanes();
    }
    let _ = p1.scale(1);
    let start = clock_now();
    let mut i: usize = 0;
    while i < iters
        invariant
            v_bounded(p1.m()),
            p1.wf(),
            forall|k: int|
                0 <= k < 4 ==> -crate::model::MAX_COMP <= #[trigger] p1.lanes()[k]
                    <= crate::model::MAX_COMP,
        decreases iters - i,
    {
        let f = rng.next_component();
        let _ = p1.scale(f);
        i += 1;
    }
    let packed_nanos = nanos_since(&start);

    let s1 = OldVec3::new(next_operand(&mut rng));
    proof {
        lemma_operand_bounded(s1.m());
        assert forall|k: int| 0 <= k < 3 implies -2 * crate::model::MAX_COMP
            <= #[trigger] s1.m()[k] <= 2 * crate::model::MAX_COMP by {
            assert(crate::model::comp_ok(s1.m()[k]));
        }
    }
    let _ = s1.scale(1);
    let start = clock_now();
    let mut i: usize = 0;
    while i < iters
        invariant
            v_bounded(s1.m()),
            forall|k: int|
                0 <= k < 3 ==> -2 * crate::model::MAX_COMP <= #[trigger] s1.m()[k] <= 2
                    * crate::model::MAX_COMP,
        decreases iters - i,
    {
        let f = rng.next_component();
        let _ = s1.scale(f);
        i += 1;
    }
    let scalar_nanos = nanos_since(&start);
    BenchTimes { scalar_nanos, packed_nanos }
}

/// Benchmarks projection over both representations.  A zero axis draw is
/// replaced by a unit axis: projection onto the zero vector has no value
/// in exact arithmetic.
pub fn bench_project(iters: usize) -> (r: BenchTimes) {
    let mut rng = Random::new(BENCH_SEED);
    let p1 = Vec3::new(next_operand(&mut rng));
    let drawn = Vec3::new(next_operand(&mut rng));
    proof {
        lemma_operand_bounded(p1.m());
        lemma_operand_bounded(drawn.m());
    }
    let p2 = if drawn.dot(drawn) == 0 {
        Vec3::new([1, 0, 0])
    } else {
        drawn
    };
    proof {
        lemma_operand_bounded(p2.m());
        assert(v_len_sq(p2.m()) != 0);
    }
    let _ = p1.project(p2);
    let start = clock_now();
    let mut i: usize = 0;
    while i < iters
        invariant
            v_bounded(p1.m()),
            v_bounded(p2.m()),
            p1.wf(),
            p2.wf(),
            v_len_sq(p2.m()) != 0,
        decreases iters - i,
    {
        let _ = p1.project(p2);
        i += 1;
    }
    let packed_nanos = nanos_since(&start);

    let s1 = OldVec3::new(next_operand(&mut rng));
    let drawn = OldVec3::new(next_operand(&mut rng));
    proof {
        lemma_operand_bounded(s1.m());
        lemma_operand_bounded(drawn.m());
    }
    let s2 = if drawn.dot(drawn) == 0 {
        OldVec3::new([1, 0, 0])
    } else {
        drawn
    };
    proof {
        lemma_operand_bounded(s2.m());
        assert(v_len_sq(s2.m()) != 0);
    }
    let _ = s1.project(s2);
    let start = clock_now();
    let mut i: usize = 0;
    while i < iters
        invariant
            v_bounded(s1.m()),
            v_bounded(s2.m()),
            v_len_sq(s2.m()) != 0,
        decreases iters - i,
    {
        let _ = s1.project(s2);
        i += 1;
    }
    let scalar_nanos = nanos_since(&start);
    BenchTimes { scalar_nanos, packed_nanos }
}

/// The decimal digit `d` as a character.
pub open spec fn dec_digit(d: int) -> char {
    if d == 0 {
        '0'
    } else if d == 1 {
        '1'
    } else if d == 2 {
        '2'
    } else if d == 3 {
        '3'
    } else if d == 4 {
        '4'
    } else if d == 5 {
        '5'
    } else if d == 6 {
        '6'
    } else if d == 7 {
        '7'
    } else if d == 8 {
        '8'
    } else {
        '9'
    }
}

/// The decimal rendering of `n`, most significant digit first, without
/// leading zeros (a single zero for `n == 0`).
pub open spec fn dec(n: nat) -> Seq<char>
    decreases n,
{
    if n < 10 {
        seq![dec_digit(n as int)]
    } else {
        dec(n / 10) + seq![dec_digit((n % 10) as int)]
    }
}

/// One decimal digit as a string slice.
fn digit_str(d: u64) -> (r: &'static str)
    requires
        d < 10,
    ensures
        r@ == seq![dec_digit(d as int)],
{
    let r: &'static str = if d == 0 {
        "0"
    } else if d == 1 {
        "1"
    } else if d == 2 {
        "2"
    } else if d == 3 {
        "3"
    } else if d == 4 {
        "4"
    } else if d == 5 {
        "5"
    } else if d == 6 {
        "6"
    } else if d == 7 {
        "7"
    } else if d == 8 {
        "8"
    } else {
        "9"
    };
    proof {
        reveal_strlit("0");
        reveal_strlit("1");
        reveal_strlit("2");
        reveal_strlit("3");
        reveal_strlit("4");
        reveal_strlit("5");
        reveal_strlit("6");
        reveal_strlit("7");
        reveal_strlit("8");
        reveal_strlit("9");
        assert(r@ =~= seq![dec_digit(d as int)]);
    }
    r
}

/// Renders `n` in decimal.
pub fn u64_to_string(n: u64) -> (r: String)
    ensures
        r@ == dec(n as nat),
    decreases n,
{
    if n < 10 {
        let r = digit_str(n).to_owned();
        r
    } else {
        let mut r = u64_to_string(n / 10);
        r.append(digit_str(n % 10));
        proof {
            assert(r@ =~= dec(n as nat));
        }
        r
    }
}

/// Builds the report line of one benchmark:
/// `"<label>: SISD <scalar>ns, SIMD <packed>ns"`.
pub fn report_line(label: &str, times: &BenchTimes) -> (r: String)
    ensures
        r@ == label@ + ": SISD "@ + dec(times.scalar_nanos as nat) + "ns, SIMD "@ + dec(
            times.packed_nanos as nat,
        ) + "ns"@,
{
    let mut line = label.to_owned();
    line.append(": SISD ");
    let s1 = u64_to_string(times.scalar_nanos);
    line.append(s1.as_str());
    line.append("ns, SIMD ");
    let s2 = u64_to_string(times.packed_nanos);
    line.append(s2.as_str());
    line.append("ns");
    proof {
        assert(line@ =~= label@ + ": SISD "@ + dec(times.scalar_nanos as nat) + "ns, SIMD "@ + dec(
            times.packed_nanos as nat,
        ) + "ns"@);
    }
    line
}

} // verus!

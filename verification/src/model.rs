//! Mathematical model of the vector engine.
//!
//! Both vector representations are specified against the same model: a
//! length-3 sequence of unbounded integers.  The spec functions here give
//! the exact value of every operation; the executable types prove their
//! results equal to these functions.

use vstd::prelude::*;

verus! {

/// Largest magnitude a vector component or interpolation step may have.
///
/// Every operation of the engine is proved free of overflow for operands
/// whose components stay within this bound; the worst case is the
/// reflection, which scales a component by twice a dot product.
pub const MAX_COMP: i64 = 524288;

/// Largest magnitude accepted for an explicit scale factor.  Wide enough
/// for twice a dot product of in-bound vectors, which the reflection and
/// projection feed back into a scaling step.
pub const SCALE_MAX: i64 = 0x20000000000;

/// A value fit to be stored as a component of a freshly built vector.
pub open spec fn comp_ok(c: int) -> bool {
    -MAX_COMP <= c <= MAX_COMP
}

/// A model vector: exactly three integer coordinates.
pub open spec fn is_v3(v: Seq<int>) -> bool {
    v.len() == 3
}

/// Every coordinate of the model vector is within the component bound.
pub open spec fn v_bounded(v: Seq<int>) -> bool {
    forall|i: int| 0 <= i < v.len() ==> comp_ok(#[trigger] v[i])
}

/// Componentwise sum.
pub open spec fn v_add(a: Seq<int>, b: Seq<int>) -> Seq<int> {
    seq![a[0] + b[0], a[1] + b[1], a[2] + b[2]]
}

/// Componentwise difference.
pub open spec fn v_sub(a: Seq<int>, b: Seq<int>) -> Seq<int> {
    seq![a[0] - b[0], a[1] - b[1], a[2] - b[2]]
}

/// Every component multiplied by the scalar `k`.
pub open spec fn v_scale(a: Seq<int>, k: int) -> Seq<int> {
    seq![a[0] * k, a[1] * k, a[2] * k]
}

/// Componentwise negation.
pub open spec fn v_neg(a: Seq<int>) -> Seq<int> {
    v_scale(a, -1)
}

/// Dot product: the sum of pairwise component products.
pub open spec fn v_dot(a: Seq<int>, b: Seq<int>) -> int {
    a[0] * b[0] + a[1] * b[1] + a[2] * b[2]
}

/// Squared Euclidean length.
pub open spec fn v_len_sq(a: Seq<int>) -> int {
    v_dot(a, a)
}

/// Cross product by the determinant-expansion formula.
pub open spec fn v_cross(a: Seq<int>, b: Seq<int>) -> Seq<int> {
    seq![
        a[1] * b[2] - a[2] * b[1],
        a[2] * b[0] - a[0] * b[2],
        a[0] * b[1] - a[1] * b[0],
    ]
}

/// Reflection of `v` across the plane with normal `n`:
/// `v - n * (2 * dot(v, n))`.
pub open spec fn v_reflect(v: Seq<int>, n: Seq<int>) -> Seq<int> {
    v_sub(v, v_scale(n, 2 * v_dot(v, n)))
}

/// Linear interpolation `a + (b - a) * t`.
pub open spec fn v_lerp(a: Seq<int>, b: Seq<int>, t: int) -> Seq<int> {
    v_add(a, v_scale(v_sub(b, a), t))
}

/// Integer division truncated toward zero, as the machine divides.
pub open spec fn div_trunc(a: int, b: int) -> int {
    if (a < 0) == (b < 0) {
        abs_int(a) / abs_int(b)
    } else {
        -(abs_int(a) / abs_int(b))
    }
}

/// Absolute value.
pub open spec fn abs_int(a: int) -> int {
    if a < 0 {
        -a
    } else {
        a
    }
}

/// Projection of `v` onto `a`: `a` scaled by `dot(a, v) / dot(a, a)`,
/// with the quotient truncated toward zero.
pub open spec fn v_project(v: Seq<int>, a: Seq<int>) -> Seq<int> {
    v_scale(a, div_trunc(v_dot(a, v), v_dot(a, a)))
}

/// `r` is the integer square root of `n`: the greatest integer whose
/// square does not exceed `n`.
pub open spec fn is_isqrt(n: int, r: int) -> bool {
    0 <= r && r * r <= n && n < (r + 1) * (r + 1)
}

/// `v` with every component divided by `d`, truncated toward zero; the
/// value of a normalization step once `d` is the vector's length.
pub open spec fn v_scale_div(v: Seq<int>, d: int) -> Seq<int> {
    seq![div_trunc(v[0], d), div_trunc(v[1], d), div_trunc(v[2], d)]
}

/// A product of values bounded in magnitude is bounded by the product of
/// the bounds.
pub proof fn lemma_abs_mul_bound(x: int, y: int, bx: int, by: int)
    by (nonlinear_arith)
    requires
        -bx <= x <= bx,
        -by <= y <= by,
        0 <= bx,
        0 <= by,
    ensures
        -(bx * by) <= x * y <= bx * by,
{
}

/// A dot product of a vector with itself is never negative.
pub proof fn lemma_dot_self_nonneg(v: Seq<int>)
    by (nonlinear_arith)
    requires
        is_v3(v),
    ensures
        v_dot(v, v) >= 0,
{
}

/// Pairwise products of components of two in-bound vectors stay within
/// the square of the component bound.
pub proof fn lemma_products_bounded(a: Seq<int>, b: Seq<int>)
    requires
        a.len() == 3,
        b.len() == 3,
        v_bounded(a),
        v_bounded(b),
    ensures
        forall|i: int, j: int|
            0 <= i < 3 && 0 <= j < 3 ==> -(MAX_COMP * MAX_COMP) <= #[trigger] (a[i] * b[j])
                <= MAX_COMP * MAX_COMP,
{
    assert forall|i: int, j: int|
        0 <= i < 3 && 0 <= j < 3 implies -(MAX_COMP * MAX_COMP) <= #[trigger] (a[i] * b[j])
        <= MAX_COMP * MAX_COMP by {
        lemma_abs_mul_bound(a[i], b[j], MAX_COMP as int, MAX_COMP as int);
    }
}

/// The integer square root of a given value is unique.
pub proof fn lemma_isqrt_unique(n: int, r1: int, r2: int)
    by (nonlinear_arith)
    requires
        is_isqrt(n, r1),
        is_isqrt(n, r2),
    ensures
        r1 == r2,
{
}

/// The integer square root of a positive value is positive.
pub proof fn lemma_isqrt_positive(n: int, r: int)
    requires
        is_isqrt(n, r),
        n >= 1,
    ensures
        r >= 1,
{
}

/// Integer square root: the greatest integer whose square does not
/// exceed `n`, found by bisection.
pub fn isqrt(n: u64) -> (r: u64)
    requires
        n < 0x10000000000,
    ensures
        is_isqrt(n as int, r as int),
        r <= 0x100000,
{
    let mut lo: u64 = 0;
    let mut hi: u64 = 0x100000;
    proof {
        assert(0x100000 * 0x100000 == 0x10000000000int) by (nonlinear_arith);
    }
    while hi - lo > 1
        invariant
            lo < hi <= 0x100000,
            lo * lo <= n,
            n < hi * hi,
        decreases hi - lo,
    {
        let mid = lo + (hi - lo) / 2;
        assert(lo < mid < hi);
        proof {
            lemma_abs_mul_bound(mid as int, mid as int, 0x100000, 0x100000);
        }
        if mid * mid <= n {
            lo = mid;
        } else {
            hi = mid;
        }
    }
    assert(lo + 1 == hi);
    lo
}

/// Division truncated toward zero, the machine's signed division, stated
/// over the model's `div_trunc`.
pub fn div_trunc_i64(a: i64, b: i64) -> (q: i64)
    requires
        b != 0,
        -0x4000000000000000 <= a <= 0x4000000000000000,
        -0x4000000000000000 <= b <= 0x4000000000000000,
    ensures
        q == div_trunc(a as int, b as int),
        abs_int(q as int) <= abs_int(a as int),
{
    let ua: u64 = if a < 0 {
        (-a) as u64
    } else {
        a as u64
    };
    let ub: u64 = if b < 0 {
        (-b) as u64
    } else {
        b as u64
    };
    let uq: u64 = ua / ub;
    assert(uq <= ua) by (nonlinear_arith)
        requires
            uq == ua / ub,
            ub >= 1,
    ;
    if (a < 0) != (b < 0) {
        -(uq as i64)
    } else {
        uq as i64
    }
}

} // verus!

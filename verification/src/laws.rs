//! Algebraic laws of the vector engine, stated over the model of
//! `crate::model` and proved once for every vector either representation
//! can hold.

use vstd::prelude::*;
use crate::mask::sel;
use crate::model::{
    div_trunc, is_isqrt, is_v3, v_cross, v_dot, v_len_sq, v_neg, v_project, v_reflect, v_scale,
};

verus! {

/// The cross product is anticommutative: for all vectors `a` and `b`,
/// `cross(a, b) == -cross(b, a)`.
pub proof fn lemma_cross_anticommutative(a: Seq<int>, b: Seq<int>)
    requires
        is_v3(a),
        is_v3(b),
    ensures
        v_cross(a, b) == v_neg(v_cross(b, a)),
{
    assert(v_cross(a, b) =~= v_neg(v_cross(b, a))) by {
        assert((a[1] * b[2] - a[2] * b[1]) == (b[1] * a[2] - b[2] * a[1]) * -1)
            by (nonlinear_arith);
        assert((a[2] * b[0] - a[0] * b[2]) == (b[2] * a[0] - b[0] * a[2]) * -1)
            by (nonlinear_arith);
        assert((a[0] * b[1] - a[1] * b[0]) == (b[0] * a[1] - b[1] * a[0]) * -1)
            by (nonlinear_arith);
    }
}

/// The dot product of a vector with itself is its squared length, and the
/// integer length brackets it: `length(v)^2 <= dot(v, v) < (length(v)+1)^2`.
pub proof fn lemma_dot_self_is_squared_length(v: Seq<int>, len: int)
    requires
        is_v3(v),
        is_isqrt(v_len_sq(v), len),
    ensures
        v_dot(v, v) == v_len_sq(v),
        len * len <= v_dot(v, v) < (len + 1) * (len + 1),
{
}

/// Reflection is an isometry: for every vector `v` and every unit-length
/// normal `n` (that is, `dot(n, n) == 1`), the reflected vector has the
/// same squared length as `v`.
pub proof fn lemma_reflect_isometry(v: Seq<int>, n: Seq<int>)
    requires
        is_v3(v),
        is_v3(n),
        v_dot(n, n) == 1,
    ensures
        v_dot(v_reflect(v, n), v_reflect(v, n)) == v_dot(v, v),
{
    let d = v_dot(v, n);
    let r = v_reflect(v, n);
    assert(r[0] == v[0] - n[0] * (2 * d) && r[1] == v[1] - n[1] * (2 * d) && r[2] == v[2] - n[2] * (
    2 * d));
    assert(v_dot(r, r) == v_dot(v, v)) by (nonlinear_arith)
        requires
            r[0] == v[0] - n[0] * (2 * d),
            r[1] == v[1] - n[1] * (2 * d),
            r[2] == v[2] - n[2] * (2 * d),
            d == v[0] * n[0] + v[1] * n[1] + v[2] * n[2],
            n[0] * n[0] + n[1] * n[1] + n[2] * n[2] == 1,
            v_dot(r, r) == r[0] * r[0] + r[1] * r[1] + r[2] * r[2],
            v_dot(v, v) == v[0] * v[0] + v[1] * v[1] + v[2] * v[2],
    ;
}

/// Projection preserves the dot product with the axis: whenever the
/// division in `project` is exact, `dot(project(v, a), a) == dot(v, a)`.
/// Over the integers this holds exactly on the inputs where `dot(a, a)`
/// divides `dot(a, v)`; elsewhere the truncated quotient loses the
/// remainder.
pub proof fn lemma_project_preserves_dot(v: Seq<int>, a: Seq<int>)
    requires
        is_v3(v),
        is_v3(a),
        v_dot(a, a) != 0,
        v_dot(a, v) % v_dot(a, a) == 0,
    ensures
        v_dot(v_project(v, a), a) == v_dot(v, a),
{
    let daa = v_dot(a, a);
    let dav = v_dot(a, v);
    let q = div_trunc(dav, daa);
    lemma_div_trunc_exact(dav, daa);
    assert(v_dot(v_scale(a, q), a) == q * daa) by (nonlinear_arith)
        requires
            is_v3(a),
            daa == v_dot(a, a),
            v_dot(v_scale(a, q), a) == a[0] * q * a[0] + a[1] * q * a[1] + a[2] * q * a[2],
            daa == a[0] * a[0] + a[1] * a[1] + a[2] * a[2],
    ;
    assert(v_dot(a, v) == v_dot(v, a)) by (nonlinear_arith)
        requires
            v_dot(a, v) == a[0] * v[0] + a[1] * v[1] + a[2] * v[2],
            v_dot(v, a) == v[0] * a[0] + v[1] * a[1] + v[2] * a[2],
    ;
}

/// When `b` divides `a` exactly, the quotient truncated toward zero
/// recovers `a` on multiplication.
proof fn lemma_div_trunc_exact(a: int, b: int)
    requires
        b != 0,
        a % b == 0,
    ensures
        div_trunc(a, b) * b == a,
{
    assert(div_trunc(a, b) * b == a) by (nonlinear_arith)
        requires
            b != 0,
            a % b == 0,
            div_trunc(a, b) == (if (a < 0) == (b < 0) {
                (if a < 0 {
                    -a
                } else {
                    a
                }) / (if b < 0 {
                    -b
                } else {
                    b
                })
            } else {
                -((if a < 0 {
                    -a
                } else {
                    a
                }) / (if b < 0 {
                    -b
                } else {
                    b
                }))
            }),
    ;
}

/// The packed cross-product schedule agrees with the determinant
/// formula of the scalar reference: for any two 4-lane register images
/// whose 4th lanes are zero, permuting by the fixed masks, multiplying
/// lanewise and subtracting yields exactly the reference cross product in
/// the three used lanes, and zero in the 4th.
pub proof fn lemma_packed_cross_matches_reference(p: Seq<int>, q: Seq<int>)
    requires
        p.len() == 4,
        q.len() == 4,
        p[3] == 0,
        q[3] == 0,
    ensures
        packed_cross(p, q).len() == 4,
        packed_cross(p, q)[3] == 0,
        packed_cross(p, q).take(3) == v_cross(p.take(3), q.take(3)),
{
    lemma_fixed_masks();
    assert(packed_cross(p, q).take(3) =~= v_cross(p.take(3), q.take(3)));
}

/// The two fixed masks of the schedule select the lanes (1, 2, 0, 3) and
/// (2, 0, 1, 3).
proof fn lemma_fixed_masks()
    ensures
        sel(0xc9, 0) == 1 && sel(0xc9, 1) == 2 && sel(0xc9, 2) == 0 && sel(0xc9, 3) == 3,
        sel(0xd2, 0) == 2 && sel(0xd2, 1) == 0 && sel(0xd2, 2) == 1 && sel(0xd2, 3) == 3,
{
    assert((0xc9u32 & 3) == 1 && ((0xc9u32 >> 2) & 3) == 2 && ((0xc9u32 >> 4) & 3) == 0 && ((
    0xc9u32 >> 6) & 3) == 3) by (bit_vector);
    assert((0xd2u32 & 3) == 2 && ((0xd2u32 >> 2) & 3) == 0 && ((0xd2u32 >> 4) & 3) == 1 && ((
    0xd2u32 >> 6) & 3) == 3) by (bit_vector);
}

/// Summing lane products across a whole 4-lane register agrees with the
/// 3-component dot product whenever one operand's 4th lane is zero: the
/// padded lane contributes nothing.  The packed dot product and length
/// rest on this.
pub proof fn lemma_padded_dot_matches_reference(p: Seq<int>, q: Seq<int>)
    requires
        p.len() == 4,
        q.len() == 4,
        p[3] == 0 || q[3] == 0,
    ensures
        p[0] * q[0] + p[1] * q[1] + p[2] * q[2] + p[3] * q[3] == v_dot(p.take(3), q.take(3)),
{
    assert(p[3] * q[3] == 0) by (nonlinear_arith)
        requires
            p[3] == 0 || q[3] == 0,
    ;
    assert(p.take(3)[0] == p[0] && p.take(3)[1] == p[1] && p.take(3)[2] == p[2]);
    assert(q.take(3)[0] == q[0] && q.take(3)[1] == q[1] && q.take(3)[2] == q[2]);
}

/// One lane reordered by a shuffle mask.
pub open spec fn shuffled(s: Seq<int>, m: u32) -> Seq<int> {
    seq![s[sel(m, 0) as int], s[sel(m, 1) as int], s[sel(m, 2) as int], s[sel(m, 3) as int]]
}

/// Lanewise product of two 4-lane register images.
pub open spec fn lanes_mul(a: Seq<int>, b: Seq<int>) -> Seq<int> {
    seq![a[0] * b[0], a[1] * b[1], a[2] * b[2], a[3] * b[3]]
}

/// Lanewise difference of two 4-lane register images.
pub open spec fn lanes_sub(a: Seq<int>, b: Seq<int>) -> Seq<int> {
    seq![a[0] - b[0], a[1] - b[1], a[2] - b[2], a[3] - b[3]]
}

/// The packed cross-product schedule: permute `p` by (1, 2, 0, 3) and `q`
/// by (2, 0, 1, 3), multiply lanewise against `q` and against each other,
/// permute the first product again, and subtract.
pub open spec fn packed_cross(p: Seq<int>, q: Seq<int>) -> Seq<int> {
    let t0 = shuffled(p, 0xc9);
    let t1 = shuffled(q, 0xd2);
    let t2 = lanes_mul(t0, q);
    let t3 = lanes_mul(t0, t1);
    let t4 = shuffled(t2, 0xc9);
    lanes_sub(t3, t4)
}

} // verus!

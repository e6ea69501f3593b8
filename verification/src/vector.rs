//! Packed representation: a 3-component vector held in a 4-lane register
//! image, the 4th lane always zero.
//!
//! Elementwise operations act on all four lanes at once, as a whole
//! register would, and the cross product runs as a fixed lane-permutation
//! schedule instead of extracting individual components.  Every operation
//! is proved equal to the model functions of `crate::model`, and every
//! operation preserves the zero 4th lane.

use vstd::prelude::*;
use crate::laws::packed_cross;
use crate::mask::{permute, shuffle_mask};
use crate::model::{
    MAX_COMP, SCALE_MAX, comp_ok, div_trunc_i64, is_isqrt, isqrt, lemma_abs_mul_bound,
    lemma_dot_self_nonneg, lemma_isqrt_positive, lemma_isqrt_unique, lemma_products_bounded, v_add,
    v_bounded, v_cross, v_dot, v_len_sq, v_lerp, v_project, v_reflect, v_scale, v_scale_div, v_sub,
};

verus! {

/// A 3-component vector stored across four lanes.
#[derive(Clone, Copy)]
pub struct Vec3 {
    components: [i64; 4],
}

/// Elementwise product of two 4-lane arrays, every lane at once.
fn mul_lanes(a: &[i64; 4], b: &[i64; 4]) -> (r: [i64; 4])
    requires
        comp_ok(a@[0] as int) && comp_ok(a@[1] as int) && comp_ok(a@[2] as int) && comp_ok(
            a@[3] as int,
        ),
        comp_ok(b@[0] as int) && comp_ok(b@[1] as int) && comp_ok(b@[2] as int) && comp_ok(
            b@[3] as int,
        ),
    ensures
        r@[0] == a@[0] * b@[0],
        r@[1] == a@[1] * b@[1],
        r@[2] == a@[2] * b@[2],
        r@[3] == a@[3] * b@[3],
{
    proof {
        lemma_abs_mul_bound(a@[0] as int, b@[0] as int, MAX_COMP as int, MAX_COMP as int);
        lemma_abs_mul_bound(a@[1] as int, b@[1] as int, MAX_COMP as int, MAX_COMP as int);
        lemma_abs_mul_bound(a@[2] as int, b@[2] as int, MAX_COMP as int, MAX_COMP as int);
        lemma_abs_mul_bound(a@[3] as int, b@[3] as int, MAX_COMP as int, MAX_COMP as int);
    }
    [a[0] * b[0], a[1] * b[1], a[2] * b[2], a[3] * b[3]]
}

/// Elementwise difference of two 4-lane arrays, every lane at once.
fn sub_lanes(a: &[i64; 4], b: &[i64; 4]) -> (r: [i64; 4])
    requires
        forall|k: int|
            0 <= k < 4 ==> -0x2000000000000000 <= #[trigger] a@.index(k) <= 0x2000000000000000,
        forall|k: int|
            0 <= k < 4 ==> -0x2000000000000000 <= #[trigger] b@.index(k) <= 0x2000000000000000,
    ensures
        r@[0] == a@[0] - b@[0],
        r@[1] == a@[1] - b@[1],
        r@[2] == a@[2] - b@[2],
        r@[3] == a@[3] - b@[3],
{
    [a[0] - b[0], a[1] - b[1], a[2] - b[2], a[3] - b[3]]
}

impl Vec3 {
    /// All four storage lanes as unbounded integers.
    pub closed spec fn lanes(self) -> Seq<int> {
        seq![
            self.components@[0] as int,
            self.components@[1] as int,
            self.components@[2] as int,
            self.components@[3] as int,
        ]
    }

    /// The model of this vector: its three used lanes.
    pub open spec fn m(self) -> Seq<int> {
        self.lanes().take(3)
    }

    /// Each abstract lane is the stored component under it.
    proof fn lanes_eq(self)
        ensures
            self.lanes()[0] == self.components@[0],
            self.lanes()[1] == self.components@[1],
            self.lanes()[2] == self.components@[2],
            self.lanes()[3] == self.components@[3],
            self.m()[0] == self.components@[0],
            self.m()[1] == self.components@[1],
            self.m()[2] == self.components@[2],
    {
    }

    /// A well-formed vector with in-bound components has every storage
    /// lane in bound too, the zero 4th lane included.
    pub proof fn lemma_bounded_lanes(self)
        requires
            v_bounded(self.m()),
            self.wf(),
        ensures
            forall|k: int| 0 <= k < 4 ==> -MAX_COMP <= #[trigger] self.lanes()[k] <= MAX_COMP,
    {
        assert forall|k: int| 0 <= k < 4 implies -MAX_COMP <= #[trigger] self.lanes()[k]
            <= MAX_COMP by {
            if k < 3 {
                assert(self.m()[k] == self.lanes()[k]);
                assert(comp_ok(self.m()[k]));
            }
        }
    }

    /// The storage invariant: the unused 4th lane is exactly zero.
    pub open spec fn wf(self) -> bool {
        self.lanes()[3] == 0
    }

    /// Builds a vector from its three components; the 4th lane is set to
    /// exactly zero.
    pub fn new(components: [i64; 3]) -> (r: Vec3)
        ensures
            r.m() == seq![components@[0] as int, components@[1] as int, components@[2] as int],
            r.wf(),
    {
        let r = Vec3 { components: [components[0], components[1], components[2], 0] };
        proof {
            assert(r.m() =~= seq![
                components@[0] as int,
                components@[1] as int,
                components@[2] as int,
            ]);
        }
        r
    }

    /// Adopts a full 4-lane register image as it stands.
    pub fn from(components: [i64; 4]) -> (r: Vec3)
        ensures
            r.lanes() == seq![
                components@[0] as int,
                components@[1] as int,
                components@[2] as int,
                components@[3] as int,
            ],
    {
        Vec3 { components }
    }

    /// The zero vector: every lane zero.
    pub fn zero() -> (r: Vec3)
        ensures
            r.m() == seq![0int, 0int, 0int],
            r.wf(),
    {
        let r = Vec3 { components: [0, 0, 0, 0] };
        proof {
            assert(r.m() =~= seq![0int, 0int, 0int]);
        }
        r
    }

    /// Overwrites one of the three used components; the 4th lane is not
    /// reachable, so the storage invariant is preserved.
    pub fn set(&mut self, pos: usize, value: i64)
        requires
            pos < 3,
        ensures
            final(self).lanes() == old(self).lanes().update(pos as int, value as int),
            old(self).wf() ==> final(self).wf(),
    {
        self.components[pos] = value;
        proof {
            assert(self.lanes() =~= old(self).lanes().update(pos as int, value as int));
        }
    }

    /// Reads one storage lane.
    pub fn get(&self, pos: usize) -> (r: i64)
        requires
            pos < 4,
        ensures
            r == self.lanes()[pos as int],
            pos < 3 ==> r == self.m()[pos as int],
    {
        self.components[pos]
    }

    /// Euclidean length, rounded down to an integer: the integer square
    /// root of the sum of all four squared lanes, which equals the
    /// 3-component length because the 4th lane is zero.
    pub fn length(&self) -> (r: i64)
        requires
            v_bounded(self.m()),
            self.wf(),
        ensures
            is_isqrt(v_len_sq(self.m()), r as int),
            0 <= r <= 0x100000,
    {
        let d = self.dot(*self);
        proof {
            lemma_dot_self_nonneg(self.m());
            lemma_products_bounded(self.m(), self.m());
        }
        isqrt(d as u64) as i64
    }

    /// Replaces this vector with its normalized value.
    pub fn normalize(&mut self)
        requires
            v_bounded(old(self).m()),
            old(self).wf(),
            v_len_sq(old(self).m()) != 0,
        ensures
            forall|l: int|
                is_isqrt(v_len_sq(old(self).m()), l) ==> final(self).m() == v_scale_div(
                    old(self).m(),
                    l,
                ),
            final(self).wf(),
    {
        *self = self.normalized();
    }

    /// The vector scaled by the reciprocal of its length: each component
    /// divided by the integer length, truncated toward zero.  Undefined on
    /// the zero vector, which is excluded.
    pub fn normalized(&self) -> (r: Vec3)
        requires
            v_bounded(self.m()),
            self.wf(),
            v_len_sq(self.m()) != 0,
        ensures
            forall|l: int|
                is_isqrt(v_len_sq(self.m()), l) ==> r.m() == v_scale_div(self.m(), l),
            r.wf(),
    {
        let len = self.length();
        proof {
            lemma_dot_self_nonneg(self.m());
            lemma_isqrt_positive(v_len_sq(self.m()), len as int);
            self.lanes_eq();
        }
        let r = Vec3 {
            components: [
                div_trunc_i64(self.components[0], len),
                div_trunc_i64(self.components[1], len),
                div_trunc_i64(self.components[2], len),
                0,
            ],
        };
        proof {
            assert forall|l: int| is_isqrt(v_len_sq(self.m()), l) implies r.m() == v_scale_div(
                self.m(),
                l,
            ) by {
                lemma_isqrt_unique(v_len_sq(self.m()), len as int, l);
                assert(r.m() =~= v_scale_div(self.m(), l));
            }
        }
        r
    }

    /// Cross product, computed without reading any scalar lane: a fixed
    /// permutation schedule of whole-register multiplies and subtractions,
    /// proved equal to the determinant-expansion formula.
    pub fn cross(&self, vec: Vec3) -> (r: Vec3)
        requires
            v_bounded(self.m()),
            v_bounded(vec.m()),
            self.wf(),
            vec.wf(),
        ensures
            r.m() == v_cross(self.m(), vec.m()),
            r.lanes() == packed_cross(self.lanes(), vec.lanes()),
            r.wf(),
    {
        let yzx = shuffle_mask(3, 0, 2, 1);
        let zxy = shuffle_mask(3, 1, 0, 2);
        let tmp0 = permute(&self.components, yzx);
        let tmp1 = permute(&vec.components, zxy);
        proof {
            self.lemma_bounded_lanes();
            vec.lemma_bounded_lanes();
            self.lanes_eq();
            vec.lanes_eq();
        }
        let tmp2 = mul_lanes(&tmp0, &vec.components);
        let tmp3 = mul_lanes(&tmp0, &tmp1);
        proof {
            lemma_abs_mul_bound(
                tmp0@[0] as int,
                vec.components@[0] as int,
                MAX_COMP as int,
                MAX_COMP as int,
            );
            lemma_abs_mul_bound(
                tmp0@[1] as int,
                vec.components@[1] as int,
                MAX_COMP as int,
                MAX_COMP as int,
            );
            lemma_abs_mul_bound(
                tmp0@[2] as int,
                vec.components@[2] as int,
                MAX_COMP as int,
                MAX_COMP as int,
            );
            lemma_abs_mul_bound(
                tmp0@[3] as int,
                vec.components@[3] as int,
                MAX_COMP as int,
                MAX_COMP as int,
            );
            lemma_abs_mul_bound(tmp0@[0] as int, tmp1@[0] as int, MAX_COMP as int, MAX_COMP as int);
            lemma_abs_mul_bound(tmp0@[1] as int, tmp1@[1] as int, MAX_COMP as int, MAX_COMP as int);
            lemma_abs_mul_bound(tmp0@[2] as int, tmp1@[2] as int, MAX_COMP as int, MAX_COMP as int);
            lemma_abs_mul_bound(tmp0@[3] as int, tmp1@[3] as int, MAX_COMP as int, MAX_COMP as int);
        }
        let tmp4 = permute(&tmp2, yzx);
        proof {
            assert forall|k: int| 0 <= k < 4 implies -0x2000000000000000 <= #[trigger] tmp3@.index(
                k,
            ) <= 0x2000000000000000 by {
                assert(k == 0 || k == 1 || k == 2 || k == 3);
            }
            assert forall|k: int| 0 <= k < 4 implies -0x2000000000000000 <= #[trigger] tmp4@.index(
                k,
            ) <= 0x2000000000000000 by {
                assert(k == 0 || k == 1 || k == 2 || k == 3);
            }
        }
        let r = Vec3 { components: sub_lanes(&tmp3, &tmp4) };
        proof {
            r.lanes_eq();
            assert(r.m() =~= v_cross(self.m(), vec.m()));
            assert(r.lanes() =~= packed_cross(self.lanes(), vec.lanes()));
        }
        r
    }

    /// Projection of this vector onto `vec`, with the quotient of the two
    /// dot products truncated toward zero.  Undefined when `vec` is the
    /// zero vector, which is excluded.
    pub fn project(&self, vec: Vec3) -> (r: Vec3)
        requires
            v_bounded(self.m()),
            v_bounded(vec.m()),
            self.wf(),
            vec.wf(),
            v_len_sq(vec.m()) != 0,
        ensures
            r.m() == v_project(self.m(), vec.m()),
            r.wf(),
    {
        let daa = vec.dot(vec);
        let dav = vec.dot(*self);
        proof {
            lemma_products_bounded(vec.m(), vec.m());
            lemma_products_bounded(vec.m(), self.m());
            vec.lemma_bounded_lanes();
        }
        vec.scale(div_trunc_i64(dav, daa))
    }

    /// Reflection of this vector across the plane whose normal is `vec`;
    /// `vec` is unit-length by convention, but this is not enforced.
    pub fn reflect(&self, vec: Vec3) -> (r: Vec3)
        requires
            v_bounded(self.m()),
            v_bounded(vec.m()),
            self.wf(),
            vec.wf(),
        ensures
            r.m() == v_reflect(self.m(), vec.m()),
            r.wf(),
    {
        let d = self.dot(vec);
        proof {
            lemma_products_bounded(self.m(), vec.m());
            vec.lemma_bounded_lanes();
        }
        let s = vec.scale(2 * d);
        proof {
            self.lemma_bounded_lanes();
            assert forall|i: int| 0 <= i < 4 implies -0x2000000000000000 <= #[trigger] s.lanes()[i]
                <= 0x2000000000000000 by {
                lemma_abs_mul_bound(
                    vec.lanes()[i],
                    2 * (d as int),
                    MAX_COMP as int,
                    SCALE_MAX as int,
                );
            }
        }
        self.sub(s)
    }

    /// Componentwise sum of all four lanes at once.
    pub fn add(&self, rhs: Vec3) -> (r: Vec3)
        requires
            forall|k: int| 0 <= k < 4 ==> -0x2000000000000000 <= #[trigger] self.lanes()[k]
                <= 0x2000000000000000,
            forall|k: int| 0 <= k < 4 ==> -0x2000000000000000 <= #[trigger] rhs.lanes()[k]
                <= 0x2000000000000000,
        ensures
            forall|k: int|
                0 <= k < 4 ==> #[trigger] r.lanes()[k] == self.lanes()[k] + rhs.lanes()[k],
            r.m() == v_add(self.m(), rhs.m()),
            self.wf() && rhs.wf() ==> r.wf(),
    {
        proof {
            self.lanes_eq();
            rhs.lanes_eq();
        }
        let r = Vec3 {
            components: [
                self.components[0] + rhs.components[0],
                self.components[1] + rhs.components[1],
                self.components[2] + rhs.components[2],
                self.components[3] + rhs.components[3],
            ],
        };
        proof {
            assert(r.m() =~= v_add(self.m(), rhs.m()));
        }
        r
    }

    /// Componentwise difference of all four lanes at once.
    pub fn sub(&self, rhs: Vec3) -> (r: Vec3)
        requires
            forall|k: int| 0 <= k < 4 ==> -0x2000000000000000 <= #[trigger] self.lanes()[k]
                <= 0x2000000000000000,
            forall|k: int| 0 <= k < 4 ==> -0x2000000000000000 <= #[trigger] rhs.lanes()[k]
                <= 0x2000000000000000,
        ensures
            forall|k: int|
                0 <= k < 4 ==> #[trigger] r.lanes()[k] == self.lanes()[k] - rhs.lanes()[k],
            r.m() == v_sub(self.m(), rhs.m()),
            self.wf() && rhs.wf() ==> r.wf(),
    {
        proof {
            self.lanes_eq();
            rhs.lanes_eq();
        }
        let r = Vec3 {
            components: [
                self.components[0] - rhs.components[0],
                self.components[1] - rhs.components[1],
                self.components[2] - rhs.components[2],
                self.components[3] - rhs.components[3],
            ],
        };
        proof {
            assert(r.m() =~= v_sub(self.m(), rhs.m()));
        }
        r
    }

    /// Dot product: the sum of the products of all four lanes, which
    /// equals the 3-component dot product because the 4th lanes are zero.
    pub fn dot(&self, rhs: Vec3) -> (r: i64)
        requires
            v_bounded(self.m()),
            v_bounded(rhs.m()),
            self.wf(),
            rhs.wf(),
        ensures
            r == v_dot(self.m(), rhs.m()),
    {
        proof {
            lemma_products_bounded(self.m(), rhs.m());
            self.lanes_eq();
            rhs.lanes_eq();
        }
        self.components[0] * rhs.components[0] + self.components[1] * rhs.components[1]
            + self.components[2] * rhs.components[2] + self.components[3] * rhs.components[3]
    }

    /// Every lane multiplied by the scalar `rhs` at once.
    pub fn scale(&self, rhs: i64) -> (r: Vec3)
        requires
            forall|k: int|
                0 <= k < 4 ==> -2 * MAX_COMP <= #[trigger] self.lanes()[k] <= 2 * MAX_COMP,
            -SCALE_MAX <= rhs <= SCALE_MAX,
        ensures
            forall|k: int| 0 <= k < 4 ==> #[trigger] r.lanes()[k] == self.lanes()[k] * rhs,
            r.m() == v_scale(self.m(), rhs as int),
            self.wf() ==> r.wf(),
    {
        proof {
            self.lanes_eq();
            assert forall|k: int| 0 <= k < 4 implies -(2 * MAX_COMP * SCALE_MAX)
                <= #[trigger] (self.lanes()[k] * rhs) <= 2 * MAX_COMP * SCALE_MAX by {
                lemma_abs_mul_bound(self.lanes()[k], rhs as int, 2 * MAX_COMP as int, SCALE_MAX as int);
            }
        }
        let r = Vec3 {
            components: [
                self.components[0] * rhs,
                self.components[1] * rhs,
                self.components[2] * rhs,
                self.components[3] * rhs,
            ],
        };
        proof {
            assert(r.m() =~= v_scale(self.m(), rhs as int));
        }
        r
    }
}

/// Linear interpolation `vec1 + (vec2 - vec1) * step`, with `step`
/// unconstrained inside the component bound.
pub fn lerp(vec1: Vec3, vec2: Vec3, step: i64) -> (r: Vec3)
    requires
        v_bounded(vec1.m()),
        v_bounded(vec2.m()),
        vec1.wf(),
        vec2.wf(),
        -MAX_COMP <= step <= MAX_COMP,
    ensures
        r.m() == v_lerp(vec1.m(), vec2.m(), step as int),
        r.wf(),
{
    proof {
        vec1.lemma_bounded_lanes();
        vec2.lemma_bounded_lanes();
    }
    let diff = vec2.sub(vec1);
    let s = diff.scale(step);
    proof {
        assert forall|k: int| 0 <= k < 4 implies -0x2000000000000000 <= #[trigger] s.lanes()[k]
            <= 0x2000000000000000 by {
            lemma_abs_mul_bound(diff.lanes()[k], step as int, 2 * MAX_COMP as int, MAX_COMP as int);
        }
    }
    vec1.add(s)
}

} // verus!

//! Scalar reference representation: three independent components, each
//! operation written as straight-line arithmetic or a per-component loop.
//!
//! This is the correctness baseline the packed representation is measured
//! against; every operation is proved equal to the model functions of
//! `crate::model`.

use vstd::prelude::*;
use crate::model::{
    MAX_COMP, SCALE_MAX, div_trunc_i64, is_isqrt, isqrt, lemma_abs_mul_bound, lemma_dot_self_nonneg,
    lemma_isqrt_positive, lemma_isqrt_unique, lemma_products_bounded, v_add, v_bounded, v_cross,
    v_dot, v_len_sq, v_lerp, v_project, v_reflect, v_scale, v_scale_div, v_sub,
};

verus! {

/// A 3-component vector stored as three scalars.
#[derive(Clone, Copy)]
pub struct OldVec3 {
    elements: [i64; 3],
}

impl OldVec3 {
    /// The model of this vector: its components as unbounded integers.
    pub closed spec fn m(self) -> Seq<int> {
        seq![self.elements@[0] as int, self.elements@[1] as int, self.elements@[2] as int]
    }

    /// Builds a vector from its three components.
    pub fn new(elements: [i64; 3]) -> (r: OldVec3)
        ensures
            r.m() == seq![elements@[0] as int, elements@[1] as int, elements@[2] as int],
    {
        OldVec3 { elements }
    }

    /// The zero vector.
    pub fn zero() -> (r: OldVec3)
        ensures
            r.m() == seq![0int, 0int, 0int],
    {
        let r = OldVec3 { elements: [0, 0, 0] };
        proof {
            assert(r.m() =~= seq![0int, 0int, 0int]);
        }
        r
    }

    /// Overwrites one component.
    pub fn set(&mut self, pos: usize, value: i64)
        requires
            pos < 3,
        ensures
            final(self).m() == old(self).m().update(pos as int, value as int),
    {
        self.elements[pos] = value;
        proof {
            assert(self.m() =~= old(self).m().update(pos as int, value as int));
        }
    }

    /// Reads one component.
    pub fn get(&self, pos: usize) -> (r: i64)
        requires
            pos < 3,
        ensures
            r == self.m()[pos as int],
    {
        self.elements[pos]
    }

    /// Euclidean length, rounded down to an integer: the integer square
    /// root of the sum of squared components.
    pub fn length(&self) -> (r: i64)
        requires
            v_bounded(self.m()),
        ensures
            is_isqrt(v_len_sq(self.m()), r as int),
            0 <= r <= 0x100000,
    {
        let d = self.dot(*self);
        proof {
            lemma_dot_self_nonneg(self.m());
            lemma_products_bounded(self.m(), self.m());
        }
        isqrt(d as u64) as i64
    }

    /// Replaces this vector with its normalized value.
    pub fn normalize(&mut self)
        requires
            v_bounded(old(self).m()),
            v_len_sq(old(self).m()) != 0,
        ensures
            forall|l: int|
                is_isqrt(v_len_sq(old(self).m()), l) ==> final(self).m() == v_scale_div(
                    old(self).m(),
                    l,
                ),
    {
        *self = self.normalized();
    }

    /// The vector scaled by the reciprocal of its length: each component
    /// divided by the integer length, truncated toward zero.  Undefined on
    /// the zero vector, which is excluded.
    pub fn normalized(&self) -> (r: OldVec3)
        requires
            v_bounded(self.m()),
            v_len_sq(self.m()) != 0,
        ensures
            forall|l: int|
                is_isqrt(v_len_sq(self.m()), l) ==> r.m() == v_scale_div(self.m(), l),
    {
        let len = self.length();
        proof {
            lemma_dot_self_nonneg(self.m());
            lemma_isqrt_positive(v_len_sq(self.m()), len as int);
        }
        let r = OldVec3 {
            elements: [
                div_trunc_i64(self.elements[0], len),
                div_trunc_i64(self.elements[1], len),
                div_trunc_i64(self.elements[2], len),
            ],
        };
        proof {
            assert forall|l: int| is_isqrt(v_len_sq(self.m()), l) implies r.m() == v_scale_div(
                self.m(),
                l,
            ) by {
                lemma_isqrt_unique(v_len_sq(self.m()), len as int, l);
                assert(r.m() =~= v_scale_div(self.m(), l));
            }
        }
        r
    }

    /// Cross product by the determinant-expansion formula.
    pub fn cross(&self, vec: OldVec3) -> (r: OldVec3)
        requires
            v_bounded(self.m()),
            v_bounded(vec.m()),
        ensures
            r.m() == v_cross(self.m(), vec.m()),
    {
        proof {
            lemma_products_bounded(self.m(), vec.m());
        }
        let mut out = OldVec3::zero();
        out.set(0, self.get(1) * vec.get(2) - self.get(2) * vec.get(1));
        out.set(1, self.get(2) * vec.get(0) - self.get(0) * vec.get(2));
        out.set(2, self.get(0) * vec.get(1) - self.get(1) * vec.get(0));
        proof {
            assert(out.m() =~= v_cross(self.m(), vec.m()));
        }
        out
    }

    /// Projection of this vector onto `vec`, with the quotient of the two
    /// dot products truncated toward zero.  Undefined when `vec` is the
    /// zero vector, which is excluded.
    pub fn project(&self, vec: OldVec3) -> (r: OldVec3)
        requires
            v_bounded(self.m()),
            v_bounded(vec.m()),
            v_len_sq(vec.m()) != 0,
        ensures
            r.m() == v_project(self.m(), vec.m()),
    {
        let daa = vec.dot(vec);
        let dav = vec.dot(*self);
        proof {
            lemma_products_bounded(vec.m(), vec.m());
            lemma_products_bounded(vec.m(), self.m());
        }
        vec.scale(div_trunc_i64(dav, daa))
    }

    /// Reflection of this vector across the plane whose normal is `vec`;
    /// `vec` is unit-length by convention, but this is not enforced.
    pub fn reflect(&self, vec: OldVec3) -> (r: OldVec3)
        requires
            v_bounded(self.m()),
            v_bounded(vec.m()),
        ensures
            r.m() == v_reflect(self.m(), vec.m()),
    {
        let d = self.dot(vec);
        proof {
            lemma_products_bounded(self.m(), vec.m());
        }
        let s = vec.scale(2 * d);
        proof {
            assert forall|i: int| 0 <= i < 3 implies -0x2000000000000000 <= #[trigger] s.m()[i]
                <= 0x2000000000000000 by {
                lemma_abs_mul_bound(vec.m()[i], 2 * (d as int), MAX_COMP as int, SCALE_MAX as int);
            }
        }
        self.sub(s)
    }

    /// Componentwise sum.
    pub fn add(&self, rhs: OldVec3) -> (r: OldVec3)
        requires
            forall|i: int| 0 <= i < 3 ==> -0x2000000000000000 <= #[trigger] self.m()[i]
                <= 0x2000000000000000,
            forall|i: int| 0 <= i < 3 ==> -0x2000000000000000 <= #[trigger] rhs.m()[i]
                <= 0x2000000000000000,
        ensures
            r.m() == v_add(self.m(), rhs.m()),
    {
        let mut out = OldVec3::zero();
        let mut i: usize = 0;
        while i < 3
            invariant
                i <= 3,
                forall|j: int| 0 <= j < i ==> out.m()[j] == self.m()[j] + rhs.m()[j],
                forall|i: int| 0 <= i < 3 ==> -0x2000000000000000 <= #[trigger] self.m()[i]
                    <= 0x2000000000000000,
                forall|i: int| 0 <= i < 3 ==> -0x2000000000000000 <= #[trigger] rhs.m()[i]
                    <= 0x2000000000000000,
            decreases 3 - i,
        {
            out.set(i, self.get(i) + rhs.get(i));
            i += 1;
        }
        proof {
            assert(out.m() =~= v_add(self.m(), rhs.m()));
        }
        out
    }

    /// Componentwise difference.
    pub fn sub(&self, rhs: OldVec3) -> (r: OldVec3)
        requires
            forall|i: int| 0 <= i < 3 ==> -0x2000000000000000 <= #[trigger] self.m()[i]
                <= 0x2000000000000000,
            forall|i: int| 0 <= i < 3 ==> -0x2000000000000000 <= #[trigger] rhs.m()[i]
                <= 0x2000000000000000,
        ensures
            r.m() == v_sub(self.m(), rhs.m()),
    {
        let mut out = OldVec3::zero();
        let mut i: usize = 0;
        while i < 3
            invariant
                i <= 3,
                forall|j: int| 0 <= j < i ==> out.m()[j] == self.m()[j] - rhs.m()[j],
                forall|i: int| 0 <= i < 3 ==> -0x2000000000000000 <= #[trigger] self.m()[i]
                    <= 0x2000000000000000,
                forall|i: int| 0 <= i < 3 ==> -0x2000000000000000 <= #[trigger] rhs.m()[i]
                    <= 0x2000000000000000,
            decreases 3 - i,
        {
            out.set(i, self.get(i) - rhs.get(i));
            i += 1;
        }
        proof {
            assert(out.m() =~= v_sub(self.m(), rhs.m()));
        }
        out
    }

    /// Dot product: the sum of pairwise component products.
    pub fn dot(&self, rhs: OldVec3) -> (r: i64)
        requires
            v_bounded(self.m()),
            v_bounded(rhs.m()),
        ensures
            r == v_dot(self.m(), rhs.m()),
    {
        proof {
            lemma_products_bounded(self.m(), rhs.m());
        }
        self.elements[0] * rhs.elements[0] + self.elements[1] * rhs.elements[1] + self.elements[2]
            * rhs.elements[2]
    }

    /// Every component multiplied by the scalar `rhs`.
    pub fn scale(&self, rhs: i64) -> (r: OldVec3)
        requires
            forall|i: int| 0 <= i < 3 ==> -2 * MAX_COMP <= #[trigger] self.m()[i] <= 2 * MAX_COMP,
            -SCALE_MAX <= rhs <= SCALE_MAX,
        ensures
            r.m() == v_scale(self.m(), rhs as int),
    {
        let mut out = OldVec3::zero();
        let mut i: usize = 0;
        while i < 3
            invariant
                i <= 3,
                forall|j: int| 0 <= j < i ==> out.m()[j] == self.m()[j] * rhs,
                forall|i: int| 0 <= i < 3 ==> -2 * MAX_COMP <= #[trigger] self.m()[i] <= 2
                    * MAX_COMP,
                -SCALE_MAX <= rhs <= SCALE_MAX,
            decreases 3 - i,
        {
            proof {
                lemma_abs_mul_bound(self.m()[i as int], rhs as int, 2 * MAX_COMP, SCALE_MAX as int);
            }
            out.set(i, self.get(i) * rhs);
            i += 1;
        }
        proof {
            assert(out.m() =~= v_scale(self.m(), rhs as int));
        }
        out
    }
}

/// Linear interpolation `vec1 + (vec2 - vec1) * step`, with `step`
/// unconstrained inside the component bound.
pub fn lerp(vec1: OldVec3, vec2: OldVec3, step: i64) -> (r: OldVec3)
    requires
        v_bounded(vec1.m()),
        v_bounded(vec2.m()),
        -MAX_COMP <= step <= MAX_COMP,
    ensures
        r.m() == v_lerp(vec1.m(), vec2.m(), step as int),
{
    let diff = vec2.sub(vec1);
    let s = diff.scale(step);
    proof {
        assert forall|i: int| 0 <= i < 3 implies -0x2000000000000000 <= #[trigger] s.m()[i]
            <= 0x2000000000000000 by {
            lemma_abs_mul_bound(diff.m()[i], step as int, 2 * MAX_COMP as int, MAX_COMP as int);
        }
    }
    vec1.add(s)
}

} // verus!

//! Lane-shuffle masks and the permutation they encode.
//!
//! A shuffle mask packs four 2-bit lane selectors into one integer, lane 0
//! in the lowest bits.  `permute` reorders a 4-lane array according to such
//! a mask; this is the portable form of a whole-register shuffle, and the
//! packed cross product is built from it.

use vstd::prelude::*;

verus! {

/// The lane selector for result lane `k` held in `m`: bits `2k` and
/// `2k + 1` of the mask.
pub open spec fn sel(m: u32, k: int) -> u32 {
    if k == 0 {
        m & 3
    } else if k == 1 {
        (m >> 2) & 3
    } else if k == 2 {
        (m >> 4) & 3
    } else {
        (m >> 6) & 3
    }
}

/// The value `shuffle_mask` computes, as plain arithmetic.
pub open spec fn spec_shuffle_mask(z: int, y: int, x: int, w: int) -> int {
    z * 64 + y * 16 + x * 4 + w
}

/// Packs four lane selectors into a shuffle mask, result lane 0 taken
/// from source lane `w`, lane 1 from `x`, lane 2 from `y`, lane 3 from `z`.
pub fn shuffle_mask(z: u32, y: u32, x: u32, w: u32) -> (r: i32)
    requires
        z < 4,
        y < 4,
        x < 4,
        w < 4,
    ensures
        r == spec_shuffle_mask(z as int, y as int, x as int, w as int),
        sel(r as u32, 0) == w,
        sel(r as u32, 1) == x,
        sel(r as u32, 2) == y,
        sel(r as u32, 3) == z,
{
    let m: u32 = (z << 6u32) | (y << 4u32) | (x << 2u32) | w;
    proof {
        assert(m == z * 64 + y * 16 + x * 4 + w && m < 256 && (m & 3) == w && ((m >> 2) & 3) == x
            && ((m >> 4) & 3) == y && ((m >> 6) & 3) == z) by (bit_vector)
            requires
                m == ((z << 6u32) | (y << 4u32) | (x << 2u32) | w),
                z < 4,
                y < 4,
                x < 4,
                w < 4,
        ;
        assert((m as i32) as u32 == m);
    }
    m as i32
}

/// Reorders the lanes of `v` according to `mask`: result lane `k` is the
/// source lane `sel(mask, k)`.
pub fn permute(v: &[i64; 4], mask: i32) -> (r: [i64; 4])
    requires
        0 <= mask < 256,
    ensures
        r@[0] == v@[sel(mask as u32, 0) as int],
        r@[1] == v@[sel(mask as u32, 1) as int],
        r@[2] == v@[sel(mask as u32, 2) as int],
        r@[3] == v@[sel(mask as u32, 3) as int],
{
    let m: u32 = mask as u32;
    let i0: usize = (m & 3) as usize;
    let i1: usize = ((m >> 2u32) & 3) as usize;
    let i2: usize = ((m >> 4u32) & 3) as usize;
    let i3: usize = ((m >> 6u32) & 3) as usize;
    proof {
        assert((m & 3) < 4 && ((m >> 2) & 3) < 4 && ((m >> 4) & 3) < 4 && ((m >> 6) & 3) < 4)
            by (bit_vector);
    }
    [v[i0], v[i1], v[i2], v[i3]]
}

} // verus!

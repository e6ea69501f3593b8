use raymath::old_vector::OldVec3;
use raymath::vector::Vec3;
use raymath::mask::shuffle_mask;

#[test]
fn shuffle_mask_packs_selectors() {
    assert_eq!(shuffle_mask(3, 0, 2, 1), 0xC9);
    assert_eq!(shuffle_mask(3, 1, 0, 2), 0xD2);
    assert_eq!(shuffle_mask(0, 0, 0, 0), 0);
    assert_eq!(shuffle_mask(3, 3, 3, 3), 255);
    assert_eq!(shuffle_mask(1, 2, 3, 0), 64 + 32 + 12);
}

#[test]
fn cross_of_basis_vectors() {
    let x = Vec3::new([1, 0, 0]);
    let y = Vec3::new([0, 1, 0]);
    let z = x.cross(y);
    assert_eq!(z.get(0), 0);
    assert_eq!(z.get(1), 0);
    assert_eq!(z.get(2), 1);

    let xs = OldVec3::new([1, 0, 0]);
    let ys = OldVec3::new([0, 1, 0]);
    let zs = xs.cross(ys);
    assert_eq!(zs.get(0), 0);
    assert_eq!(zs.get(1), 0);
    assert_eq!(zs.get(2), 1);
}

#[test]
fn cross_representations_agree() {
    let a = [2, 3, 5];
    let b = [7, 11, 13];
    let p = Vec3::new(a).cross(Vec3::new(b));
    let s = OldVec3::new(a).cross(OldVec3::new(b));
    for k in 0..3 {
        assert_eq!(p.get(k), s.get(k));
    }
    assert_eq!(p.get(0), -16);
    assert_eq!(p.get(1), 9);
    assert_eq!(p.get(2), 1);
}

#[test]
fn cross_is_anticommutative() {
    let a = [4, -7, 9];
    let b = [-2, 5, 11];
    let ab = Vec3::new(a).cross(Vec3::new(b));
    let ba = Vec3::new(b).cross(Vec3::new(a));
    for k in 0..3 {
        assert_eq!(ab.get(k), -ba.get(k));
    }
    let ab_s = OldVec3::new(a).cross(OldVec3::new(b));
    let ba_s = OldVec3::new(b).cross(OldVec3::new(a));
    for k in 0..3 {
        assert_eq!(ab_s.get(k), -ba_s.get(k));
    }
}

#[test]
fn dot_of_self_is_squared_length() {
    let p = Vec3::new([3, 4, 12]);
    assert_eq!(p.dot(p), 169);
    assert_eq!(p.length(), 13);
    let s = OldVec3::new([3, 4, 12]);
    assert_eq!(s.dot(s), 169);
    assert_eq!(s.length(), 13);
    // a non-square sum rounds down
    let q = OldVec3::new([1, 1, 1]);
    assert_eq!(q.dot(q), 3);
    assert_eq!(q.length(), 1);
}

#[test]
fn normalized_axis_vector_has_unit_length() {
    let p = Vec3::new([5, 0, 0]).normalized();
    assert_eq!((p.get(0), p.get(1), p.get(2)), (1, 0, 0));
    assert_eq!(p.length(), 1);
    let s = OldVec3::new([0, 0, -7]).normalized();
    assert_eq!((s.get(0), s.get(1), s.get(2)), (0, 0, -1));
    assert_eq!(s.length(), 1);
}

#[test]
fn normalized_truncates_toward_zero() {
    // length of (3, 4, 0) is 5; every component divides to zero
    let s = OldVec3::new([3, 4, 0]).normalized();
    assert_eq!((s.get(0), s.get(1), s.get(2)), (0, 0, 0));
    let p = Vec3::new([3, 4, 0]).normalized();
    assert_eq!((p.get(0), p.get(1), p.get(2)), (0, 0, 0));
}

#[test]
fn normalize_in_place_matches_normalized() {
    let mut s = OldVec3::new([10, 0, 0]);
    s.normalize();
    assert_eq!((s.get(0), s.get(1), s.get(2)), (1, 0, 0));
    let mut p = Vec3::new([10, 0, 0]);
    p.normalize();
    assert_eq!((p.get(0), p.get(1), p.get(2)), (1, 0, 0));
}

#[test]
fn reflect_across_plane_is_isometric() {
    // n = (0, 1, 0) is unit length; reflection flips the y component
    let v = Vec3::new([3, 4, 0]);
    let n = Vec3::new([0, 1, 0]);
    let r = v.reflect(n);
    assert_eq!((r.get(0), r.get(1), r.get(2)), (3, -4, 0));
    assert_eq!(r.dot(r), v.dot(v));

    let vs = OldVec3::new([3, 4, 0]);
    let ns = OldVec3::new([0, 1, 0]);
    let rs = vs.reflect(ns);
    assert_eq!((rs.get(0), rs.get(1), rs.get(2)), (3, -4, 0));
    assert_eq!(rs.dot(rs), vs.dot(vs));
}

#[test]
fn project_preserves_dot_when_division_is_exact() {
    // dot(axis, v) = 9 is a multiple of dot(axis, axis) = 9
    let v = Vec3::new([3, 4, 0]);
    let axis = Vec3::new([3, 0, 0]);
    let pr = v.project(axis);
    assert_eq!((pr.get(0), pr.get(1), pr.get(2)), (3, 0, 0));
    assert_eq!(pr.dot(axis), v.dot(axis));

    let vs = OldVec3::new([3, 4, 0]);
    let axis_s = OldVec3::new([3, 0, 0]);
    let prs = vs.project(axis_s);
    assert_eq!((prs.get(0), prs.get(1), prs.get(2)), (3, 0, 0));
    assert_eq!(prs.dot(axis_s), vs.dot(axis_s));
}

#[test]
fn elementwise_operations_agree() {
    let a = [100, -200, 300];
    let b = [-7, 40, 9];
    let pa = Vec3::new(a);
    let pb = Vec3::new(b);
    let sa = OldVec3::new(a);
    let sb = OldVec3::new(b);

    let sum_p = pa.add(pb);
    let sum_s = sa.add(sb);
    let diff_p = pa.sub(pb);
    let diff_s = sa.sub(sb);
    let scaled_p = pa.scale(-3);
    let scaled_s = sa.scale(-3);
    for k in 0..3 {
        assert_eq!(sum_p.get(k), sum_s.get(k));
        assert_eq!(diff_p.get(k), diff_s.get(k));
        assert_eq!(scaled_p.get(k), scaled_s.get(k));
    }
    assert_eq!((sum_p.get(0), sum_p.get(1), sum_p.get(2)), (93, -160, 309));
    assert_eq!((diff_p.get(0), diff_p.get(1), diff_p.get(2)), (107, -240, 291));
    assert_eq!((scaled_p.get(0), scaled_p.get(1), scaled_p.get(2)), (-300, 600, -900));
    assert_eq!(pa.dot(pb), 100 * -7 + -200 * 40 + 300 * 9);
    assert_eq!(pa.dot(pb), sa.dot(sb));
}

#[test]
fn lerp_interpolates_linearly() {
    let a = [0, 10, -10];
    let b = [4, 0, 0];
    let p = raymath::vector::lerp(Vec3::new(a), Vec3::new(b), 2);
    assert_eq!((p.get(0), p.get(1), p.get(2)), (8, -10, 10));
    let s = raymath::old_vector::lerp(OldVec3::new(a), OldVec3::new(b), 2);
    assert_eq!((s.get(0), s.get(1), s.get(2)), (8, -10, 10));
    // step 0 returns the first operand
    let s0 = raymath::old_vector::lerp(OldVec3::new(a), OldVec3::new(b), 0);
    assert_eq!((s0.get(0), s0.get(1), s0.get(2)), (0, 10, -10));
}

#[test]
fn fourth_lane_stays_zero_through_operations() {
    let a = Vec3::new([12, -34, 56]);
    let b = Vec3::new([-78, 90, 11]);
    assert_eq!(a.get(3), 0);
    assert_eq!(a.add(b).get(3), 0);
    assert_eq!(a.sub(b).get(3), 0);
    assert_eq!(a.scale(-1000).get(3), 0);
    assert_eq!(a.cross(b).get(3), 0);
    assert_eq!(a.reflect(b).get(3), 0);
    assert_eq!(a.project(b).get(3), 0);
    assert_eq!(a.normalized().get(3), 0);
    let chained = a.add(b).cross(a.sub(b)).scale(2);
    assert_eq!(chained.get(3), 0);
    let mut m = a;
    m.set(0, 77);
    m.normalize();
    assert_eq!(m.get(3), 0);
}

#[test]
fn project_truncates_inexact_quotients() {
    // dot(axis, v) = 6 over dot(axis, axis) = 4 truncates to 1
    let v = OldVec3::new([3, 4, 0]);
    let axis = OldVec3::new([2, 0, 0]);
    let pr = v.project(axis);
    assert_eq!((pr.get(0), pr.get(1), pr.get(2)), (2, 0, 0));
    // a negative quotient truncates toward zero, not downward
    let neg = OldVec3::new([-3, 0, 0]);
    let prn = neg.project(axis);
    assert_eq!((prn.get(0), prn.get(1), prn.get(2)), (-2, 0, 0));
    let pr_packed = Vec3::new([-3, 0, 0]).project(Vec3::new([2, 0, 0]));
    assert_eq!((pr_packed.get(0), pr_packed.get(1), pr_packed.get(2)), (-2, 0, 0));
}

#[test]
fn operations_at_the_component_bound() {
    let b = 524288;
    let a = Vec3::new([b, b, b]);
    let c = Vec3::new([b, -b, 0]);
    let x = a.cross(c);
    assert_eq!(x.get(0), b * b);
    assert_eq!(x.get(1), b * b);
    assert_eq!(x.get(2), -2 * b * b);
    assert_eq!(x.get(3), 0);
    let d = a.dot(a);
    assert_eq!(d, 3 * b * b);
    let l = a.length();
    assert!(l * l <= d && d < (l + 1) * (l + 1));
    let s = OldVec3::new([b, b, b]);
    assert_eq!(s.length(), l);
}

#[test]
fn constructors_and_accessors() {
    let mut p = Vec3::zero();
    for k in 0..4 {
        assert_eq!(p.get(k), 0);
    }
    p.set(1, 42);
    assert_eq!(p.get(1), 42);
    let q = Vec3::from([1, 2, 3, 4]);
    assert_eq!(q.get(3), 4);
    let mut s = OldVec3::zero();
    for k in 0..3 {
        assert_eq!(s.get(k), 0);
    }
    s.set(2, -5);
    assert_eq!(s.get(2), -5);
}

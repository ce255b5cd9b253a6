use webgl_engine::fixed::{FX_ONE, fx_mul, fx_mul3, fx_div, isqrt64};
use webgl_engine::mat4::{Mat4, identity, translation, scaling, rotation_y, mat_mul, transpose,
    try_inverse, det, is_bounded, perspective};
use webgl_engine::quat::{Quat, quat_identity, quat_conjugate, quat_nlerp, quat_to_mat4};

#[test]
fn fixed_point_products_are_exact_on_halves() {
    // 1.5 * 1.5 == 2.25
    assert_eq!(fx_mul(98304, 98304), 147456);
    // multiplying by the unit scale changes nothing
    assert_eq!(fx_mul(-12345, FX_ONE), -12345);
    // a zero factor vanishes
    assert_eq!(fx_mul(98304, 0), 0);
    // rounding is toward negative infinity
    assert_eq!(fx_mul(1, 1), 0);
    assert_eq!(fx_mul(-1, 1), -1);
}

#[test]
fn fixed_point_triple_product() {
    // 2 * 3 * 4 == 24
    assert_eq!(fx_mul3(2 * FX_ONE, 3 * FX_ONE, 4 * FX_ONE), 24 * FX_ONE);
    assert_eq!(fx_mul3(-2 * FX_ONE, 3 * FX_ONE, 4 * FX_ONE), -24 * FX_ONE);
}

#[test]
fn fixed_point_quotients() {
    // 1 / 2 == 0.5
    assert_eq!(fx_div(FX_ONE, 2 * FX_ONE), 32768);
    // denominator sign is normalized before flooring
    assert_eq!(fx_div(-FX_ONE, 2 * FX_ONE), -32768);
    assert_eq!(fx_div(FX_ONE, -2 * FX_ONE), -32768);
}

#[test]
fn integer_square_roots_are_floors() {
    assert_eq!(isqrt64(0), 0);
    assert_eq!(isqrt64(10), 3);
    assert_eq!(isqrt64(144), 12);
    assert_eq!(isqrt64(145), 12);
    assert_eq!(isqrt64((FX_ONE as u64) * (FX_ONE as u64)), FX_ONE as u64);
}

fn entries(m: &Mat4) -> Vec<i64> {
    m.m.clone()
}

#[test]
fn translation_times_identity_is_translation() {
    let t = translation(3 * FX_ONE, -5 * FX_ONE, 7 * FX_ONE);
    let i = identity();
    let w = mat_mul(&t, &i);
    assert_eq!(entries(&w), entries(&t));
}

#[test]
fn translation_inverse_is_opposite_translation() {
    let t = translation(3 * FX_ONE, -5 * FX_ONE, 7 * FX_ONE);
    assert_eq!(det(&t), FX_ONE);
    let inv = try_inverse(&t).expect("a pure translation is invertible");
    let back = translation(-3 * FX_ONE, 5 * FX_ONE, -7 * FX_ONE);
    assert_eq!(entries(&inv), entries(&back));
}

#[test]
fn singular_matrix_has_no_inverse() {
    let z = scaling(0, 0, 0);
    assert!(try_inverse(&z).is_none());
}

#[test]
fn transpose_swaps_rows_and_columns() {
    let t = translation(3 * FX_ONE, -5 * FX_ONE, 7 * FX_ONE);
    let tt = transpose(&t);
    // the translation column becomes the bottom row
    assert_eq!(tt.m[3], 3 * FX_ONE);
    assert_eq!(tt.m[7], -5 * FX_ONE);
    assert_eq!(tt.m[11], 7 * FX_ONE);
    assert_eq!(tt.m[12], 0);
}

#[test]
fn rotation_y_layout() {
    let r = rotation_y(100, 200);
    assert_eq!(r.m[0], 100);
    assert_eq!(r.m[2], -200);
    assert_eq!(r.m[8], 200);
    assert_eq!(r.m[10], 100);
    assert_eq!(r.m[5], FX_ONE);
    assert_eq!(r.m[15], FX_ONE);
    assert!(is_bounded(&r, FX_ONE));
}

#[test]
fn perspective_matrix_exact_entries() {
    let p = perspective(800, 800);
    let m = entries(&p);
    assert_eq!(m[0], 113511);
    assert_eq!(m[5], 113511);
    assert_eq!(m[10], -65602);
    assert_eq!(m[11], -FX_ONE);
    assert_eq!(m[14], -131138);
    assert_eq!(m[15], 0);
    // a wider viewport shrinks the horizontal scale only
    let wide = perspective(1600, 800);
    assert_eq!(wide.m[0], 113511 / 2);
    assert_eq!(wide.m[5], 113511);
}

#[test]
fn quat_identity_maps_to_identity_matrix() {
    let q = quat_identity();
    let m = quat_to_mat4(q);
    assert_eq!(entries(&m), entries(&identity()));
}

#[test]
fn quat_conjugate_negates_the_vector_part() {
    let q = Quat { x: 100, y: -200, z: 300, w: 400 };
    let c = quat_conjugate(q);
    assert_eq!(c, Quat { x: -100, y: 200, z: -300, w: 400 });
}

#[test]
fn nlerp_snaps_exactly_to_its_endpoints() {
    let a = quat_identity();
    let b = Quat { x: 0, y: -46341, z: 0, w: 46341 };
    assert_eq!(quat_nlerp(a, b, 0), a);
    assert_eq!(quat_nlerp(a, b, -5), a);
    assert_eq!(quat_nlerp(a, b, FX_ONE), b);
    assert_eq!(quat_nlerp(a, b, FX_ONE + 5), b);
    // midway the interpolant is renormalized to unit-ish length
    let mid = quat_nlerp(a, b, FX_ONE / 2);
    let n2 = mid.x * mid.x + mid.y * mid.y + mid.z * mid.z + mid.w * mid.w;
    let unit = (FX_ONE as i64) * (FX_ONE as i64);
    assert!(n2 > unit - 16 * FX_ONE && n2 < unit + 16 * FX_ONE);
}

use freedraw::{Fx, Vec2, FX_SCALE};

fn fx(n: i64) -> Fx {
    Fx::from_int(n)
}

fn v2(x: i64, y: i64) -> Vec2 {
    Vec2 { x: fx(x), y: fx(y) }
}

#[test]
fn test_vector_arithmetic() {
    assert_eq!(freedraw::add(v2(1, 2), v2(3, 4)), v2(4, 6));
    assert_eq!(freedraw::sub(v2(1, 2), v2(3, 4)), v2(-2, -2));
    assert_eq!(freedraw::neg(v2(1, -2)), v2(-1, 2));
    assert_eq!(freedraw::mul(v2(3, -4), fx(2)), v2(6, -8));
    assert_eq!(freedraw::div(v2(6, -8), fx(2)), v2(3, -4));
    assert_eq!(freedraw::per(v2(1, 2)), v2(2, -1));
    assert_eq!(freedraw::dpr(v2(1, 2), v2(3, 4)), fx(11));
    assert!(freedraw::is_equal(v2(5, 5), v2(5, 5)));
    assert!(!freedraw::is_equal(v2(5, 5), v2(5, 6)));
}

#[test]
fn test_vector_lengths_and_distances() {
    assert_eq!(freedraw::len(v2(3, 4)), fx(5));
    assert_eq!(freedraw::len2(v2(3, 4)), fx(25));
    assert_eq!(freedraw::dist(v2(1, 1), v2(4, 5)), fx(5));
    assert_eq!(freedraw::dist2(v2(1, 1), v2(4, 5)), fx(25));
}

#[test]
fn test_vector_normalization() {
    let u = freedraw::uni(v2(3, 4));
    // 3/5 and 4/5, truncated at the sixteenth fractional bit.
    assert_eq!(u.x.raw, 39321);
    assert_eq!(u.y.raw, 52428);

    let axis = freedraw::uni(v2(0, -7));
    assert_eq!(axis, Vec2 { x: fx(0), y: fx(-1) });
}

#[test]
fn test_vector_interpolation_and_projection() {
    assert_eq!(freedraw::med(v2(0, 0), v2(10, 20)), v2(5, 10));
    assert_eq!(freedraw::lrp(v2(0, 0), v2(10, 20), Fx::from_ratio(1, 2)), v2(5, 10));
    assert_eq!(freedraw::lrp(v2(0, 0), v2(10, 20), fx(1)), v2(10, 20));
    assert_eq!(freedraw::lrp(v2(0, 0), v2(10, 20), fx(0)), v2(0, 0));
    assert_eq!(freedraw::prj(v2(1, 1), v2(2, 0), fx(3)), v2(7, 1));
}

#[test]
fn test_rotation_about_a_center() {
    // Rotating the center itself moves nothing.
    let c = v2(12, -7);
    let r = freedraw::rot_around(c, c, fx(1));
    assert_eq!(r, c);

    // A half turn carries a point to the opposite side, up to the small
    // error of the rational sine approximation.
    let p = v2(10, 0);
    let o = v2(0, 0);
    let half_turn = Fx::from_raw(205887);
    let r = freedraw::rot_around(p, o, half_turn);
    assert!((r.x.raw + 10 * FX_SCALE).abs() < FX_SCALE / 10);
    assert!(r.y.raw.abs() < FX_SCALE / 10);

    // A zero angle keeps the point, up to the same error.
    let r = freedraw::rot_around(p, o, fx(0));
    assert!((r.x.raw - 10 * FX_SCALE).abs() < FX_SCALE / 10);
    assert!(r.y.raw.abs() < FX_SCALE / 10);
}

use freedraw::{get_stroke_radius, Easing, Fx};

fn fx(n: i64) -> Fx {
    Fx::from_int(n)
}

fn fxr(n: i64, d: i64) -> Fx {
    Fx::from_ratio(n, d)
}

#[test]
fn test_stroke_radius_with_zero_thinning() {
    // When thinning is zero, the radius should be half the size
    assert_eq!(get_stroke_radius(fx(100), fx(0), fx(0), None), fx(50));
    assert_eq!(get_stroke_radius(fx(100), fx(0), fxr(1, 4), None), fx(50));
    assert_eq!(get_stroke_radius(fx(100), fx(0), fxr(1, 2), None), fx(50));
    assert_eq!(get_stroke_radius(fx(100), fx(0), fxr(3, 4), None), fx(50));
    assert_eq!(get_stroke_radius(fx(100), fx(0), fx(1), None), fx(50));
}

#[test]
fn test_stroke_radius_with_positive_thinning() {
    // With 0.5 thinning, it should scale between 25% and 75%
    assert_eq!(get_stroke_radius(fx(100), fxr(1, 2), fx(0), None), fx(25));
    assert_eq!(get_stroke_radius(fx(100), fxr(1, 2), fxr(1, 4), None), fxr(75, 2));
    assert_eq!(get_stroke_radius(fx(100), fxr(1, 2), fxr(1, 2), None), fx(50));
    assert_eq!(get_stroke_radius(fx(100), fxr(1, 2), fxr(3, 4), None), fxr(125, 2));
    assert_eq!(get_stroke_radius(fx(100), fxr(1, 2), fx(1), None), fx(75));

    // With 1.0 thinning, it should scale between 0% and 100%
    assert_eq!(get_stroke_radius(fx(100), fx(1), fx(0), None), fx(0));
    assert_eq!(get_stroke_radius(fx(100), fx(1), fxr(1, 4), None), fx(25));
    assert_eq!(get_stroke_radius(fx(100), fx(1), fxr(1, 2), None), fx(50));
    assert_eq!(get_stroke_radius(fx(100), fx(1), fxr(3, 4), None), fx(75));
    assert_eq!(get_stroke_radius(fx(100), fx(1), fx(1), None), fx(100));
}

#[test]
fn test_stroke_radius_with_negative_thinning() {
    // With -0.5 thinning, it should scale between 75% and 25%
    assert_eq!(get_stroke_radius(fx(100), fxr(-1, 2), fx(0), None), fx(75));
    assert_eq!(get_stroke_radius(fx(100), fxr(-1, 2), fxr(1, 4), None), fxr(125, 2));
    assert_eq!(get_stroke_radius(fx(100), fxr(-1, 2), fxr(1, 2), None), fx(50));
    assert_eq!(get_stroke_radius(fx(100), fxr(-1, 2), fxr(3, 4), None), fxr(75, 2));
    assert_eq!(get_stroke_radius(fx(100), fxr(-1, 2), fx(1), None), fx(25));

    // With -1.0 thinning, it should scale between 100% and 0%
    assert_eq!(get_stroke_radius(fx(100), fx(-1), fx(0), None), fx(100));
    assert_eq!(get_stroke_radius(fx(100), fx(-1), fxr(1, 4), None), fx(75));
    assert_eq!(get_stroke_radius(fx(100), fx(-1), fxr(1, 2), None), fx(50));
    assert_eq!(get_stroke_radius(fx(100), fx(-1), fxr(3, 4), None), fx(25));
    assert_eq!(get_stroke_radius(fx(100), fx(-1), fx(1), None), fx(0));
}

#[test]
fn test_stroke_radius_with_easing() {
    // With exponential easing, values should be squared
    let square_easing = Easing::Square;

    // With 1.0 thinning and exponential easing
    assert_eq!(get_stroke_radius(fx(100), fx(1), fx(0), Some(square_easing)), fx(0));
    assert_eq!(get_stroke_radius(fx(100), fx(1), fxr(1, 4), Some(square_easing)), fxr(25, 4));
    assert_eq!(get_stroke_radius(fx(100), fx(1), fxr(1, 2), Some(square_easing)), fx(25));
    assert_eq!(get_stroke_radius(fx(100), fx(1), fxr(3, 4), Some(square_easing)), fxr(225, 4));
    assert_eq!(get_stroke_radius(fx(100), fx(1), fx(1), Some(square_easing)), fx(100));

    // With -1.0 thinning and exponential easing
    assert_eq!(get_stroke_radius(fx(100), fx(-1), fx(0), Some(square_easing)), fx(100));
    assert_eq!(get_stroke_radius(fx(100), fx(-1), fxr(1, 4), Some(square_easing)), fxr(225, 4));
    assert_eq!(get_stroke_radius(fx(100), fx(-1), fxr(1, 2), Some(square_easing)), fx(25));
    assert_eq!(get_stroke_radius(fx(100), fx(-1), fxr(3, 4), Some(square_easing)), fxr(25, 4));
    assert_eq!(get_stroke_radius(fx(100), fx(-1), fx(1), Some(square_easing)), fx(0));
}

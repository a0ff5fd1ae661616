use freedraw::{get_stroke_points, Fx, InputPoint, StrokeOptions, Vec2};

fn fx(n: i64) -> Fx {
    Fx::from_int(n)
}

fn fxr(n: i64, d: i64) -> Fx {
    Fx::from_ratio(n, d)
}

fn v2(x: i64, y: i64) -> Vec2 {
    Vec2 { x: fx(x), y: fx(y) }
}

#[test]
fn test_get_stroke_points_with_empty_array() {
    let points: Vec<InputPoint> = vec![];
    let options = StrokeOptions::default();

    let result = get_stroke_points(&points, &options);
    assert_eq!(result.len(), 0);
}

#[test]
fn test_get_stroke_points_with_one_point() {
    let points = vec![InputPoint::Array(v2(100, 100), Some(fxr(1, 2)))];
    let options = StrokeOptions::default();

    let result = get_stroke_points(&points, &options);
    assert!(result.len() >= 1);

    // First point should match the input
    assert_eq!(result[0].point, v2(100, 100));
    assert_eq!(result[0].pressure, fxr(1, 2));
    assert_eq!(result[0].running_length, fx(0));
}

#[test]
fn test_get_stroke_points_with_multiple_points() {
    let points = vec![
        InputPoint::Array(v2(100, 100), Some(fxr(1, 2))),
        InputPoint::Array(v2(200, 150), Some(fxr(7, 10))),
        InputPoint::Array(v2(300, 100), Some(fxr(1, 2))),
    ];

    let options = StrokeOptions::default();
    let result = get_stroke_points(&points, &options);

    // There should be at least one point for each input point
    assert!(result.len() >= 3);

    // First point should match the input
    assert_eq!(result[0].point, v2(100, 100));
    assert_eq!(result[0].pressure, fxr(1, 2));
    assert_eq!(result[0].running_length, fx(0));

    // Last point should have a non-zero running length
    assert!(result.last().unwrap().running_length.raw > 0);
}

#[test]
fn test_get_stroke_points_with_object_input() {
    let points = vec![
        InputPoint::Struct { x: fx(100), y: fx(100), pressure: Some(fxr(1, 2)) },
        InputPoint::Struct { x: fx(200), y: fx(150), pressure: Some(fxr(7, 10)) },
        InputPoint::Struct { x: fx(300), y: fx(100), pressure: Some(fxr(1, 2)) },
    ];

    let options = StrokeOptions::default();
    let result = get_stroke_points(&points, &options);

    // There should be at least one point for each input point
    assert!(result.len() >= 3);

    // First point should match the input
    assert_eq!(result[0].point, v2(100, 100));
    assert_eq!(result[0].pressure, fxr(1, 2));
    assert_eq!(result[0].running_length, fx(0));
}

#[test]
fn test_get_stroke_points_with_simulated_pressure() {
    let points = vec![
        InputPoint::Array(v2(100, 100), None),
        InputPoint::Array(v2(200, 150), None),
        InputPoint::Array(v2(300, 100), None),
    ];

    let options = StrokeOptions { simulate_pressure: Some(true), ..Default::default() };

    let result = get_stroke_points(&points, &options);

    // There should be at least one point for each input point
    assert!(result.len() >= 3);

    // Points should have default pressure values
    for point in &result {
        assert!(point.pressure.raw >= 0);
        assert!(point.pressure.raw <= 65536);
    }
}

use freedraw::{get_stroke, get_svg_path_from_stroke, Fx, InputPoint, StrokeOptions, Vec2};

fn fx(n: i64) -> Fx {
    Fx::from_int(n)
}

fn fxr(n: i64, d: i64) -> Fx {
    Fx::from_ratio(n, d)
}

fn v2(x: i64, y: i64) -> Vec2 {
    Vec2 { x: fx(x), y: fx(y) }
}

fn number_pairs() -> Vec<InputPoint> {
    vec![
        InputPoint::Array(v2(10, 10), None),
        InputPoint::Array(v2(60, 25), None),
        InputPoint::Array(v2(120, 70), None),
        InputPoint::Array(v2(180, 60), None),
        InputPoint::Array(v2(240, 120), None),
        InputPoint::Array(v2(300, 100), None),
    ]
}

fn object_pairs() -> Vec<InputPoint> {
    vec![
        InputPoint::Struct { x: fx(10), y: fx(10), pressure: Some(fxr(1, 4)) },
        InputPoint::Struct { x: fx(80), y: fx(40), pressure: Some(fxr(1, 2)) },
        InputPoint::Struct { x: fx(160), y: fx(30), pressure: Some(fxr(3, 4)) },
        InputPoint::Struct { x: fx(220), y: fx(90), pressure: Some(fxr(1, 2)) },
        InputPoint::Struct { x: fx(300), y: fx(60), pressure: Some(fxr(1, 4)) },
    ]
}

fn many_points() -> Vec<InputPoint> {
    let mut pts: Vec<InputPoint> = Vec::new();
    let mut x: i64 = 0;
    while x <= 300 {
        let y: i64 = 100 + (x % 60) - 30;
        pts.push(InputPoint::Array(v2(x, y), None));
        x += 20;
    }
    pts
}

#[test]
fn test_get_stroke_with_default_options() {
    let input_points = number_pairs();

    let options = StrokeOptions::default();
    let result = get_stroke(&input_points, &options);

    // Ensure we got some results
    assert!(!result.is_empty());

    // Ensure the first and last points form a closed path
    if result.len() > 1 {
        assert_eq!(result[0], result[result.len() - 1]);
    }
}

#[test]
fn test_get_stroke_with_custom_options() {
    let input_points = object_pairs();

    let options = StrokeOptions {
        size: Some(fx(20)),
        thinning: Some(fxr(1, 2)),
        smoothing: Some(fxr(1, 2)),
        streamline: Some(fxr(1, 2)),
        simulate_pressure: Some(false),
        ..Default::default()
    };

    let result = get_stroke(&input_points, &options);

    // Ensure we got some results
    assert!(!result.is_empty());

    // Ensure the first and last points form a closed path
    if result.len() > 1 {
        assert_eq!(result[0], result[result.len() - 1]);
    }
}

#[test]
fn test_get_stroke_edge_cases() {
    // Test with one point
    let input_points = vec![InputPoint::Array(v2(100, 100), Some(fxr(1, 2)))];
    let result = get_stroke(&input_points, &StrokeOptions::default());
    assert!(!result.is_empty());

    // Test with two points
    let input_points = vec![
        InputPoint::Array(v2(100, 100), Some(fxr(1, 2))),
        InputPoint::Array(v2(200, 200), Some(fxr(1, 2))),
    ];
    let result = get_stroke(&input_points, &StrokeOptions::default());
    assert!(!result.is_empty());

    // Test with empty array
    let empty: Vec<InputPoint> = Vec::new();
    let result = get_stroke(&empty, &StrokeOptions::default());
    assert_eq!(result.len(), 0);
}

#[test]
fn test_svg_path_conversion() {
    let input_points = many_points();

    let options = StrokeOptions {
        size: Some(fx(20)),
        thinning: Some(fxr(1, 2)),
        smoothing: Some(fxr(1, 2)),
        streamline: Some(fxr(1, 2)),
        ..Default::default()
    };

    let stroke = get_stroke(&input_points, &options);

    // Convert the stroke to an SVG path
    let path_data = get_svg_path_from_stroke(&stroke, true);

    // Ensure the path is not empty
    assert!(!path_data.is_empty());

    // The path should start with M and contain Q and T commands
    assert!(path_data.starts_with('M'));
    assert!(path_data.contains('Q'));
    assert!(path_data.contains('T'));

    // Should end with Z for closed path
    assert!(path_data.ends_with('Z'));

    // Print the SVG path for demonstration
    println!("SVG Path for Many Points: {}", path_data);

    // Test with number pairs as well
    let input_points = number_pairs();

    let stroke = get_stroke(&input_points, &options);
    let path_data = get_svg_path_from_stroke(&stroke, true);

    // Print the SVG path for demonstration
    println!("SVG Path for Number Pairs: {}", path_data);
}

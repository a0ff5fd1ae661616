use freedraw::{expand_input_points, get_stroke, get_stroke_points, get_svg_path_from_stroke,
    Easing, Fx, InputPoint, StrokeOptions, TaperOptions, TaperType, Vec2};

fn fx(n: i64) -> Fx {
    Fx::from_int(n)
}

fn fxr(n: i64, d: i64) -> Fx {
    Fx::from_ratio(n, d)
}

fn v2(x: i64, y: i64) -> Vec2 {
    Vec2 { x: fx(x), y: fx(y) }
}

fn contains_point(polygon: &[Vec2], p: Vec2) -> bool {
    polygon.iter().any(|q| *q == p)
}

#[test]
fn test_empty_input_gives_empty_polygon() {
    let empty: Vec<InputPoint> = Vec::new();
    assert_eq!(get_stroke(&empty, &StrokeOptions::default()).len(), 0);

    let options = StrokeOptions {
        size: Some(fx(32)),
        thinning: Some(fx(1)),
        simulate_pressure: Some(false),
        ..Default::default()
    };
    assert_eq!(get_stroke(&empty, &options).len(), 0);
}

#[test]
fn test_non_positive_size_gives_empty_polygon() {
    let points = vec![
        InputPoint::Array(v2(0, 0), Some(fxr(1, 2))),
        InputPoint::Array(v2(100, 0), Some(fxr(1, 2))),
        InputPoint::Array(v2(200, 50), Some(fxr(1, 2))),
    ];

    let zero_size = StrokeOptions { size: Some(fx(0)), ..Default::default() };
    assert_eq!(get_stroke(&points, &zero_size).len(), 0);

    let negative_size = StrokeOptions { size: Some(fx(-16)), ..Default::default() };
    assert_eq!(get_stroke(&points, &negative_size).len(), 0);
}

#[test]
fn test_single_sample_resamples_non_empty_with_zero_arc_length() {
    let points = vec![InputPoint::Array(v2(123, 45), None)];
    let result = get_stroke_points(&points, &StrokeOptions::default());

    assert!(result.len() >= 1);
    assert_eq!(result[0].point, v2(123, 45));
    assert_eq!(result[0].running_length, fx(0));
    assert_eq!(result[0].distance, fx(0));
}

#[test]
fn test_two_samples_expand_to_five_points() {
    let points = vec![
        InputPoint::Array(v2(0, 0), Some(fxr(1, 2))),
        InputPoint::Array(v2(40, 40), Some(fxr(1, 2))),
    ];
    let expanded = expand_input_points(&points);

    assert_eq!(expanded.len(), 5);
    assert_eq!(expanded[0].0, v2(0, 0));
    assert_eq!(expanded[4].0, v2(40, 40));
    // The synthesized points are evenly spaced along the segment.
    assert_eq!(expanded[1].0, v2(10, 10));
    assert_eq!(expanded[2].0, v2(20, 20));
    assert_eq!(expanded[3].0, v2(30, 30));
}

#[test]
fn test_outline_closes_on_first_point() {
    let points = vec![
        InputPoint::Array(v2(0, 0), Some(fxr(1, 2))),
        InputPoint::Array(v2(80, 10), Some(fxr(1, 2))),
        InputPoint::Array(v2(160, 0), Some(fxr(1, 2))),
        InputPoint::Array(v2(240, 30), Some(fxr(1, 2))),
    ];
    let result = get_stroke(&points, &StrokeOptions::default());

    assert!(result.len() > 1);
    assert_eq!(result[0], result[result.len() - 1]);
}

#[test]
fn test_travel_vector_points_from_previous_to_current() {
    // A stroke moving straight right records the unit vector (1, 0) at
    // every point after the first, and the first point borrows it.
    let points = vec![
        InputPoint::Array(v2(0, 0), Some(fxr(1, 2))),
        InputPoint::Array(v2(100, 0), Some(fxr(1, 2))),
        InputPoint::Array(v2(200, 0), Some(fxr(1, 2))),
    ];
    let sp = get_stroke_points(&points, &StrokeOptions::default());
    assert!(sp.len() >= 2);
    for p in &sp {
        assert_eq!(p.vector, v2(1, 0));
    }
}

#[test]
fn test_arc_length_is_monotonically_non_decreasing() {
    let points = vec![
        InputPoint::Array(v2(0, 0), None),
        InputPoint::Array(v2(30, 10), None),
        InputPoint::Array(v2(70, 5), None),
        InputPoint::Array(v2(120, 40), None),
        InputPoint::Array(v2(160, 20), None),
        InputPoint::Array(v2(220, 60), None),
    ];
    let result = get_stroke_points(&points, &StrokeOptions::default());

    assert!(result.len() >= 2);
    for i in 1..result.len() {
        assert!(result[i - 1].running_length.raw <= result[i].running_length.raw);
        assert!(result[i].distance.raw >= 0);
    }
}

#[test]
fn test_collinear_samples_give_closed_non_empty_polygon() {
    let points = vec![
        InputPoint::Array(v2(0, 0), Some(fxr(1, 2))),
        InputPoint::Array(v2(100, 0), Some(fxr(1, 2))),
        InputPoint::Array(v2(200, 0), Some(fxr(1, 2))),
    ];
    let result = get_stroke(&points, &StrokeOptions::default());

    assert!(!result.is_empty());
    assert_eq!(result[0], result[result.len() - 1]);
}

#[test]
fn test_sharp_corner_emits_direct_offsets() {
    // With zero thinning the radius is exactly half the size, so the
    // expected offset points can be recomputed here with the library's
    // own vector helpers.
    let options = StrokeOptions { thinning: Some(fx(0)), ..Default::default() };
    let radius = fx(8);

    // A hairpin: the travel direction turns by more than a quarter turn.
    let sharp = vec![
        InputPoint::Array(v2(0, 0), Some(fxr(1, 2))),
        InputPoint::Array(v2(100, 0), Some(fxr(1, 2))),
        InputPoint::Array(v2(0, 30), Some(fxr(1, 2))),
    ];
    let sp = get_stroke_points(&sharp, &options);
    assert!(sp.len() >= 3);
    let corner = sp[2];
    let prev_vector = sp[1].vector;

    let direct_offset = freedraw::mul(freedraw::per(corner.vector), radius);
    let direct_left = freedraw::add(corner.point, direct_offset);
    let direct_right = freedraw::add(corner.point, freedraw::neg(direct_offset));
    let bridge_offset = freedraw::mul(freedraw::per(prev_vector), radius);
    let bridge_left = freedraw::add(corner.point, bridge_offset);
    let bridge_right = freedraw::add(corner.point, freedraw::neg(bridge_offset));

    let outline = get_stroke(&sharp, &options);
    assert!(contains_point(&outline, direct_left));
    assert!(contains_point(&outline, direct_right));
    assert!(!contains_point(&outline, bridge_left));
    assert!(!contains_point(&outline, bridge_right));

    // A gently curving path with the same point count keeps the bridging
    // offset computed from the previous direction.
    let gentle = vec![
        InputPoint::Array(v2(0, 0), Some(fxr(1, 2))),
        InputPoint::Array(v2(100, 0), Some(fxr(1, 2))),
        InputPoint::Array(v2(180, 40), Some(fxr(1, 2))),
    ];
    let gp = get_stroke_points(&gentle, &options);
    assert!(gp.len() >= 3);
    let gentle_bridge = freedraw::add(
        gp[2].point,
        freedraw::mul(freedraw::per(gp[1].vector), radius),
    );
    let gentle_outline = get_stroke(&gentle, &options);
    assert!(contains_point(&gentle_outline, gentle_bridge));
}

#[test]
fn test_two_equal_samples_give_empty_polygon() {
    // Equal candidates are dropped, the resampled stroke collapses to a
    // single point, and a single point has no outline.
    let points = vec![
        InputPoint::Array(v2(50, 50), Some(fxr(1, 2))),
        InputPoint::Array(v2(50, 50), Some(fxr(1, 2))),
    ];
    let result = get_stroke(&points, &StrokeOptions::default());
    assert_eq!(result.len(), 0);
}

#[test]
fn test_tapered_stroke_stays_closed() {
    let points = vec![
        InputPoint::Array(v2(0, 0), None),
        InputPoint::Array(v2(60, 20), None),
        InputPoint::Array(v2(140, 10), None),
        InputPoint::Array(v2(200, 60), None),
    ];
    let options = StrokeOptions {
        start: Some(TaperOptions {
            taper: Some(TaperType::Bool(true)),
            ..Default::default()
        }),
        end: Some(TaperOptions {
            taper: Some(TaperType::Number(fx(20))),
            ..Default::default()
        }),
        ..Default::default()
    };
    let result = get_stroke(&points, &options);
    assert!(!result.is_empty());
    assert_eq!(result[0], result[result.len() - 1]);
}

#[test]
fn test_minimum_length_suppression_drops_early_points() {
    // Until the running arc length first reaches the stroke size, the
    // resampler suppresses intermediate points, and the suppressed
    // travel is never backfilled: the first emitted point after the
    // seed already carries at least one size's worth of arc length.
    // A start-tapered stroke therefore comes out slightly shorter than
    // the raw input path; that is the intended behavior, not a defect.
    let mut points: Vec<InputPoint> = Vec::new();
    let mut x: i64 = 0;
    while x <= 60 {
        points.push(InputPoint::Array(v2(x, 0), Some(fxr(1, 2))));
        x += 2;
    }
    let options = StrokeOptions { size: Some(fx(16)), ..Default::default() };
    let result = get_stroke_points(&points, &options);

    assert!(result.len() >= 2);
    assert_eq!(result[0].running_length, fx(0));
    assert!(result[1].running_length.raw >= fx(16).raw);
}

#[test]
fn test_disabling_caps_drops_the_cap_arcs() {
    let points = vec![
        InputPoint::Array(v2(0, 0), Some(fxr(1, 2))),
        InputPoint::Array(v2(100, 0), Some(fxr(1, 2))),
        InputPoint::Array(v2(200, 40), Some(fxr(1, 2))),
    ];
    let capped = get_stroke(&points, &StrokeOptions::default());
    let uncapped_options = StrokeOptions {
        start: Some(TaperOptions { cap: Some(false), ..Default::default() }),
        end: Some(TaperOptions { cap: Some(false), ..Default::default() }),
        ..Default::default()
    };
    let uncapped = get_stroke(&points, &uncapped_options);

    // Each disabled cap removes its six arc points (the start cap also
    // carries the opposite offset point).
    assert!(!capped.is_empty());
    assert!(!uncapped.is_empty());
    assert!(capped.len() > uncapped.len());
}

#[test]
fn test_input_bounds_finds_tight_corners() {
    let empty: Vec<InputPoint> = Vec::new();
    assert!(freedraw::input_bounds(&empty).is_none());

    let points = vec![
        InputPoint::Array(v2(10, -5), None),
        InputPoint::Struct { x: fx(-20), y: fx(40), pressure: None },
        InputPoint::Array(v2(30, 15), Some(fxr(1, 2))),
    ];
    let (lo, hi) = freedraw::input_bounds(&points).unwrap();
    assert_eq!(lo, v2(-20, -5));
    assert_eq!(hi, v2(30, 40));
}

#[test]
fn test_completed_stroke_keeps_last_sample_verbatim() {
    let points = vec![
        InputPoint::Array(v2(0, 0), Some(fxr(1, 2))),
        InputPoint::Array(v2(100, 20), Some(fxr(1, 2))),
        InputPoint::Array(v2(200, 0), Some(fxr(1, 2))),
    ];

    // With `last` set, the final sample is taken verbatim rather than
    // smoothed toward the previous point.
    let completed = StrokeOptions { last: Some(true), ..Default::default() };
    let result = get_stroke_points(&points, &completed);
    assert_eq!(result.last().unwrap().point, v2(200, 0));

    // Without it, the final point is interpolated and lands short.
    let open_ended = StrokeOptions { last: Some(false), ..Default::default() };
    let result = get_stroke_points(&points, &open_ended);
    assert_ne!(result.last().unwrap().point, v2(200, 0));
}

#[test]
fn test_easing_curves_exact_values() {
    let half = fxr(1, 2);
    // t * (2 - t) at one half: three quarters.
    assert_eq!(Easing::OutQuad.ease(half), fxr(3, 4));
    // 1 - (1 - t)^3 at one half: seven eighths.
    assert_eq!(Easing::OutCubic.ease(half), fxr(7, 8));
    // t * t at one half: one quarter.
    assert_eq!(Easing::Square.ease(half), fxr(1, 4));
    assert_eq!(Easing::Identity.ease(half), half);
    // Every curve fixes both ends of the unit interval.
    for e in [Easing::Identity, Easing::OutQuad, Easing::OutCubic, Easing::Square] {
        assert_eq!(e.ease(fx(0)), fx(0));
        assert_eq!(e.ease(fx(1)), fx(1));
    }
}

#[test]
fn test_svg_path_empty_below_four_points() {
    let points = vec![v2(0, 0), v2(10, 0), v2(10, 10)];
    assert_eq!(get_svg_path_from_stroke(&points, true), String::new());
    assert_eq!(get_svg_path_from_stroke(&points, false), String::new());
    let empty: Vec<Vec2> = Vec::new();
    assert_eq!(get_svg_path_from_stroke(&empty, true), String::new());
}

#[test]
fn test_svg_path_exact_square() {
    let points = vec![v2(0, 0), v2(10, 0), v2(10, 10), v2(0, 10)];
    let closed = get_svg_path_from_stroke(&points, true);
    assert_eq!(closed, "M0.00,0.00 Q10.00,0.00 10.00,5.00 T5.00,10.00 Z");
    let open = get_svg_path_from_stroke(&points, false);
    assert_eq!(open, "M0.00,0.00 Q10.00,0.00 10.00,5.00 T5.00,10.00 ");
}

#[test]
fn test_svg_path_rounds_and_signs() {
    // One third of a unit rounds to 0.33; negative values keep the sign.
    let third = Fx::from_ratio(1, 3);
    let points = vec![
        Vec2 { x: fxr(-3, 2), y: third },
        v2(10, 0),
        v2(10, 10),
        v2(0, 10),
    ];
    let path = get_svg_path_from_stroke(&points, false);
    assert_eq!(path, "M-1.50,0.33 Q10.00,0.00 10.00,5.00 T5.00,10.00 ");
}

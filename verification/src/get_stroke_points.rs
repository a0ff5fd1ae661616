use vstd::prelude::*;
use crate::fixed::{Fx, FX_SCALE, FX_HALF, fx_mul_v, fx_div_v, fx_of, iabs, lemma_fx_mul_one};
use crate::vector::{Vec2, len_v, lerp_v, lemma_lerp_in_band};
use crate::types::{InputPoint, StrokeOptions, StrokePoint, input_pos, input_pressure,
    input_valid, inputs_valid, options_valid, stroke_points_valid, fx_within,
    vec2_within, fx_or, bool_or, size_of_options, streamline_of, last_of, DEFAULT_SIZE_RAW,
    COORD_RAW_MAX, POINT_RAW_MAX, PRESSURE_RAW_MAX, DIST_RAW_MAX, SIZE_RAW_MAX, MAX_POINTS};

verus! {

/// Raw value of the pressure a lone first point falls back to.
pub const SEED_PRESSURE_RAW: i64 = 16384;

/// Raw value of the floor of the interpolation factor.
pub const STREAMLINE_BASE_RAW: i64 = 9830;

/// Raw value of the streamline-controlled span of the interpolation
/// factor; base and span sum to exactly one.
pub const STREAMLINE_SPAN_RAW: i64 = 55706;

/// How one resampled point hangs on its predecessor: the two positions
/// differ; the recorded distance is the distance between them; the
/// recorded vector is the unit direction vector from the previous
/// position to the current one; and the arc length has grown by at
/// least that distance (by more where suppressed points travelled in
/// between).
pub open spec fn links_back(prev: StrokePoint, cur: StrokePoint) -> bool {
    let dx = cur.point.x.raw - prev.point.x.raw;
    let dy = cur.point.y.raw - prev.point.y.raw;
    &&& (dx != 0 || dy != 0)
    &&& cur.distance.raw == len_v(dx, dy)
    &&& cur.vector.x.raw == fx_div_v(dx, len_v(dx, dy))
    &&& cur.vector.y.raw == fx_div_v(dy, len_v(dx, dy))
    &&& cur.running_length.raw >= prev.running_length.raw + cur.distance.raw
}

/// The interpolation factor a streamline setting yields.
pub open spec fn lerp_factor_v(streamline: int) -> int {
    STREAMLINE_BASE_RAW + fx_mul_v(FX_SCALE as int - streamline, STREAMLINE_SPAN_RAW as int)
}

/// A point interpolated componentwise by the factor `t`.
pub open spec fn lerp_pt(a: Vec2, b: Vec2, t: int) -> Vec2 {
    Vec2 {
        x: fx_of(lerp_v(a.x.raw as int, b.x.raw as int, t)),
        y: fx_of(lerp_v(a.y.raw as int, b.y.raw as int, t)),
    }
}

/// One input sample as a normalized position and pressure pair.
pub open spec fn norm_sample(p: InputPoint) -> (Vec2, Fx) {
    (input_pos(p), input_pressure(p))
}

/// The expanded sample list: pairs as given, a lone sample doubled with
/// a one-unit offset, a two-sample stroke widened to five evenly spaced
/// points carrying the second sample's pressure.
pub open spec fn expanded_v(s: Seq<InputPoint>) -> Seq<(Vec2, Fx)> {
    if s.len() == 2 {
        seq![norm_sample(s[0])] + Seq::new(
            4,
            |k: int|
                (
                    lerp_pt(input_pos(s[0]), input_pos(s[1]), (k + 1) * 16384),
                    input_pressure(s[1]),
                ),
        )
    } else if s.len() == 1 {
        seq![
            norm_sample(s[0]),
            (
                Vec2 {
                    x: fx_of(input_pos(s[0]).x.raw + FX_SCALE),
                    y: fx_of(input_pos(s[0]).y.raw + FX_SCALE),
                },
                input_pressure(s[0]),
            ),
        ]
    } else {
        Seq::new(s.len(), |k: int| norm_sample(s[k]))
    }
}

/// The first resampled point: the first sample verbatim, the quarter
/// pressure where the sample carries the negative sentinel, and a
/// placeholder direction.
pub open spec fn seed_point_v(pts: Seq<(Vec2, Fx)>) -> StrokePoint {
    StrokePoint {
        point: pts[0].0,
        pressure: if pts[0].1.raw >= 0 {
            pts[0].1
        } else {
            Fx { raw: SEED_PRESSURE_RAW }
        },
        vector: Vec2 { x: Fx { raw: FX_SCALE }, y: Fx { raw: FX_SCALE } },
        distance: Fx { raw: 0 },
        running_length: Fx { raw: 0 },
    }
}

/// The running state of the resampling walk.
pub struct ResampleWalk {
    pub out: Seq<StrokePoint>,
    pub rl: int,
    pub reached: bool,
    pub prev: StrokePoint,
}

/// One resampling step: interpolate a candidate toward the next sample
/// (or take a completed stroke's final sample verbatim); drop it when it
/// repeats the previous position; accumulate its distance; suppress it
/// while the arc length has not yet reached the stroke size (except at
/// the final sample); emit it otherwise.
#[verifier::opaque]
pub open spec fn resample_step(
    st: ResampleWalk,
    sample: (Vec2, Fx),
    i: int,
    maxi: int,
    t: int,
    size: int,
    is_complete: bool,
) -> ResampleWalk {
    let cand = if is_complete && i == maxi {
        sample.0
    } else {
        lerp_pt(st.prev.point, sample.0, t)
    };
    if cand == st.prev.point {
        st
    } else {
        let dx = cand.x.raw - st.prev.point.x.raw;
        let dy = cand.y.raw - st.prev.point.y.raw;
        let d = len_v(dx, dy);
        let rl2 = st.rl + d;
        if i < maxi && !st.reached && rl2 < size {
            ResampleWalk { out: st.out, rl: rl2, reached: st.reached, prev: st.prev }
        } else {
            let sp = StrokePoint {
                point: cand,
                pressure: if sample.1.raw >= 0 {
                    sample.1
                } else {
                    Fx { raw: FX_HALF }
                },
                vector: Vec2 { x: fx_of(fx_div_v(dx, d)), y: fx_of(fx_div_v(dy, d)) },
                distance: fx_of(d),
                running_length: fx_of(rl2),
            };
            ResampleWalk {
                out: st.out.push(sp),
                rl: rl2,
                reached: st.reached || i < maxi,
                prev: sp,
            }
        }
    }
}

/// The walk's state after the first `i` expanded samples.
#[verifier::opaque]
pub open spec fn resample_walk(
    pts: Seq<(Vec2, Fx)>,
    t: int,
    size: int,
    is_complete: bool,
    i: int,
) -> ResampleWalk
    decreases i,
{
    if i <= 1 {
        ResampleWalk {
            out: seq![seed_point_v(pts)],
            rl: 0,
            reached: false,
            prev: seed_point_v(pts),
        }
    } else {
        resample_step(
            resample_walk(pts, t, size, is_complete, i - 1),
            pts[i - 1],
            i - 1,
            pts.len() - 1,
            t,
            size,
            is_complete,
        )
    }
}

/// What resampling computes, in full: the walk over the expanded
/// samples, with the seed's placeholder direction replaced afterward by
/// the second point's.
#[verifier::opaque]
pub open spec fn stroke_points_v(points: Seq<InputPoint>, o: StrokeOptions) -> Seq<StrokePoint> {
    if points.len() == 0 {
        Seq::empty()
    } else {
        let pts = expanded_v(points);
        let out = resample_walk(
            pts,
            lerp_factor_v(streamline_of(o)),
            size_of_options(o),
            last_of(o),
            pts.len() as int,
        ).out;
        if out.len() > 1 {
            out.update(
                0,
                StrokePoint {
                    point: out[0].point,
                    pressure: out[0].pressure,
                    vector: out[1].vector,
                    distance: out[0].distance,
                    running_length: out[0].running_length,
                },
            )
        } else {
            out
        }
    }
}

/// The normalized sample list the resampling loop walks: position and
/// pressure pairs, a lone sample doubled with a one-unit offset, and a
/// two-sample stroke widened to five evenly spaced points.
pub fn expand_input_points(points: &Vec<InputPoint>) -> (pts: Vec<(Vec2, Fx)>)
    requires
        inputs_valid(points@),
    ensures
        pts@ == expanded_v(points@),
        points@.len() == 0 ==> pts@.len() == 0,
        points@.len() == 1 ==> pts@.len() == 2,
        points@.len() == 2 ==> pts@.len() == 5,
        points@.len() >= 3 ==> pts@.len() == points@.len(),
        pts@.len() <= MAX_POINTS,
        points@.len() >= 1 ==> pts@[0].0 == input_pos(points@[0]) && pts@[0].1 == input_pressure(
            points@[0],
        ),
        points@.len() >= 3 ==> forall|i: int|
            0 <= i < points@.len() ==> (#[trigger] pts@[i]).0 == input_pos(points@[i])
                && pts@[i].1 == input_pressure(points@[i]),
        points@.len() == 2 ==> {
            let a = input_pos(points@[0]);
            let b = input_pos(points@[1]);
            forall|i: int|
                1 <= i <= 4 ==> (#[trigger] pts@[i]).0.x.raw == lerp_v(
                    a.x.raw as int,
                    b.x.raw as int,
                    i * 16384,
                ) && pts@[i].0.y.raw == lerp_v(a.y.raw as int, b.y.raw as int, i * 16384)
                    && pts@[i].1 == input_pressure(points@[1])
        },
        points@.len() == 2 ==> pts@[4].0 == input_pos(points@[1]),
        points@.len() == 1 ==> pts@[1].0.x.raw == input_pos(points@[0]).x.raw + FX_SCALE
            && pts@[1].0.y.raw == input_pos(points@[0]).y.raw + FX_SCALE && pts@[1].1
            == input_pressure(points@[0]),
        forall|i: int|
            0 <= i < pts@.len() ==> vec2_within((#[trigger] pts@[i]).0, POINT_RAW_MAX as int)
                && fx_within(pts@[i].1, PRESSURE_RAW_MAX as int),
{
    let mut pts: Vec<(Vec2, Fx)> = Vec::new();
    let n: usize = points.len();
    let mut i: usize = 0;
    while i < n
        invariant
            inputs_valid(points@),
            n == points@.len(),
            0 <= i <= n,
            pts@.len() == i,
            forall|k: int|
                0 <= k < i ==> (#[trigger] pts@[k]).0 == input_pos(points@[k]) && pts@[k].1
                    == input_pressure(points@[k]),
        decreases n - i,
    {
        let (pos, pr) = match points[i] {
            InputPoint::Array(v, p) => (v, p),
            InputPoint::Struct { x, y, pressure } => (Vec2 { x, y }, pressure),
        };
        let pressure: Fx = fx_or(pr, FX_HALF);
        proof {
            assert(input_valid(points@[i as int]));
        }
        pts.push((pos, pressure));
        i += 1;
    }
    if n == 2 {
        let a: Vec2 = pts[0].0;
        let apr: Fx = pts[0].1;
        let b: Vec2 = pts[1].0;
        let bpr: Fx = pts[1].1;
        let mut widened: Vec<(Vec2, Fx)> = Vec::new();
        widened.push((a, apr));
        let mut k: usize = 1;
        while k < 5
            invariant
                1 <= k <= 5,
                widened@.len() == k,
                widened@[0].0 == a && widened@[0].1 == apr,
                vec2_within(a, COORD_RAW_MAX as int),
                vec2_within(b, COORD_RAW_MAX as int),
                forall|j: int|
                    1 <= j < k ==> (#[trigger] widened@[j]).0.x.raw == lerp_v(
                        a.x.raw as int,
                        b.x.raw as int,
                        j * 16384,
                    ) && widened@[j].0.y.raw == lerp_v(a.y.raw as int, b.y.raw as int, j * 16384)
                        && widened@[j].1 == bpr,
            decreases 5 - k,
        {
            let t: Fx = Fx { raw: 16384 * (k as i64) };
            proof {
                lemma_lerp_in_band(a.x.raw as int, b.x.raw as int, t.raw as int,
                    COORD_RAW_MAX as int);
                lemma_lerp_in_band(a.y.raw as int, b.y.raw as int, t.raw as int,
                    COORD_RAW_MAX as int);
            }
            let p: Vec2 = crate::vector::lrp(a, b, t);
            widened.push((p, bpr));
            k += 1;
        }
        proof {
            lemma_fx_mul_one(b.x.raw - a.x.raw);
            lemma_fx_mul_one(b.y.raw - a.y.raw);
            assert(widened@[4].0.x.raw == b.x.raw);
            assert(widened@[4].0.y.raw == b.y.raw);
            assert(widened@[4].0 == b);
            assert forall|j: int| 0 <= j < 5 implies widened@[j] == expanded_v(points@)[j] by {
                if j >= 1 {
                    assert(widened@[j].0.x == fx_of(lerp_v(a.x.raw as int, b.x.raw as int,
                        j * 16384)));
                    assert(widened@[j].0.y == fx_of(lerp_v(a.y.raw as int, b.y.raw as int,
                        j * 16384)));
                    assert(expanded_v(points@)[j] == (lerp_pt(a, b, j * 16384),
                        input_pressure(points@[1])));
                }
            }
            assert(widened@ =~= expanded_v(points@));
            assert(forall|i: int|
                0 <= i < widened@.len() ==> vec2_within((#[trigger] widened@[i]).0,
                    POINT_RAW_MAX as int) && fx_within(widened@[i].1, PRESSURE_RAW_MAX as int))
                by {
                assert forall|i: int| 0 <= i < widened@.len() implies vec2_within(
                    (#[trigger] widened@[i]).0,
                    POINT_RAW_MAX as int,
                ) && fx_within(widened@[i].1, PRESSURE_RAW_MAX as int) by {
                    if 1 <= i <= 4 {
                        lemma_lerp_in_band(a.x.raw as int, b.x.raw as int, i * 16384,
                            COORD_RAW_MAX as int);
                        lemma_lerp_in_band(a.y.raw as int, b.y.raw as int, i * 16384,
                            COORD_RAW_MAX as int);
                    }
                }
            }
        }
        return widened;
    }
    if n == 1 {
        let first: Vec2 = pts[0].0;
        let firstp: Fx = pts[0].1;
        let off: Vec2 = crate::vector::add(first, Vec2 { x: Fx { raw: FX_SCALE }, y: Fx {
            raw: FX_SCALE } });
        pts.push((off, firstp));
        proof {
            assert(off.x == fx_of(input_pos(points@[0]).x.raw + FX_SCALE));
            assert(off.y == fx_of(input_pos(points@[0]).y.raw + FX_SCALE));
            assert(pts@ =~= expanded_v(points@));
        }
        return pts;
    }
    proof {
        assert(pts@ =~= expanded_v(points@));
    }
    pts
}

/// Resample raw input samples into a smoothed, evenly spaced polyline
/// annotated with pressure, travel vector, segment distance and
/// cumulative arc length.
///
/// The result is exactly `stroke_points_v`. In particular: the first
/// point is the first sample verbatim with zero arc length; every later
/// point hangs on its predecessor as `links_back` states, with arc
/// length growing by exactly the recorded distance once past the
/// suppressed prefix; a completed stroke ends on its final sample
/// verbatim; unit-interval input pressures give unit-interval output
/// pressures; and the output is empty exactly when the input is.
#[verifier::rlimit(100)]
pub fn get_stroke_points(points: &Vec<InputPoint>, options: &StrokeOptions) -> (res: Vec<
    StrokePoint,
>)
    requires
        inputs_valid(points@),
        options_valid(*options),
    ensures
        res@ == stroke_points_v(points@, *options),
        (res@.len() == 0) == (points@.len() == 0),
        stroke_points_valid(res@),
        forall|i: int| 1 <= i < res@.len() ==> links_back(res@[i - 1], #[trigger] res@[i]),
        forall|i: int|
            2 <= i < res@.len() ==> (#[trigger] res@[i]).running_length.raw == res@[i
                - 1].running_length.raw + res@[i].distance.raw,
        last_of(*options) && points@.len() >= 2 ==> res@[res@.len() - 1].point == input_pos(
            points@[points@.len() - 1],
        ),
        (forall|i: int|
            0 <= i < points@.len() ==> 0 <= (#[trigger] input_pressure(points@[i])).raw
                <= FX_SCALE) ==> forall|i: int|
            0 <= i < res@.len() ==> 0 <= (#[trigger] res@[i]).pressure.raw <= FX_SCALE,
        points@.len() >= 1 ==> {
            &&& res@[0].point == input_pos(points@[0])
            &&& res@[0].pressure.raw == (if input_pressure(points@[0]).raw >= 0 {
                input_pressure(points@[0]).raw as int
            } else {
                SEED_PRESSURE_RAW as int
            })
            &&& res@[0].distance.raw == 0
            &&& res@[0].running_length.raw == 0
        },
        res@.len() >= 2 ==> res@[0].vector == res@[1].vector,
        res@.len() == 1 ==> res@[0].vector == (Vec2 {
            x: Fx { raw: FX_SCALE },
            y: Fx { raw: FX_SCALE },
        }),
        points@.len() == 1 ==> res@.len() == 2,
{
    let streamline: Fx = fx_or(options.streamline, FX_HALF);
    let size: Fx = fx_or(options.size, DEFAULT_SIZE_RAW);
    let is_complete: bool = bool_or(options.last, false);

    if points.is_empty() {
        let empty: Vec<StrokePoint> = Vec::new();
        proof {
            reveal(stroke_points_v);
            assert(empty@ =~= stroke_points_v(points@, *options));
        }
        return empty;
    }

    // The interpolation level between points: base plus the
    // streamline-controlled span.
    let span: Fx = Fx { raw: FX_SCALE }.sub(streamline);
    let t: Fx = Fx { raw: STREAMLINE_BASE_RAW }.add(span.mul(Fx { raw: STREAMLINE_SPAN_RAW }));
    proof {
        assert((span.raw as int) * (STREAMLINE_SPAN_RAW as int) == (STREAMLINE_SPAN_RAW as int)
            * (span.raw as int)) by (nonlinear_arith);
        crate::fixed::lemma_fx_scale_between(STREAMLINE_SPAN_RAW as int, span.raw as int);
        assert(t.raw as int == lerp_factor_v(streamline_of(*options)));
        assert(size.raw as int == size_of_options(*options));
        assert(is_complete == last_of(*options));
    }

    let pts: Vec<(Vec2, Fx)> = expand_input_points(points);

    let seed_pr: Fx = pts[0].1;
    let first: StrokePoint = StrokePoint {
        point: pts[0].0,
        pressure: if seed_pr.raw >= 0 {
            seed_pr
        } else {
            Fx { raw: SEED_PRESSURE_RAW }
        },
        vector: Vec2 { x: Fx { raw: FX_SCALE }, y: Fx { raw: FX_SCALE } },
        distance: Fx { raw: 0 },
        running_length: Fx { raw: 0 },
    };

    let mut res: Vec<StrokePoint> = Vec::new();
    res.push(first);

    let mut has_reached_minimum_length: bool = false;
    let mut running_length: Fx = Fx { raw: 0 };
    let mut prev: StrokePoint = first;
    let max: usize = pts.len() - 1;

    proof {
        assert(first == seed_point_v(pts@));
        assert(res@ == resample_walk(pts@, t.raw as int, size.raw as int, is_complete, 1int).out
            && 0int == resample_walk(pts@, t.raw as int, size.raw as int, is_complete, 1int).rl
            && false == resample_walk(pts@, t.raw as int, size.raw as int, is_complete,
            1int).reached && first == resample_walk(pts@, t.raw as int, size.raw as int,
            is_complete, 1int).prev) by {
            reveal(resample_walk);
        }
    }
    let mut i: usize = 1;
    while i < pts.len()
        invariant
            1 <= i <= pts@.len(),
            pts@.len() >= 2,
            pts@.len() <= MAX_POINTS,
            max == pts@.len() - 1,
            9830 <= t.raw <= FX_SCALE,
            fx_within(size, SIZE_RAW_MAX as int),
            forall|k: int|
                0 <= k < pts@.len() ==> vec2_within((#[trigger] pts@[k]).0, POINT_RAW_MAX as int)
                    && fx_within(pts@[k].1, PRESSURE_RAW_MAX as int),
            res@.len() >= 1,
            res@.len() <= i,
            res@[0] == first,
            first.point == pts@[0].0,
            points@.len() == 1 ==> pts@.len() == 2 && pts@[1].0.x.raw == pts@[0].0.x.raw
                + FX_SCALE,
            points@.len() == 1 && i >= 2 ==> res@.len() >= 2,
            prev == res@[res@.len() - 1],
            stroke_points_valid(res@),
            forall|k: int| 1 <= k < res@.len() ==> links_back(res@[k - 1], #[trigger] res@[k]),
            0 <= running_length.raw,
            running_length.raw >= prev.running_length.raw,
            running_length.raw <= (i as int - 1) * (DIST_RAW_MAX as int),
            res@ == resample_walk(pts@, t.raw as int, size.raw as int, is_complete,
                i as int).out,
            running_length.raw == resample_walk(pts@, t.raw as int, size.raw as int,
                is_complete, i as int).rl,
            has_reached_minimum_length == resample_walk(pts@, t.raw as int, size.raw as int,
                is_complete, i as int).reached,
            prev == resample_walk(pts@, t.raw as int, size.raw as int, is_complete,
                i as int).prev,
            res@.len() >= 2 && i <= max ==> has_reached_minimum_length,
            res@.len() >= 2 ==> running_length.raw == prev.running_length.raw,
            forall|k: int|
                2 <= k < res@.len() ==> (#[trigger] res@[k]).running_length.raw == res@[k
                    - 1].running_length.raw + res@[k].distance.raw,
            is_complete && i > max ==> prev.point == pts@[max as int].0,
            (forall|k: int|
                0 <= k < pts@.len() ==> 0 <= (#[trigger] pts@[k]).1.raw <= FX_SCALE)
                ==> forall|k: int|
                0 <= k < res@.len() ==> 0 <= (#[trigger] res@[k]).pressure.raw <= FX_SCALE,
        decreases pts@.len() - i,
    {
        let ghost pre_walk = resample_walk(pts@, t.raw as int, size.raw as int, is_complete,
            i as int);
        let ghost step_walk = resample_step(pre_walk, pts@[i as int], i as int, pts@.len() - 1,
            t.raw as int, size.raw as int, is_complete);
        proof {
            assert(resample_walk(pts@, t.raw as int, size.raw as int, is_complete, i as int + 1)
                == step_walk) by {
                reveal(resample_walk);
            }
        }
        let target: Vec2 = pts[i].0;
        let point: Vec2 = if is_complete && i == max {
            target
        } else {
            proof {
                lemma_lerp_in_band(prev.point.x.raw as int, target.x.raw as int, t.raw as int,
                    POINT_RAW_MAX as int);
                lemma_lerp_in_band(prev.point.y.raw as int, target.y.raw as int, t.raw as int,
                    POINT_RAW_MAX as int);
            }
            crate::vector::lrp(prev.point, target, t)
        };
        proof {
            if !(is_complete && i == max) {
                assert(point.x == fx_of(lerp_v(prev.point.x.raw as int, target.x.raw as int,
                    t.raw as int)));
                assert(point.y == fx_of(lerp_v(prev.point.y.raw as int, target.y.raw as int,
                    t.raw as int)));
                assert(point == lerp_pt(prev.point, target, t.raw as int));
            }
        }

        proof {
            // A lone sample always yields a second resampled point: the
            // synthesized offset sample pulls the candidate off the seed.
            if points@.len() == 1 && res@.len() == 1 {
                assert(prev == first);
                assert(target.x.raw == prev.point.x.raw + FX_SCALE);
                if !(is_complete && i == max) {
                    lemma_fx_mul_one(t.raw as int);
                    assert((t.raw as int) * (FX_SCALE as int) == (FX_SCALE as int) * (
                    t.raw as int)) by (nonlinear_arith);
                    assert(fx_mul_v(FX_SCALE as int, t.raw as int) == t.raw);
                    assert(point.x.raw == prev.point.x.raw + t.raw);
                }
                assert(point.x.raw != prev.point.x.raw);
            }
        }
        if !crate::vector::is_equal(prev.point, point) {
            let distance: Fx = crate::vector::dist(point, prev.point);
            proof {
                let dx = point.x.raw - prev.point.x.raw;
                let dy = point.y.raw - prev.point.y.raw;
                assert(distance.raw <= DIST_RAW_MAX) by (nonlinear_arith)
                    requires
                        (distance.raw as int) * (distance.raw as int) <= dx * dx + dy * dy,
                        iabs(dx) <= 2 * POINT_RAW_MAX as int,
                        iabs(dy) <= 2 * POINT_RAW_MAX as int,
                        POINT_RAW_MAX == 0x10_0001_0000,
                        DIST_RAW_MAX == 0x40_0000_0000,
                        distance.raw >= 0,
                ;
                assert((i as int - 1) * (DIST_RAW_MAX as int) + DIST_RAW_MAX as int == (
                i as int) * (DIST_RAW_MAX as int)) by (nonlinear_arith);
                assert((i as int) * (DIST_RAW_MAX as int) <= (MAX_POINTS as int) * (
                DIST_RAW_MAX as int)) by (nonlinear_arith)
                    requires
                        i as int <= MAX_POINTS as int,
                        DIST_RAW_MAX > 0,
                ;
            }
            running_length = running_length.add(distance);

            let suppressed: bool = i < max && !has_reached_minimum_length && running_length.raw
                < size.raw;
            if !suppressed {
                if i < max && !has_reached_minimum_length {
                    has_reached_minimum_length = true;
                }
                let travel: Vec2 = crate::vector::sub(point, prev.point);
                let v: Vec2 = crate::vector::uni(travel);
                let given: Fx = pts[i].1;
                let next: StrokePoint = StrokePoint {
                    point,
                    pressure: if given.raw >= 0 {
                        given
                    } else {
                        Fx { raw: FX_HALF }
                    },
                    vector: v,
                    distance,
                    running_length,
                };
                proof {
                    let dx = point.x.raw - pre_walk.prev.point.x.raw;
                    let dy = point.y.raw - pre_walk.prev.point.y.raw;
                    assert(next.vector.x == fx_of(fx_div_v(dx, len_v(dx, dy))));
                    assert(next.vector.y == fx_of(fx_div_v(dy, len_v(dx, dy))));
                    assert(next.distance == fx_of(len_v(dx, dy)));
                    assert(next.running_length == fx_of(pre_walk.rl + len_v(dx, dy)));
                }
                res.push(next);
                prev = next;
            }
        }
        proof {
            assert(res@ == step_walk.out && running_length.raw == step_walk.rl
                && has_reached_minimum_length == step_walk.reached && prev == step_walk.prev)
                by {
                reveal(resample_step);
            }
        }
        i += 1;
    }

    // The seed's direction is a placeholder; give the first point the
    // second point's direction.
    let ghost walk_out = res@;
    if res.len() > 1 {
        let v1: Vec2 = res[1].vector;
        let mut head: StrokePoint = res[0];
        head.vector = v1;
        res[0] = head;
        proof {
            assert(head == (StrokePoint {
                point: walk_out[0].point,
                pressure: walk_out[0].pressure,
                vector: walk_out[1].vector,
                distance: walk_out[0].distance,
                running_length: walk_out[0].running_length,
            }));
            assert(res@ == walk_out.update(0, head));
            assert(forall|k: int|
                1 <= k < res@.len() ==> links_back(res@[k - 1], #[trigger] res@[k]));
        }
    }
    proof {
        assert forall|k: int| 0 <= k < res@.len() implies (#[trigger] res@[k]).pressure
            == walk_out[k].pressure by {}
        reveal(stroke_points_v);
        assert(res@ == stroke_points_v(points@, *options));
        if forall|k: int|
            0 <= k < points@.len() ==> 0 <= (#[trigger] input_pressure(points@[k])).raw
                <= FX_SCALE {
            assert forall|k: int| 0 <= k < pts@.len() implies 0 <= (#[trigger] pts@[k]).1.raw
                <= FX_SCALE by {
                if points@.len() == 2 {
                    if k == 0 {
                        assert(pts@[k].1 == input_pressure(points@[0]));
                    } else {
                        assert(pts@[k].1 == input_pressure(points@[1]));
                    }
                } else if points@.len() == 1 {
                    assert(pts@[k].1 == input_pressure(points@[0]));
                } else {
                    assert(pts@[k].1 == input_pressure(points@[k]));
                }
            }
        }
    }
    res
}

} // verus!

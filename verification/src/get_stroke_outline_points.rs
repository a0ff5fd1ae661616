use vstd::prelude::*;
use crate::fixed::{Fx, FX_SCALE, FX_HALF, fx_mul_v, fx_div_v, iabs, lemma_fx_scale_between,
    lemma_fx_mul_units, lemma_fx_div_frac, lemma_tdiv_mag, lemma_fx_half};
use crate::vector::{Vec2, rot_x_v, rot_y_v, len2_v, dpr_v};
use crate::types::{Easing, StrokeOptions, StrokePoint, TaperOptions, TaperType, ease_v,
    fx_within, vec2_within, stroke_point_valid, stroke_points_valid, options_valid,
    lemma_running_length_monotone, fx_or, bool_or, size_of_options, thinning_of, smoothing_of,
    simulate_of, easing_of, cap_start_of, cap_end_of, start_ease_of, end_ease_of, taper_len_v,
    DEFAULT_SIZE_RAW, SIZE_RAW_MAX, THINNING_RAW_MAX, PRESSURE_RAW_MAX, DIST_RAW_MAX,
    POINT_RAW_MAX, RADIUS_RAW_MAX, OUT_RAW_MAX};
use crate::get_stroke_radius::{get_stroke_radius, stroke_radius_v, radius_easing};
use crate::fixed::fx_of;
use vstd::arithmetic::div_mod::*;

verus! {

/// Raw rate of change for simulated pressure.
pub const RATE_OF_PRESSURE_CHANGE_RAW: i64 = 18022;

/// Raw half-turn angle the end caps sweep: pi widened by a hair, which
/// renders a cleaner joint where the cap meets the sides.
pub const ARC_PI_RAW: i64 = 205893;

/// Raw floor under the tapered radius: the offset geometry never
/// collapses to an exact point.
pub const RADIUS_FLOOR_RAW: i64 = 655;

/// One step of pressure simulation: the distance-to-size ratio stands in
/// for speed, and the previous pressure is blended toward its complement
/// at the fixed rate, capped at one.
pub open spec fn sim_pressure_v(pp: int, d: int, s: int) -> int {
    let sp = vstd::math::min(FX_SCALE as int, fx_div_v(d, s));
    let rp = vstd::math::min(FX_SCALE as int, FX_SCALE as int - sp);
    vstd::math::min(
        FX_SCALE as int,
        pp + fx_mul_v(rp - pp, fx_mul_v(sp, RATE_OF_PRESSURE_CHANGE_RAW as int)),
    )
}

/// Advance the simulated pressure by one segment.
fn simulate_pressure_step(pp: Fx, d: Fx, size: Fx) -> (r: Fx)
    requires
        fx_within(pp, PRESSURE_RAW_MAX as int),
        0 <= d.raw <= DIST_RAW_MAX,
        0 < size.raw <= SIZE_RAW_MAX,
    ensures
        r.raw == sim_pressure_v(pp.raw as int, d.raw as int, size.raw as int),
        fx_within(r, PRESSURE_RAW_MAX as int),
        r.raw <= FX_SCALE,
{
    proof {
        lemma_tdiv_mag(d.raw as int * FX_SCALE as int, size.raw as int);
        crate::fixed::lemma_iabs_mul(d.raw as int, FX_SCALE as int);
        assert(d.raw as int * FX_SCALE as int >= 0) by (nonlinear_arith)
            requires
                d.raw >= 0,
        ;
        lemma_div_pos_is_pos(iabs(d.raw as int * FX_SCALE as int), size.raw as int);
        lemma_div_nonincreasing(iabs(d.raw as int * FX_SCALE as int), size.raw as int);
        assert(iabs(d.raw as int * FX_SCALE as int) <= 0x40_0000_0000_0000)
            by (nonlinear_arith)
            requires
                0 <= d.raw <= 0x40_0000_0000,
        ;
    }
    let sp: Fx = Fx { raw: FX_SCALE }.min(d.div(size));
    let rp: Fx = Fx { raw: FX_SCALE }.min(Fx { raw: FX_SCALE }.sub(sp));
    proof {
        lemma_fx_scale_between(sp.raw as int, RATE_OF_PRESSURE_CHANGE_RAW as int);
    }
    let sr: Fx = sp.mul(Fx { raw: RATE_OF_PRESSURE_CHANGE_RAW });
    proof {
        lemma_fx_scale_between(rp.raw - pp.raw, sr.raw as int);
    }
    let delta: Fx = rp.sub(pp).mul(sr);
    Fx { raw: FX_SCALE }.min(pp.add(delta))
}

/// The decayed pressure average over the first `j` points: each step
/// folds the next point's pressure (simulated where asked) into the
/// accumulator and halves the sum.
pub open spec fn seed_pressure_v(points: Seq<StrokePoint>, size: int, simulate: bool,
    j: int) -> int
    decreases j,
{
    if j <= 0 {
        points[0].pressure.raw as int
    } else {
        let acc = seed_pressure_v(points, size, simulate, j - 1);
        let p = if simulate {
            sim_pressure_v(acc, points[j - 1].distance.raw as int, size)
        } else {
            points[j - 1].pressure.raw as int
        };
        crate::fixed::tdiv(acc + p, 2)
    }
}

/// The pressure the walk starts from: a decayed average of the first ten
/// points' pressure, simulated where the configuration asks for it, so
/// that slow stroke starts do not begin fat.
fn seed_pressure(points: &Vec<StrokePoint>, size: Fx, simulate: bool) -> (r: Fx)
    requires
        stroke_points_valid(points@),
        points@.len() >= 1,
        0 < size.raw <= SIZE_RAW_MAX,
    ensures
        fx_within(r, PRESSURE_RAW_MAX as int),
        r.raw == seed_pressure_v(points@, size.raw as int, simulate, vstd::math::min(
            10,
            points@.len() as int,
        )),
{
    let mut acc: Fx = points[0].pressure;
    let count: usize = if points.len() < 10 {
        points.len()
    } else {
        10
    };
    let mut j: usize = 0;
    while j < count
        invariant
            stroke_points_valid(points@),
            1 <= count <= points@.len(),
            count == vstd::math::min(10, points@.len() as int),
            0 <= j <= count,
            0 < size.raw <= SIZE_RAW_MAX,
            fx_within(acc, PRESSURE_RAW_MAX as int),
            acc.raw == seed_pressure_v(points@, size.raw as int, simulate, j as int),
        decreases count - j,
    {
        let curr: StrokePoint = points[j];
        proof {
            assert(stroke_point_valid(points@[j as int]));
        }
        let pressure: Fx = if simulate {
            simulate_pressure_step(acc, curr.distance, size)
        } else {
            curr.pressure
        };
        proof {
            lemma_fx_half(acc.raw + pressure.raw);
            lemma_tdiv_mag(acc.raw + pressure.raw, 2);
        }
        acc = acc.add(pressure).mul(Fx { raw: FX_HALF });
        j += 1;
    }
    acc
}

/// The taper length one end asks for: none, an explicit length, or the
/// larger of the stroke size and the total path length when automatic.
fn taper_length(t: &Option<TaperOptions>, size: Fx, total: Fx) -> (r: Fx)
    ensures
        r.raw == taper_len_v(*t, size.raw as int, total.raw as int),
{
    match t {
        Some(to) => match to.taper {
            Some(TaperType::Bool(false)) => Fx { raw: 0 },
            Some(TaperType::Bool(true)) => size.max(total),
            Some(TaperType::Number(v)) => v,
            None => Fx { raw: 0 },
        },
        None => Fx { raw: 0 },
    }
}

/// The angle of the `k`-th cap-arc step: rising sweeps zero to the arc
/// constant; falling sweeps the other way.
pub open spec fn cap_angle(k: int, rising: bool) -> int {
    if rising {
        fx_mul_v(16384 * k, ARC_PI_RAW as int)
    } else {
        ARC_PI_RAW as int - fx_mul_v(16384 * k, ARC_PI_RAW as int)
    }
}

/// Append the five points of a semicircular cap: the point `a` rotated
/// around `center` through five evenly spaced angles across the arc.
fn push_cap_arc(out: &mut Vec<Vec2>, a: Vec2, center: Vec2, rising: bool)
    requires
        vec2_within(center, POINT_RAW_MAX as int),
        iabs(a.x.raw - center.x.raw) <= RADIUS_RAW_MAX as int,
        iabs(a.y.raw - center.y.raw) <= RADIUS_RAW_MAX as int,
    ensures
        final(out)@.len() == old(out)@.len() + 5,
        forall|j: int| 0 <= j < old(out)@.len() ==> final(out)@[j] == old(out)@[j],
        forall|j: int|
            old(out)@.len() <= j < final(out)@.len() ==> (#[trigger] final(out)@[j]).x.raw
                == rot_x_v(
                a.x.raw as int,
                a.y.raw as int,
                center.x.raw as int,
                center.y.raw as int,
                cap_angle(j - old(out)@.len(), rising),
            ) && final(out)@[j].y.raw == rot_y_v(
                a.x.raw as int,
                a.y.raw as int,
                center.x.raw as int,
                center.y.raw as int,
                cap_angle(j - old(out)@.len(), rising),
            ),
        forall|j: int|
            old(out)@.len() <= j < final(out)@.len() ==> vec2_within(#[trigger] final(out)@[j],
                OUT_RAW_MAX as int),
{
    let mut k: usize = 0;
    while k < 5
        invariant
            vec2_within(center, POINT_RAW_MAX as int),
            iabs(a.x.raw - center.x.raw) <= RADIUS_RAW_MAX as int,
            iabs(a.y.raw - center.y.raw) <= RADIUS_RAW_MAX as int,
            0 <= k <= 5,
            out@.len() == old(out)@.len() + k,
            forall|j: int| 0 <= j < old(out)@.len() ==> out@[j] == old(out)@[j],
            forall|j: int|
                old(out)@.len() <= j < out@.len() ==> (#[trigger] out@[j]).x.raw == rot_x_v(
                    a.x.raw as int,
                    a.y.raw as int,
                    center.x.raw as int,
                    center.y.raw as int,
                    cap_angle(j - old(out)@.len(), rising),
                ) && out@[j].y.raw == rot_y_v(
                    a.x.raw as int,
                    a.y.raw as int,
                    center.x.raw as int,
                    center.y.raw as int,
                    cap_angle(j - old(out)@.len(), rising),
                ),
            forall|j: int|
                old(out)@.len() <= j < out@.len() ==> vec2_within(#[trigger] out@[j],
                    OUT_RAW_MAX as int),
        decreases 5 - k,
    {
        let t: Fx = Fx { raw: 16384 * (k as i64) };
        proof {
            lemma_fx_scale_between(ARC_PI_RAW as int, t.raw as int);
            assert(t.raw as int * ARC_PI_RAW as int == ARC_PI_RAW as int * t.raw as int)
                by (nonlinear_arith);
        }
        let swept: Fx = t.mul(Fx { raw: ARC_PI_RAW });
        let angle: Fx = if rising {
            swept
        } else {
            Fx { raw: ARC_PI_RAW }.sub(swept)
        };
        let p: Vec2 = crate::vector::rot_around(a, center, angle);
        out.push(p);
        k += 1;
    }
}

/// The minimum squared distance between accepted offset points.
pub open spec fn min_distance_v(size: int, smoothing: int) -> int {
    fx_mul_v(fx_mul_v(size, smoothing), fx_mul_v(size, smoothing))
}

/// The radius used at a point: the radius model under positive
/// thinning, half the size otherwise (pressure then has no effect).
pub open spec fn radius_at_v(size: int, thinning: int, e: Easing, pressure: int) -> int {
    if thinning > 0 {
        stroke_radius_v(size, thinning, pressure, e)
    } else {
        fx_mul_v(size, FX_HALF as int)
    }
}

/// One end's taper factor: the eased progress below the taper length,
/// one past it.
pub open spec fn taper_factor_v(e: Easing, run: int, taper: int) -> int {
    if run < taper {
        ease_v(e, fx_div_v(run, taper))
    } else {
        FX_SCALE as int
    }
}

/// The left offset candidate: the point pushed along the direction's
/// perpendicular by the radius.
pub open spec fn left_offset_v(p: Vec2, v: Vec2, r: int) -> Vec2 {
    Vec2 {
        x: fx_of(p.x.raw + fx_mul_v(v.y.raw as int, r)),
        y: fx_of(p.y.raw + fx_mul_v(-(v.x.raw as int), r)),
    }
}

/// The right offset candidate: the same offset, subtracted.
pub open spec fn right_offset_v(p: Vec2, v: Vec2, r: int) -> Vec2 {
    Vec2 {
        x: fx_of(p.x.raw - fx_mul_v(v.y.raw as int, r)),
        y: fx_of(p.y.raw - fx_mul_v(-(v.x.raw as int), r)),
    }
}

/// The sole deduplication rule: a candidate is kept only when it sits
/// strictly farther from the reference than the squared minimum.
pub open spec fn far_v(a: Vec2, b: Vec2, md: int) -> bool {
    len2_v(a.x.raw - b.x.raw, a.y.raw - b.y.raw) > md
}

/// An optional number's raw value.
pub open spec fn opt_raw(o: Option<Fx>) -> Option<int> {
    match o {
        Some(f) => Some(f.raw as int),
        None => None,
    }
}

/// The running state of the outline walk.
pub struct OutlineWalk {
    pub left: Seq<Vec2>,
    pub right: Seq<Vec2>,
    pub pl: Vec2,
    pub pr: Vec2,
    pub prev_vector: Vec2,
    pub prev_pressure: int,
    pub radius: int,
    pub first_radius: Option<int>,
    pub prev_sharp: bool,
}

/// One outline step over a point: simulate pressure where configured,
/// take the radius from the model, taper it with the never-zero floor,
/// form both offset candidates, and append them — directly at a fresh
/// sharp corner, after the bridging offsets along the previous
/// direction otherwise — each append gated by the deduplication rule.
#[verifier::opaque]
pub open spec fn outline_step(st: OutlineWalk, curr: StrokePoint, o: StrokeOptions,
    total: int) -> OutlineWalk {
    let size = size_of_options(o);
    let thinning = thinning_of(o);
    let pressure = if thinning > 0 && simulate_of(o) {
        sim_pressure_v(st.prev_pressure, curr.distance.raw as int, size)
    } else {
        curr.pressure.raw as int
    };
    let r0 = radius_at_v(size, thinning, easing_of(o), pressure);
    let fr = if st.first_radius is None {
        Some(r0)
    } else {
        st.first_radius
    };
    let ts = taper_factor_v(start_ease_of(o), curr.running_length.raw as int,
        taper_len_v(o.start, size, total));
    let te = taper_factor_v(end_ease_of(o), total - curr.running_length.raw,
        taper_len_v(o.end, size, total));
    let rr = vstd::math::max(RADIUS_FLOOR_RAW as int, fx_mul_v(r0, vstd::math::min(ts, te)));
    let md = min_distance_v(size, smoothing_of(o));
    let lp = left_offset_v(curr.point, curr.vector, rr);
    let rp = right_offset_v(curr.point, curr.vector, rr);
    let sharp = dpr_v(st.prev_vector.x.raw as int, st.prev_vector.y.raw as int,
        curr.vector.x.raw as int, curr.vector.y.raw as int) < 0;
    if sharp && !st.prev_sharp {
        let keep_l = far_v(lp, st.pl, md);
        let keep_r = far_v(rp, st.pr, md);
        OutlineWalk {
            left: if keep_l {
                st.left.push(lp)
            } else {
                st.left
            },
            right: if keep_r {
                st.right.push(rp)
            } else {
                st.right
            },
            pl: if keep_l {
                lp
            } else {
                st.pl
            },
            pr: if keep_r {
                rp
            } else {
                st.pr
            },
            prev_vector: curr.vector,
            prev_pressure: pressure,
            radius: rr,
            first_radius: fr,
            prev_sharp: sharp,
        }
    } else {
        let tl = left_offset_v(curr.point, st.prev_vector, rr);
        let tr = right_offset_v(curr.point, st.prev_vector, rr);
        let keep_tl = !st.prev_sharp && far_v(st.pl, tl, md);
        let keep_tr = !st.prev_sharp && far_v(st.pr, tr, md);
        let left1 = if keep_tl {
            st.left.push(tl)
        } else {
            st.left
        };
        let pl1 = if keep_tl {
            tl
        } else {
            st.pl
        };
        let right1 = if keep_tr {
            st.right.push(tr)
        } else {
            st.right
        };
        let pr1 = if keep_tr {
            tr
        } else {
            st.pr
        };
        let keep_l = far_v(pl1, lp, md);
        let keep_r = far_v(pr1, rp, md);
        OutlineWalk {
            left: if keep_l {
                left1.push(lp)
            } else {
                left1
            },
            right: if keep_r {
                right1.push(rp)
            } else {
                right1
            },
            pl: if keep_l {
                lp
            } else {
                pl1
            },
            pr: if keep_r {
                rp
            } else {
                pr1
            },
            prev_vector: curr.vector,
            prev_pressure: pressure,
            radius: rr,
            first_radius: fr,
            prev_sharp: sharp,
        }
    }
}

/// The walk's state after the first `i` resampled points: the first
/// point only seeds the state.
#[verifier::opaque]
pub open spec fn outline_walk(points: Seq<StrokePoint>, o: StrokeOptions, i: int) -> OutlineWalk
    decreases i,
{
    if i <= 1 {
        OutlineWalk {
            left: Seq::empty(),
            right: Seq::empty(),
            pl: points[0].point,
            pr: points[0].point,
            prev_vector: points[0].vector,
            prev_pressure: seed_pressure_v(points, size_of_options(o), simulate_of(o),
                vstd::math::min(10, points.len() as int)),
            radius: stroke_radius_v(size_of_options(o), thinning_of(o), points[points.len()
                - 1].pressure.raw as int, easing_of(o)),
            first_radius: None,
            prev_sharp: false,
        }
    } else {
        outline_step(outline_walk(points, o, i - 1), points[i - 1], o, points[points.len()
            - 1].running_length.raw as int)
    }
}

/// The five cap points: `a` rotated around `c` across the arc.
pub open spec fn cap_arc_v(a: Vec2, c: Vec2, rising: bool) -> Seq<Vec2> {
    Seq::new(
        5,
        |k: int|
            Vec2 {
                x: fx_of(rot_x_v(a.x.raw as int, a.y.raw as int, c.x.raw as int,
                    c.y.raw as int, cap_angle(k, rising))),
                y: fx_of(rot_y_v(a.x.raw as int, a.y.raw as int, c.x.raw as int,
                    c.y.raw as int, cap_angle(k, rising))),
            },
    )
}

/// What the outline builder computes, in full: empty on an empty input
/// or a non-positive size; otherwise the start cap (the first point's
/// offsets under the first cached radius, bridged by a falling arc when
/// the stroke has a body), the left offsets forward, the right offsets
/// reversed, the end cap (under the radius floor where an end taper is
/// configured, swept by a rising arc), and a closing copy of the first
/// point when more than one point came out.
#[verifier::opaque]
pub open spec fn outline_points_v(points: Seq<StrokePoint>, o: StrokeOptions) -> Seq<Vec2> {
    let size = size_of_options(o);
    if points.len() == 0 || size <= 0 {
        Seq::empty()
    } else {
        let total = points[points.len() - 1].running_length.raw as int;
        let st = outline_walk(points, o, points.len() as int);
        let fr = match st.first_radius {
            Some(f) => f,
            None => st.radius,
        };
        let start_seq: Seq<Vec2> = if cap_start_of(o) && st.left.len() > 0 {
            let sl = left_offset_v(points[0].point, points[0].vector, fr);
            let sr = right_offset_v(points[0].point, points[0].vector, fr);
            if points.len() > 1 {
                seq![sl] + cap_arc_v(sr, points[0].point, false)
            } else {
                seq![sl, sr]
            }
        } else {
            Seq::empty()
        };
        let last_radius = if points.len() > 1 {
            radius_at_v(size, thinning_of(o), easing_of(o), points[points.len()
                - 1].pressure.raw as int)
        } else {
            fr
        };
        let tapered = if taper_len_v(o.end, size, total) > 0 {
            RADIUS_FLOOR_RAW as int
        } else {
            last_radius
        };
        let end_seq: Seq<Vec2> = if cap_end_of(o) && st.right.len() > 0 {
            if points.len() > 1 {
                cap_arc_v(left_offset_v(points[points.len() - 1].point, points[points.len()
                    - 1].vector, tapered), points[points.len() - 1].point, true)
            } else {
                seq![right_offset_v(points[points.len() - 1].point, points[points.len()
                    - 1].vector, tapered)]
            }
        } else {
            Seq::empty()
        };
        let pre = start_seq + st.left + st.right.reverse() + end_seq;
        if pre.len() > 1 {
            pre + seq![pre[0]]
        } else {
            pre
        }
    }
}

/// Build the outline polygon of a stroke from its resampled points: a
/// left-offset and right-offset curve with sharp corners kept, start and
/// end tapering, optional semicircular end caps, and a closing copy of
/// the first point.
///
/// The result is exactly `outline_points_v`. In particular: an empty or
/// single-point input, or a non-positive size, gives an empty polygon; a
/// polygon of more than one point always closes on its first point; the
/// polygon holds at most four points per input point plus the caps and
/// the closing copy; and every point stays within the outline band.
#[verifier::rlimit(100)]
pub fn get_stroke_outline_points(points: &Vec<StrokePoint>, options: &StrokeOptions) -> (res: Vec<
    Vec2,
>)
    requires
        stroke_points_valid(points@),
        options_valid(*options),
    ensures
        res@ == outline_points_v(points@, *options),
        size_of_options(*options) <= 0 ==> res@.len() == 0,
        points@.len() <= 1 ==> res@.len() == 0,
        res@.len() > 1 ==> res@[0] == res@[res@.len() - 1],
        res@.len() != 2,
        res@.len() <= 4 * points@.len() + 8,
        forall|i: int| 0 <= i < res@.len() ==> vec2_within(#[trigger] res@[i], OUT_RAW_MAX as int),
{
    let size: Fx = fx_or(options.size, DEFAULT_SIZE_RAW);
    let smoothing: Fx = fx_or(options.smoothing, FX_HALF);
    let thinning: Fx = fx_or(options.thinning, FX_HALF);
    let simulate_pressure: bool = bool_or(options.simulate_pressure, true);

    let start_options: TaperOptions = match options.start {
        Some(t) => t,
        None => TaperOptions { cap: None, taper: None, easing: None },
    };
    let end_options: TaperOptions = match options.end {
        Some(t) => t,
        None => TaperOptions { cap: None, taper: None, easing: None },
    };
    let cap_start: bool = bool_or(start_options.cap, true);
    let cap_end: bool = bool_or(end_options.cap, true);
    let taper_start_ease: Easing = match start_options.easing {
        Some(e) => e,
        None => Easing::OutQuad,
    };
    let taper_end_ease: Easing = match end_options.easing {
        Some(e) => e,
        None => Easing::OutCubic,
    };
    proof {
        assert(size.raw as int == size_of_options(*options));
        assert(thinning.raw as int == thinning_of(*options));
        assert(smoothing.raw as int == smoothing_of(*options));
        assert(simulate_pressure == simulate_of(*options));
        assert(cap_start == cap_start_of(*options));
        assert(cap_end == cap_end_of(*options));
        assert(taper_start_ease == start_ease_of(*options));
        assert(taper_end_ease == end_ease_of(*options));
        assert(radius_easing(options.easing) == easing_of(*options));
    }

    if points.is_empty() || size.raw <= 0 {
        let empty: Vec<Vec2> = Vec::new();
        proof {
            assert(empty@ =~= outline_points_v(points@, *options)) by {
                reveal(outline_points_v);
            }
        }
        return empty;
    }

    let n: usize = points.len();
    let total_length: Fx = points[n - 1].running_length;

    proof {
        lemma_fx_mul_units(size.raw as int, smoothing.raw as int, 1024, 4);
    }
    let sized_smoothing: Fx = size.mul(smoothing);
    proof {
        lemma_fx_mul_units(sized_smoothing.raw as int, sized_smoothing.raw as int, 4096, 4096);
        crate::fixed::lemma_iabs_mul(sized_smoothing.raw as int, sized_smoothing.raw as int);
        lemma_tdiv_mag(sized_smoothing.raw as int * sized_smoothing.raw as int, FX_SCALE as int);
        lemma_div_pos_is_pos(iabs(sized_smoothing.raw as int * sized_smoothing.raw as int),
            FX_SCALE as int);
        assert(sized_smoothing.raw as int * sized_smoothing.raw as int >= 0)
            by (nonlinear_arith);
    }
    let min_distance: Fx = sized_smoothing.mul(sized_smoothing);

    let mut left_pts: Vec<Vec2> = Vec::new();
    let mut right_pts: Vec<Vec2> = Vec::new();

    proof {
        assert(stroke_point_valid(points@[0]));
        assert(stroke_point_valid(points@[n - 1]));
    }
    let mut prev_pressure: Fx = seed_pressure(points, size, simulate_pressure);
    let mut radius: Fx = get_stroke_radius(size, thinning, points[n - 1].pressure,
        options.easing);
    let mut first_radius: Option<Fx> = None;
    let mut prev_vector: Vec2 = points[0].vector;
    let mut pl: Vec2 = points[0].point;
    let mut pr: Vec2 = pl;
    let mut tl: Vec2 = pl;
    let mut tr: Vec2 = pr;
    let mut is_prev_sharp_corner: bool = false;

    let taper_start: Fx = taper_length(&options.start, size, total_length);
    let taper_end: Fx = taper_length(&options.end, size, total_length);

    proof {
        let base = outline_walk(points@, *options, 1int);
        assert(left_pts@ == base.left && right_pts@ == base.right && pl == base.pl && pr
            == base.pr && prev_vector == base.prev_vector && prev_pressure.raw as int
            == base.prev_pressure && radius.raw as int == base.radius && opt_raw(first_radius)
            == base.first_radius && is_prev_sharp_corner == base.prev_sharp) by {
            reveal(outline_walk);
        }
    }
    let mut i: usize = 1;
    while i < n
        invariant
            stroke_points_valid(points@),
            n == points@.len(),
            1 <= i <= n,
            0 < size.raw <= SIZE_RAW_MAX,
            fx_within(thinning, THINNING_RAW_MAX as int),
            fx_within(prev_pressure, PRESSURE_RAW_MAX as int),
            fx_within(radius, RADIUS_RAW_MAX as int),
            match first_radius {
                Some(r) => fx_within(r, RADIUS_RAW_MAX as int),
                None => true,
            },
            vec2_within(prev_vector, FX_SCALE as int),
            vec2_within(pl, OUT_RAW_MAX as int),
            vec2_within(pr, OUT_RAW_MAX as int),
            vec2_within(tl, OUT_RAW_MAX as int),
            vec2_within(tr, OUT_RAW_MAX as int),
            0 <= min_distance.raw,
            min_distance.raw <= 0x100_0000_0000,
            total_length.raw == points@[n - 1].running_length.raw,
            n <= 1 ==> left_pts@.len() == 0 && right_pts@.len() == 0,
            forall|k: int|
                0 <= k < left_pts@.len() ==> vec2_within(#[trigger] left_pts@[k],
                    OUT_RAW_MAX as int),
            forall|k: int|
                0 <= k < right_pts@.len() ==> vec2_within(#[trigger] right_pts@[k],
                    OUT_RAW_MAX as int),
            size.raw as int == size_of_options(*options),
            thinning.raw as int == thinning_of(*options),
            simulate_pressure == simulate_of(*options),
            taper_start.raw as int == taper_len_v(options.start, size_of_options(*options),
                total_length.raw as int),
            taper_end.raw as int == taper_len_v(options.end, size_of_options(*options),
                total_length.raw as int),
            taper_start_ease == start_ease_of(*options),
            taper_end_ease == end_ease_of(*options),
            min_distance.raw as int == min_distance_v(size_of_options(*options),
                smoothing_of(*options)),
            left_pts@ == outline_walk(points@, *options, i as int).left,
            right_pts@ == outline_walk(points@, *options, i as int).right,
            pl == outline_walk(points@, *options, i as int).pl,
            pr == outline_walk(points@, *options, i as int).pr,
            prev_vector == outline_walk(points@, *options, i as int).prev_vector,
            prev_pressure.raw as int == outline_walk(points@, *options, i as int).prev_pressure,
            radius.raw as int == outline_walk(points@, *options, i as int).radius,
            opt_raw(first_radius) == outline_walk(points@, *options, i as int).first_radius,
            is_prev_sharp_corner == outline_walk(points@, *options, i as int).prev_sharp,
            left_pts@.len() <= 2 * (i - 1),
            right_pts@.len() <= 2 * (i - 1),
        decreases n - i,
    {
        let ghost pre_walk = outline_walk(points@, *options, i as int);
        let ghost step_walk = outline_step(pre_walk, points@[i as int], *options,
            total_length.raw as int);
        proof {
            assert(outline_walk(points@, *options, i as int + 1) == step_walk) by {
                reveal(outline_walk);
            }
            assert(radius_easing(options.easing) == easing_of(*options));
        }
        let curr: StrokePoint = points[i];
        proof {
            assert(stroke_point_valid(points@[i as int]));
            lemma_running_length_monotone(points@, i as int, n - 1);
        }
        let point: Vec2 = curr.point;
        let vector: Vec2 = curr.vector;
        let distance: Fx = curr.distance;
        let running_length: Fx = curr.running_length;

        // Pressure, simulated from speed where configured.
        let mut pressure: Fx = curr.pressure;
        if thinning.raw > 0 && simulate_pressure {
            pressure = simulate_pressure_step(prev_pressure, distance, size);
        }
        prev_pressure = pressure;
        proof {
            assert(pressure.raw as int == (if thinning_of(*options) > 0 && simulate_of(*options) {
                sim_pressure_v(pre_walk.prev_pressure, curr.distance.raw as int,
                    size_of_options(*options))
            } else {
                curr.pressure.raw as int
            }));
        }

        // Radius from the radius model, or a fixed half size.
        if thinning.raw > 0 {
            radius = get_stroke_radius(size, thinning, pressure, options.easing);
        } else {
            proof {
                lemma_fx_half(size.raw as int);
                lemma_tdiv_mag(size.raw as int, 2);
            }
            radius = size.mul(Fx { raw: FX_HALF });
        }
        let ghost model_radius: int = radius.raw as int;
        proof {
            assert(model_radius == radius_at_v(size_of_options(*options),
                thinning_of(*options), easing_of(*options), pressure.raw as int));
        }
        if first_radius.is_none() {
            first_radius = Some(radius);
        }

        // Taper factors for the two ends.
        let ts: Fx = if running_length.raw < taper_start.raw {
            proof {
                lemma_fx_div_frac(running_length.raw as int, taper_start.raw as int);
            }
            taper_start_ease.ease(running_length.div(taper_start))
        } else {
            Fx { raw: FX_SCALE }
        };
        let remaining: Fx = total_length.sub(running_length);
        let te: Fx = if remaining.raw < taper_end.raw {
            proof {
                lemma_fx_div_frac(remaining.raw as int, taper_end.raw as int);
            }
            taper_end_ease.ease(remaining.div(taper_end))
        } else {
            Fx { raw: FX_SCALE }
        };
        proof {
            assert(ts.raw as int == taper_factor_v(start_ease_of(*options),
                running_length.raw as int, taper_start.raw as int));
            assert(te.raw as int == taper_factor_v(end_ease_of(*options),
                total_length.raw - running_length.raw, taper_end.raw as int));
            lemma_fx_scale_between(radius.raw as int, if ts.raw <= te.raw {
                ts.raw as int
            } else {
                te.raw as int
            });
        }
        radius = Fx { raw: RADIUS_FLOOR_RAW }.max(radius.mul(ts.min(te)));
        proof {
            assert(radius.raw as int == vstd::math::max(RADIUS_FLOOR_RAW as int, fx_mul_v(
                model_radius, vstd::math::min(ts.raw as int, te.raw as int))));
        }

        // Offset candidates on both sides of the current point.
        let normal_vector: Vec2 = crate::vector::per(vector);
        proof {
            lemma_fx_mul_units(normal_vector.x.raw as int, radius.raw as int, 1, 131072);
            lemma_fx_mul_units(normal_vector.y.raw as int, radius.raw as int, 1, 131072);
        }
        let offset_vector: Vec2 = crate::vector::mul(normal_vector, radius);
        let left_point: Vec2 = crate::vector::add(point, offset_vector);
        let right_point: Vec2 = crate::vector::add(point, crate::vector::neg(offset_vector));
        proof {
            assert(left_point == left_offset_v(point, vector, radius.raw as int));
            assert(right_point == right_offset_v(point, vector, radius.raw as int));
        }

        // A corner is sharp when the direction turns by more than a
        // quarter turn.
        proof {
            lemma_fx_mul_units(prev_vector.x.raw as int, vector.x.raw as int, 1, 1);
            lemma_fx_mul_units(prev_vector.y.raw as int, vector.y.raw as int, 1, 1);
        }
        let is_sharp_corner: bool = crate::vector::dpr(prev_vector, vector).raw < 0;

        if is_sharp_corner && !is_prev_sharp_corner {
            // Keep the cusp: append both offsets directly.
            if far_enough(left_point, pl, min_distance) {
                left_pts.push(left_point);
                pl = left_point;
            }
            if far_enough(right_point, pr, min_distance) {
                right_pts.push(right_point);
                pr = right_point;
            }
        } else {
            if !is_prev_sharp_corner {
                // Bridge the curvature with offsets along the previous
                // direction.
                let prev_normal: Vec2 = crate::vector::per(prev_vector);
                proof {
                    lemma_fx_mul_units(prev_normal.x.raw as int, radius.raw as int, 1, 131072);
                    lemma_fx_mul_units(prev_normal.y.raw as int, radius.raw as int, 1, 131072);
                }
                let offset_a: Vec2 = crate::vector::mul(prev_normal, radius);
                tl = crate::vector::add(point, offset_a);
                tr = crate::vector::add(point, crate::vector::neg(offset_a));
                proof {
                    assert(tl == left_offset_v(point, prev_vector, radius.raw as int));
                    assert(tr == right_offset_v(point, prev_vector, radius.raw as int));
                }
                if far_enough(pl, tl, min_distance) {
                    left_pts.push(tl);
                    pl = tl;
                }
                if far_enough(pr, tr, min_distance) {
                    right_pts.push(tr);
                    pr = tr;
                }
            }
            if far_enough(pl, left_point, min_distance) {
                left_pts.push(left_point);
                pl = left_point;
            }
            if far_enough(pr, right_point, min_distance) {
                right_pts.push(right_point);
                pr = right_point;
            }
        }

        prev_vector = vector;
        is_prev_sharp_corner = is_sharp_corner;
        proof {
            assert(left_pts@ == step_walk.left && right_pts@ == step_walk.right && pl
                == step_walk.pl && pr == step_walk.pr && prev_vector == step_walk.prev_vector
                && prev_pressure.raw as int == step_walk.prev_pressure && radius.raw as int
                == step_walk.radius && opt_raw(first_radius) == step_walk.first_radius
                && is_prev_sharp_corner == step_walk.prev_sharp) by {
                reveal(outline_step);
            }
        }
        i += 1;
    }

    let mut result: Vec<Vec2> = Vec::new();

    let ghost final_walk = outline_walk(points@, *options, n as int);
    let ghost frv: int = match final_walk.first_radius {
        Some(f) => f,
        None => final_walk.radius,
    };
    let ghost spec_start: Seq<Vec2> = if cap_start_of(*options) && final_walk.left.len() > 0 {
        if points@.len() > 1 {
            seq![left_offset_v(points@[0].point, points@[0].vector, frv)] + cap_arc_v(
                right_offset_v(points@[0].point, points@[0].vector, frv),
                points@[0].point,
                false,
            )
        } else {
            seq![
                left_offset_v(points@[0].point, points@[0].vector, frv),
                right_offset_v(points@[0].point, points@[0].vector, frv),
            ]
        }
    } else {
        Seq::empty()
    };

    // Start cap: the first point's offsets under the first radius, with
    // a semicircular arc between them when the stroke has a body.
    if cap_start && left_pts.len() > 0 {
        let fr: Fx = match first_radius {
            Some(r) => r,
            None => radius,
        };
        proof {
            assert(fr.raw as int == frv);
        }
        let first_point: Vec2 = points[0].point;
        proof {
            assert(stroke_point_valid(points@[0]));
        }
        let first_normal: Vec2 = crate::vector::per(points[0].vector);
        proof {
            lemma_fx_mul_units(first_normal.x.raw as int, fr.raw as int, 1, 131072);
            lemma_fx_mul_units(first_normal.y.raw as int, fr.raw as int, 1, 131072);
        }
        let offset_vector: Vec2 = crate::vector::mul(first_normal, fr);
        let start_left: Vec2 = crate::vector::add(first_point, offset_vector);
        let start_right: Vec2 = crate::vector::add(first_point, crate::vector::neg(
            offset_vector));
        proof {
            assert(start_left == left_offset_v(points@[0].point, points@[0].vector, frv));
            assert(start_right == right_offset_v(points@[0].point, points@[0].vector, frv));
        }
        result.push(start_left);
        if points.len() > 1 {
            push_cap_arc(&mut result, start_right, first_point, false);
            proof {
                assert forall|j: int| 0 <= j < result@.len() implies result@[j]
                    == spec_start[j] by {
                    if j >= 1 {
                        assert(result@[j].x.raw == rot_x_v(start_right.x.raw as int,
                            start_right.y.raw as int, first_point.x.raw as int,
                            first_point.y.raw as int, cap_angle(j - 1, false)));
                        assert(spec_start[j] == cap_arc_v(start_right, first_point, false)[j
                            - 1]);
                    }
                }
            }
        } else {
            result.push(start_right);
        }
    }
    proof {
        assert(result@ =~= spec_start);
    }

    // Left side forward, then right side reversed.
    let mut li: usize = 0;
    while li < left_pts.len()
        invariant
            0 <= li <= left_pts@.len(),
            result@ == spec_start + left_pts@.subrange(0, li as int),
            forall|k: int|
                0 <= k < left_pts@.len() ==> vec2_within(#[trigger] left_pts@[k],
                    OUT_RAW_MAX as int),
            forall|k: int|
                0 <= k < result@.len() ==> vec2_within(#[trigger] result@[k], OUT_RAW_MAX as int),
        decreases left_pts@.len() - li,
    {
        result.push(left_pts[li]);
        proof {
            assert(result@ =~= spec_start + left_pts@.subrange(0, li as int + 1));
        }
        li += 1;
    }
    proof {
        assert(left_pts@.subrange(0, left_pts@.len() as int) =~= left_pts@);
    }
    let mut ri: usize = right_pts.len();
    while ri > 0
        invariant
            0 <= ri <= right_pts@.len(),
            result@ == spec_start + left_pts@ + right_pts@.subrange(ri as int,
                right_pts@.len() as int).reverse(),
            forall|k: int|
                0 <= k < right_pts@.len() ==> vec2_within(#[trigger] right_pts@[k],
                    OUT_RAW_MAX as int),
            forall|k: int|
                0 <= k < result@.len() ==> vec2_within(#[trigger] result@[k], OUT_RAW_MAX as int),
        decreases ri,
    {
        proof {
            assert(right_pts@.subrange(ri as int, right_pts@.len() as int).reverse().len()
                == right_pts@.len() - ri);
        }
        ri -= 1;
        result.push(right_pts[ri]);
        proof {
            assert(result@ =~= spec_start + left_pts@ + right_pts@.subrange(ri as int,
                right_pts@.len() as int).reverse());
        }
    }
    proof {
        assert(right_pts@.subrange(0, right_pts@.len() as int) =~= right_pts@);
        assert(result@ == spec_start + left_pts@ + right_pts@.reverse());
    }

    // End cap: the last point's offsets, tapered to the floor where an
    // end taper is configured, with an arc when the stroke has a body.
    let ghost last_radius_spec: int = if points@.len() > 1 {
        radius_at_v(size_of_options(*options), thinning_of(*options), easing_of(*options),
            points@[n - 1].pressure.raw as int)
    } else {
        frv
    };
    let ghost tapered_spec: int = if taper_len_v(options.end, size_of_options(*options),
        total_length.raw as int) > 0 {
        RADIUS_FLOOR_RAW as int
    } else {
        last_radius_spec
    };
    let ghost spec_end: Seq<Vec2> = if cap_end_of(*options) && final_walk.right.len() > 0 {
        if points@.len() > 1 {
            cap_arc_v(left_offset_v(points@[n - 1].point, points@[n - 1].vector, tapered_spec),
                points@[n - 1].point, true)
        } else {
            seq![right_offset_v(points@[n - 1].point, points@[n - 1].vector, tapered_spec)]
        }
    } else {
        Seq::empty()
    };
    let ghost before_end: Seq<Vec2> = result@;
    if cap_end && right_pts.len() > 0 {
        let last_point: Vec2 = points[n - 1].point;
        let last_vector: Vec2 = points[n - 1].vector;
        proof {
            assert(stroke_point_valid(points@[n - 1]));
        }
        let last_normal: Vec2 = crate::vector::per(last_vector);
        let last_radius: Fx = if points.len() > 1 {
            if thinning.raw > 0 {
                get_stroke_radius(size, thinning, points[n - 1].pressure, options.easing)
            } else {
                proof {
                    lemma_fx_half(size.raw as int);
                    lemma_tdiv_mag(size.raw as int, 2);
                }
                size.mul(Fx { raw: FX_HALF })
            }
        } else {
            match first_radius {
                Some(r) => r,
                None => radius,
            }
        };
        proof {
            assert(radius_easing(options.easing) == easing_of(*options));
            assert(last_radius.raw as int == last_radius_spec);
        }
        let tapered_radius: Fx = if taper_end.raw > 0 {
            Fx { raw: RADIUS_FLOOR_RAW }
        } else {
            last_radius
        };
        proof {
            assert(tapered_radius.raw as int == tapered_spec);
            lemma_fx_mul_units(last_normal.x.raw as int, tapered_radius.raw as int, 1, 131072);
            lemma_fx_mul_units(last_normal.y.raw as int, tapered_radius.raw as int, 1, 131072);
        }
        let offset_vector: Vec2 = crate::vector::mul(last_normal, tapered_radius);
        let end_left: Vec2 = crate::vector::add(last_point, offset_vector);
        let end_right: Vec2 = crate::vector::add(last_point, crate::vector::neg(offset_vector));
        proof {
            assert(end_left == left_offset_v(points@[n - 1].point, points@[n - 1].vector,
                tapered_spec));
            assert(end_right == right_offset_v(points@[n - 1].point, points@[n - 1].vector,
                tapered_spec));
        }
        if points.len() > 1 {
            push_cap_arc(&mut result, end_left, last_point, true);
            proof {
                assert forall|j: int| 0 <= j < 5 implies result@[before_end.len() + j]
                    == spec_end[j] by {
                    assert(result@[before_end.len() + j].x.raw == rot_x_v(
                        end_left.x.raw as int, end_left.y.raw as int, last_point.x.raw as int,
                        last_point.y.raw as int, cap_angle(j, true)));
                }
            }
        } else {
            result.push(end_right);
        }
    }
    proof {
        assert(result@ =~= before_end + spec_end);
    }

    // Close the loop.
    let ghost pre: Seq<Vec2> = spec_start + left_pts@ + right_pts@.reverse() + spec_end;
    proof {
        assert(result@ =~= pre);
    }
    if result.len() > 1 {
        let head: Vec2 = result[0];
        result.push(head);
        proof {
            assert(result@ =~= pre + seq![pre[0]]);
        }
    }
    proof {
        assert(outline_points_v(points@, *options) == (if pre.len() > 1 {
            pre + seq![pre[0]]
        } else {
            pre
        })) by {
            reveal(outline_points_v);
        }
    }

    result
}

/// Whether a candidate offset point sits farther from the reference
/// point than the squared minimum distance.
fn far_enough(a: Vec2, b: Vec2, min_distance: Fx) -> (r: bool)
    requires
        vec2_within(a, OUT_RAW_MAX as int),
        vec2_within(b, OUT_RAW_MAX as int),
    ensures
        r == (len2_v(a.x.raw - b.x.raw, a.y.raw - b.y.raw) > min_distance.raw),
{
    proof {
        lemma_fx_mul_units(a.x.raw - b.x.raw, a.x.raw - b.x.raw, 4194304, 4194304);
        lemma_fx_mul_units(a.y.raw - b.y.raw, a.y.raw - b.y.raw, 4194304, 4194304);
    }
    let d2: Fx = crate::vector::dist2(a, b);
    d2.raw > min_distance.raw
}

} // verus!

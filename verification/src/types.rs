use vstd::prelude::*;
use crate::fixed::{Fx, FX_SCALE, FX_HALF, fx_mul_v, iabs, lemma_fx_mul_units, lemma_tdiv_mag};
use crate::vector::Vec2;
use vstd::arithmetic::div_mod::*;

verus! {

/// Largest raw coordinate the pipeline accepts: about a million units.
pub const COORD_RAW_MAX: i64 = 0x10_0000_0000;

/// Largest raw stroke size (diameter) the pipeline accepts: 1024 units.
pub const SIZE_RAW_MAX: i64 = 0x400_0000;

/// Largest raw thinning magnitude the pipeline accepts: one.
pub const THINNING_RAW_MAX: i64 = 65536;

/// Largest raw pressure magnitude the pipeline accepts: two.
pub const PRESSURE_RAW_MAX: i64 = 131072;

/// Largest raw smoothing magnitude the pipeline accepts: four.
pub const SMOOTHING_RAW_MAX: i64 = 262144;

/// Largest raw taper length magnitude the pipeline accepts.
pub const TAPER_RAW_MAX: i64 = 0x10_0000_0000;

/// Largest number of input samples one stroke may hold.
pub const MAX_POINTS: usize = 0x10_0000;

/// Largest raw coordinate of a resampled point: the input band plus the
/// one-unit offset a lone sample gains.
pub const POINT_RAW_MAX: i64 = 0x10_0001_0000;

/// Largest raw distance between two in-range points.
pub const DIST_RAW_MAX: i64 = 0x40_0000_0000;

/// Largest raw running length over a full stroke.
pub const RL_RAW_MAX: i64 = 0x400_0000_0000_0000;

/// Largest raw coordinate an outline point can reach: a resampled point
/// plus cap and offset headroom.
pub const OUT_RAW_MAX: i64 = 0x20_0000_0000;

/// Largest raw easing argument the curves accept: four units.
pub const EASE_ARG_RAW_MAX: i64 = 262144;

/// Largest raw easing result over that argument range.
pub const EASE_OUT_RAW_MAX: i64 = 0x80_0000;

/// Largest raw radius the radius model can produce on in-range inputs.
pub const RADIUS_RAW_MAX: i64 = 0x2_0000_0000;

/// A raw value within a symmetric band.
pub open spec fn fx_within(v: Fx, m: int) -> bool {
    -m <= v.raw <= m
}

/// Both components of a vector within a symmetric band.
pub open spec fn vec2_within(v: Vec2, m: int) -> bool {
    fx_within(v.x, m) && fx_within(v.y, m)
}

/// The easing curves a configuration can pick. Each maps `[0, 1]` into
/// `[0, 1]` and is monotone there.
#[derive(Clone, Copy, Debug, PartialEq, Eq, Structural)]
pub enum Easing {
    /// The identity: `t`.
    Identity,
    /// Quadratic ease-out: `t * (2 - t)`.
    OutQuad,
    /// Cubic ease-out: `1 - (1 - t)^3`.
    OutCubic,
    /// A quadratic ease-in: `t * t`.
    Square,
}

/// What each easing curve computes, on raw values.
pub open spec fn ease_v(e: Easing, t: int) -> int {
    match e {
        Easing::Identity => t,
        Easing::OutQuad => fx_mul_v(t, 2 * FX_SCALE - t),
        Easing::OutCubic => FX_SCALE - fx_mul_v(
            fx_mul_v(FX_SCALE - t, FX_SCALE - t),
            FX_SCALE - t,
        ),
        Easing::Square => fx_mul_v(t, t),
    }
}

impl Easing {
    /// Apply the curve.
    pub fn ease(self, t: Fx) -> (r: Fx)
        requires
            fx_within(t, EASE_ARG_RAW_MAX as int),
        ensures
            r.raw == ease_v(self, t.raw as int),
            fx_within(r, EASE_OUT_RAW_MAX as int),
            0 <= t.raw <= FX_SCALE ==> 0 <= r.raw <= FX_SCALE,
    {
        proof {
            lemma_ease_bounds(self, t.raw as int);
        }
        match self {
            Easing::Identity => t,
            Easing::OutQuad => t.mul(Fx { raw: 2 * FX_SCALE }.sub(t)),
            Easing::OutCubic => {
                let u: Fx = Fx { raw: FX_SCALE }.sub(t);
                Fx { raw: FX_SCALE }.sub(u.mul(u).mul(u))
            },
            Easing::Square => t.mul(t),
        }
    }
}

/// Every easing curve is bounded on the accepted band and maps the unit
/// interval into itself.
proof fn lemma_ease_bounds(e: Easing, t: int)
    requires
        -(EASE_ARG_RAW_MAX as int) <= t <= EASE_ARG_RAW_MAX as int,
    ensures
        iabs(ease_v(e, t)) <= EASE_OUT_RAW_MAX as int,
        0 <= t <= FX_SCALE as int ==> 0 <= ease_v(e, t) <= FX_SCALE as int,
        iabs(fx_mul_v(t, 2 * FX_SCALE - t)) <= i64::MAX as int,
        iabs(fx_mul_v(FX_SCALE - t, FX_SCALE - t)) <= i64::MAX as int,
        iabs(fx_mul_v(fx_mul_v(FX_SCALE - t, FX_SCALE - t), FX_SCALE - t)) <= i64::MAX as int,
        iabs(fx_mul_v(t, t)) <= i64::MAX as int,
{
    let s = FX_SCALE as int;
    lemma_fx_mul_units(t, 2 * s - t, 4, 6);
    lemma_fx_mul_units(s - t, s - t, 5, 5);
    lemma_fx_mul_units(fx_mul_v(s - t, s - t), s - t, 25, 5);
    lemma_fx_mul_units(t, t, 4, 4);
    if 0 <= t <= s {
        lemma_ease_unit(e, t);
    }
}

/// On `[0, 1]` every easing curve stays in `[0, 1]`.
proof fn lemma_ease_unit(e: Easing, t: int)
    requires
        0 <= t <= FX_SCALE as int,
    ensures
        0 <= ease_v(e, t) <= FX_SCALE as int,
{
    let s = FX_SCALE as int;
    assert(0 <= t * (2 * s - t) <= s * s) by (nonlinear_arith)
        requires
            0 <= t <= s,
    ;
    lemma_unit_product(t * (2 * s - t));
    assert(0 <= (s - t) * (s - t) <= s * s) by (nonlinear_arith)
        requires
            0 <= t <= s,
    ;
    lemma_unit_product((s - t) * (s - t));
    let m1 = fx_mul_v(s - t, s - t);
    assert(0 <= m1 * (s - t) <= s * s) by (nonlinear_arith)
        requires
            0 <= m1 <= s,
            0 <= s - t <= s,
    ;
    lemma_unit_product(m1 * (s - t));
    assert(0 <= t * t <= s * s) by (nonlinear_arith)
        requires
            0 <= t <= s,
    ;
    lemma_unit_product(t * t);
}

/// Every easing curve is monotone on the unit interval: more pressure
/// (or more progress along a taper) never eases to a smaller value.
pub proof fn lemma_ease_monotone(e: Easing, t1: int, t2: int)
    requires
        0 <= t1 <= t2 <= FX_SCALE as int,
    ensures
        ease_v(e, t1) <= ease_v(e, t2),
{
    let s = FX_SCALE as int;
    match e {
        Easing::Identity => {},
        Easing::OutQuad => {
            assert(0 <= t1 * (2 * s - t1) <= t2 * (2 * s - t2)) by (nonlinear_arith)
                requires
                    0 <= t1 <= t2 <= s,
            ;
            lemma_tdiv_pair_ordered(t1 * (2 * s - t1), t2 * (2 * s - t2));
        },
        Easing::OutCubic => {
            let u1 = s - t2;
            let u2 = s - t1;
            assert(0 <= u1 * u1 <= u2 * u2) by (nonlinear_arith)
                requires
                    0 <= u1 <= u2,
            ;
            lemma_tdiv_pair_ordered(u1 * u1, u2 * u2);
            let m1 = fx_mul_v(u1, u1);
            let m2 = fx_mul_v(u2, u2);
            assert(0 <= m1 * u1 <= m2 * u2) by (nonlinear_arith)
                requires
                    0 <= m1 <= m2,
                    0 <= u1 <= u2,
            ;
            lemma_tdiv_pair_ordered(m1 * u1, m2 * u2);
        },
        Easing::Square => {
            assert(0 <= t1 * t1 <= t2 * t2) by (nonlinear_arith)
                requires
                    0 <= t1 <= t2,
            ;
            lemma_tdiv_pair_ordered(t1 * t1, t2 * t2);
        },
    }
}

/// Ordered nonnegative raw products scale back in order.
proof fn lemma_tdiv_pair_ordered(p1: int, p2: int)
    requires
        0 <= p1 <= p2,
    ensures
        0 <= crate::fixed::tdiv(p1, FX_SCALE as int) <= crate::fixed::tdiv(p2, FX_SCALE as int),
        crate::fixed::tdiv(p1, FX_SCALE as int) == p1 / (FX_SCALE as int),
        crate::fixed::tdiv(p2, FX_SCALE as int) == p2 / (FX_SCALE as int),
{
    lemma_tdiv_mag(p1, FX_SCALE as int);
    lemma_tdiv_mag(p2, FX_SCALE as int);
    lemma_div_pos_is_pos(p1, FX_SCALE as int);
    lemma_div_is_ordered(p1, p2, FX_SCALE as int);
}

/// A raw product in `[0, FX_SCALE^2]` scales back into `[0, FX_SCALE]`.
proof fn lemma_unit_product(p: int)
    requires
        0 <= p <= (FX_SCALE as int) * (FX_SCALE as int),
    ensures
        0 <= crate::fixed::tdiv(p, FX_SCALE as int) <= FX_SCALE as int,
        crate::fixed::tdiv(p, FX_SCALE as int) == p / (FX_SCALE as int),
{
    lemma_tdiv_mag(p, FX_SCALE as int);
    lemma_div_pos_is_pos(p, FX_SCALE as int);
    lemma_div_is_ordered(p, (FX_SCALE as int) * (FX_SCALE as int), FX_SCALE as int);
    lemma_div_by_multiple(FX_SCALE as int, FX_SCALE as int);
}

/// A taper setting: switched off or on with an automatic length
/// (`Bool`), or an explicit length in distance units (`Number`).
#[derive(Clone, Copy, Debug)]
pub enum TaperType {
    Bool(bool),
    Number(Fx),
}

/// Cap, taper and easing for one end of the stroke.
#[derive(Clone, Copy, Debug)]
pub struct TaperOptions {
    pub cap: Option<bool>,
    pub taper: Option<TaperType>,
    pub easing: Option<Easing>,
}

impl Default for TaperOptions {
    /// All fields unset.
    fn default() -> (d: Self)
        ensures
            d.cap.is_none(),
            d.taper.is_none(),
            d.easing.is_none(),
    {
        TaperOptions { cap: None, taper: None, easing: None }
    }
}

/// The options for stroke generation. Every field is optional; the
/// pipeline fills in the documented default where a field is unset.
#[derive(Clone, Copy, Debug)]
pub struct StrokeOptions {
    pub size: Option<Fx>,
    pub thinning: Option<Fx>,
    pub smoothing: Option<Fx>,
    pub streamline: Option<Fx>,
    pub easing: Option<Easing>,
    pub simulate_pressure: Option<bool>,
    pub start: Option<TaperOptions>,
    pub end: Option<TaperOptions>,
    pub last: Option<bool>,
}

impl Default for StrokeOptions {
    /// All fields unset.
    fn default() -> (d: Self)
        ensures
            d.size.is_none(),
            d.thinning.is_none(),
            d.smoothing.is_none(),
            d.streamline.is_none(),
            d.easing.is_none(),
            d.simulate_pressure.is_none(),
            d.start.is_none(),
            d.end.is_none(),
            d.last.is_none(),
    {
        StrokeOptions {
            size: None,
            thinning: None,
            smoothing: None,
            streamline: None,
            easing: None,
            simulate_pressure: None,
            start: None,
            end: None,
            last: None,
        }
    }
}

/// An input sample: a position with optional pressure, given either as
/// a coordinate pair or as a labeled record.
#[derive(Clone, Copy, Debug)]
pub enum InputPoint {
    Array(Vec2, Option<Fx>),
    Struct { x: Fx, y: Fx, pressure: Option<Fx> },
}

/// One resampled point: position, pressure, unit travel vector from the
/// previous point, distance from it, and cumulative arc length.
#[derive(Clone, Copy, Debug, PartialEq, Eq, Structural)]
pub struct StrokePoint {
    pub point: Vec2,
    pub pressure: Fx,
    pub vector: Vec2,
    pub distance: Fx,
    pub running_length: Fx,
}

/// The position an input sample carries.
pub open spec fn input_pos(p: InputPoint) -> Vec2 {
    match p {
        InputPoint::Array(v, _) => v,
        InputPoint::Struct { x, y, pressure: _ } => Vec2 { x: x, y: y },
    }
}

/// The pressure an input sample carries, with the one-half default.
pub open spec fn input_pressure(p: InputPoint) -> Fx {
    let given = match p {
        InputPoint::Array(_, pr) => pr,
        InputPoint::Struct { x: _, y: _, pressure: pr } => pr,
    };
    match given {
        Some(v) => v,
        None => Fx { raw: FX_HALF },
    }
}

/// An input sample within the coordinate and pressure bands.
pub open spec fn input_valid(p: InputPoint) -> bool {
    vec2_within(input_pos(p), COORD_RAW_MAX as int) && fx_within(
        input_pressure(p),
        PRESSURE_RAW_MAX as int,
    )
}

/// A whole input sequence within bounds and of an accepted length.
pub open spec fn inputs_valid(s: Seq<InputPoint>) -> bool {
    s.len() <= MAX_POINTS && forall|i: int| 0 <= i < s.len() ==> input_valid(s[i])
}

/// One resampled point within the bands the outline stage needs.
pub open spec fn stroke_point_valid(p: StrokePoint) -> bool {
    &&& vec2_within(p.point, POINT_RAW_MAX as int)
    &&& fx_within(p.pressure, PRESSURE_RAW_MAX as int)
    &&& vec2_within(p.vector, FX_SCALE as int)
    &&& 0 <= p.distance.raw <= DIST_RAW_MAX
    &&& 0 <= p.running_length.raw <= RL_RAW_MAX
}

/// A resampled sequence within bounds, with arc length non-decreasing
/// from each point to the next.
pub open spec fn stroke_points_valid(s: Seq<StrokePoint>) -> bool {
    &&& forall|i: int| 0 <= i < s.len() ==> stroke_point_valid(#[trigger] s[i])
    &&& forall|i: int|
        0 <= i < s.len() - 1 ==> (#[trigger] s[i].running_length.raw)
            <= s[i + 1].running_length.raw
}

/// Arc length is non-decreasing across any span of a valid resampled
/// sequence, not only between neighbours.
pub proof fn lemma_running_length_monotone(s: Seq<StrokePoint>, i: int, j: int)
    requires
        stroke_points_valid(s),
        0 <= i <= j < s.len(),
    ensures
        s[i].running_length.raw <= s[j].running_length.raw,
    decreases j - i,
{
    if i < j {
        lemma_running_length_monotone(s, i + 1, j);
    }
}

/// The base size a configuration without one gets: sixteen units.
pub const DEFAULT_SIZE_RAW: i64 = 1048576;

/// The raw stroke size a configuration names, with its default.
pub open spec fn size_of_options(o: StrokeOptions) -> int {
    match o.size {
        Some(v) => v.raw as int,
        None => DEFAULT_SIZE_RAW as int,
    }
}

/// The raw thinning factor a configuration names, with its default.
pub open spec fn thinning_of(o: StrokeOptions) -> int {
    match o.thinning {
        Some(v) => v.raw as int,
        None => FX_HALF as int,
    }
}

/// The raw smoothing factor a configuration names, with its default.
pub open spec fn smoothing_of(o: StrokeOptions) -> int {
    match o.smoothing {
        Some(v) => v.raw as int,
        None => FX_HALF as int,
    }
}

/// The raw streamline factor a configuration names, with its default.
pub open spec fn streamline_of(o: StrokeOptions) -> int {
    match o.streamline {
        Some(v) => v.raw as int,
        None => FX_HALF as int,
    }
}

/// Whether pressure is simulated, with its default.
pub open spec fn simulate_of(o: StrokeOptions) -> bool {
    match o.simulate_pressure {
        Some(v) => v,
        None => true,
    }
}

/// Whether the final sample ends a completed stroke, with its default.
pub open spec fn last_of(o: StrokeOptions) -> bool {
    match o.last {
        Some(v) => v,
        None => false,
    }
}

/// The pressure easing a configuration names, with its default.
pub open spec fn easing_of(o: StrokeOptions) -> Easing {
    match o.easing {
        Some(e) => e,
        None => Easing::Identity,
    }
}

/// Whether the start cap is drawn, with its default.
pub open spec fn cap_start_of(o: StrokeOptions) -> bool {
    match o.start {
        Some(t) => match t.cap {
            Some(c) => c,
            None => true,
        },
        None => true,
    }
}

/// Whether the end cap is drawn, with its default.
pub open spec fn cap_end_of(o: StrokeOptions) -> bool {
    match o.end {
        Some(t) => match t.cap {
            Some(c) => c,
            None => true,
        },
        None => true,
    }
}

/// The start-taper easing, with its default.
pub open spec fn start_ease_of(o: StrokeOptions) -> Easing {
    match o.start {
        Some(t) => match t.easing {
            Some(e) => e,
            None => Easing::OutQuad,
        },
        None => Easing::OutQuad,
    }
}

/// The end-taper easing, with its default.
pub open spec fn end_ease_of(o: StrokeOptions) -> Easing {
    match o.end {
        Some(t) => match t.easing {
            Some(e) => e,
            None => Easing::OutCubic,
        },
        None => Easing::OutCubic,
    }
}

/// The raw taper length one end asks for: zero when off, the larger of
/// size and total length when automatic, the named length otherwise.
pub open spec fn taper_len_v(t: Option<TaperOptions>, size: int, total: int) -> int {
    match t {
        Some(to) => match to.taper {
            Some(TaperType::Bool(false)) => 0int,
            Some(TaperType::Bool(true)) => vstd::math::max(size, total),
            Some(TaperType::Number(v)) => v.raw as int,
            None => 0int,
        },
        None => 0int,
    }
}

/// The given number, or the default where none is given.
pub fn fx_or(o: Option<Fx>, d: i64) -> (r: Fx)
    ensures
        r.raw == match o {
            Some(v) => v.raw as int,
            None => d as int,
        },
{
    match o {
        Some(v) => v,
        None => Fx { raw: d },
    }
}

/// The given flag, or the default where none is given.
pub fn bool_or(o: Option<bool>, d: bool) -> (r: bool)
    ensures
        r == match o {
            Some(v) => v,
            None => d,
        },
{
    match o {
        Some(v) => v,
        None => d,
    }
}

/// A taper length within the accepted band.
pub open spec fn taper_opts_valid(t: TaperOptions) -> bool {
    match t.taper {
        Some(TaperType::Number(v)) => fx_within(v, TAPER_RAW_MAX as int),
        _ => true,
    }
}

/// A configuration whose numeric fields sit within the accepted bands.
pub open spec fn options_valid(o: StrokeOptions) -> bool {
    &&& match o.size {
        Some(v) => fx_within(v, SIZE_RAW_MAX as int),
        None => true,
    }
    &&& match o.thinning {
        Some(v) => fx_within(v, THINNING_RAW_MAX as int),
        None => true,
    }
    &&& match o.smoothing {
        Some(v) => fx_within(v, SMOOTHING_RAW_MAX as int),
        None => true,
    }
    &&& match o.streamline {
        Some(v) => 0 <= v.raw <= FX_SCALE,
        None => true,
    }
    &&& match o.start {
        Some(t) => taper_opts_valid(t),
        None => true,
    }
    &&& match o.end {
        Some(t) => taper_opts_valid(t),
        None => true,
    }
}

} // verus!

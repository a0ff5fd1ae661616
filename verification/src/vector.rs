use vstd::prelude::*;
use crate::fixed::{Fx, FX_SCALE, FX_HALF, fx_mul_v, fx_div_v, fx_sqrt, iabs, lemma_fx_mul_mag,
    lemma_fx_div_unit, lemma_tdiv_mag, isqrt_u128};
use vstd::arithmetic::div_mod::*;

verus! {

/// A point or direction in the plane.
#[derive(Clone, Copy, Debug, PartialEq, Eq, Structural)]
pub struct Vec2 {
    pub x: Fx,
    pub y: Fx,
}

/// Fixed-point value of pi.
pub const PI_FX: i64 = 205887;

/// Fixed-point value of pi squared (`fx_mul_v(PI_FX, PI_FX)`).
pub const PI2_FX: i64 = 646811;

/// Fixed-point value of half pi.
pub const PI_HALF_FX: i64 = 102943;

/// Angles accepted by the trigonometric helpers: a half turn and a hair more.
pub const ANGLE_MAX: i64 = 205952;

/// Raw coordinate magnitude accepted by the length and distance helpers.
pub const GEOM_RAW_MAX: i64 = 0x4000_0000_0000;

/// Raw length of the vector `(x, y)`: the integer square root of the
/// sum of the squared raw components.
pub open spec fn len_v(x: int, y: int) -> int {
    fx_sqrt(x * x + y * y)
}

/// Raw squared length under fixed-point products.
pub open spec fn len2_v(x: int, y: int) -> int {
    fx_mul_v(x, x) + fx_mul_v(y, y)
}

/// Raw dot product under fixed-point products.
pub open spec fn dpr_v(ax: int, ay: int, bx: int, by: int) -> int {
    fx_mul_v(ax, bx) + fx_mul_v(ay, by)
}

/// Raw linear interpolation from `a` toward `b` by factor `t`.
pub open spec fn lerp_v(a: int, b: int, t: int) -> int {
    a + fx_mul_v(b - a, t)
}

/// Interpolation by a factor in `[0, 1]` stays between its endpoints,
/// so it stays within any band that holds both.
pub proof fn lemma_lerp_in_band(a: int, b: int, t: int, m: int)
    requires
        0 <= t <= FX_SCALE as int,
        iabs(a) <= m,
        iabs(b) <= m,
    ensures
        iabs(lerp_v(a, b, t)) <= m,
        iabs(fx_mul_v(b - a, t)) <= iabs(b - a),
{
    crate::fixed::lemma_fx_scale_between(b - a, t);
}

/// The sine approximation used throughout: Bhaskara's rational formula
/// over `[0, pi]`, written on raw values.
pub open spec fn sin_v(x: int) -> int {
    let n1 = fx_mul_v(x, PI_FX - x);
    fx_div_v(16 * n1, 5 * PI2_FX - 4 * n1)
}

/// The cosine that matches `sin_v`: a quarter-turn shift.
pub open spec fn cos_v(x: int) -> int {
    if x <= PI_HALF_FX {
        sin_v(PI_HALF_FX - x)
    } else {
        -sin_v(x - PI_HALF_FX)
    }
}

/// Negate a vector.
pub fn neg(a: Vec2) -> (r: Vec2)
    requires
        a.x.raw > i64::MIN,
        a.y.raw > i64::MIN,
    ensures
        r.x.raw == -a.x.raw,
        r.y.raw == -a.y.raw,
{
    Vec2 { x: a.x.neg(), y: a.y.neg() }
}

/// Add vectors.
pub fn add(a: Vec2, b: Vec2) -> (r: Vec2)
    requires
        i64::MIN <= a.x.raw + b.x.raw <= i64::MAX,
        i64::MIN <= a.y.raw + b.y.raw <= i64::MAX,
    ensures
        r.x.raw == a.x.raw + b.x.raw,
        r.y.raw == a.y.raw + b.y.raw,
{
    Vec2 { x: a.x.add(b.x), y: a.y.add(b.y) }
}

/// Subtract vectors.
pub fn sub(a: Vec2, b: Vec2) -> (r: Vec2)
    requires
        i64::MIN <= a.x.raw - b.x.raw <= i64::MAX,
        i64::MIN <= a.y.raw - b.y.raw <= i64::MAX,
    ensures
        r.x.raw == a.x.raw - b.x.raw,
        r.y.raw == a.y.raw - b.y.raw,
{
    Vec2 { x: a.x.sub(b.x), y: a.y.sub(b.y) }
}

/// Scale a vector by a scalar.
pub fn mul(a: Vec2, n: Fx) -> (r: Vec2)
    requires
        -(i64::MAX as int) <= fx_mul_v(a.x.raw as int, n.raw as int) <= i64::MAX as int,
        -(i64::MAX as int) <= fx_mul_v(a.y.raw as int, n.raw as int) <= i64::MAX as int,
    ensures
        r.x.raw == fx_mul_v(a.x.raw as int, n.raw as int),
        r.y.raw == fx_mul_v(a.y.raw as int, n.raw as int),
{
    Vec2 { x: a.x.mul(n), y: a.y.mul(n) }
}

/// Divide a vector by a scalar.
pub fn div(a: Vec2, n: Fx) -> (r: Vec2)
    requires
        n.raw != 0,
        -(i64::MAX as int) <= fx_div_v(a.x.raw as int, n.raw as int) <= i64::MAX as int,
        -(i64::MAX as int) <= fx_div_v(a.y.raw as int, n.raw as int) <= i64::MAX as int,
    ensures
        r.x.raw == fx_div_v(a.x.raw as int, n.raw as int),
        r.y.raw == fx_div_v(a.y.raw as int, n.raw as int),
{
    Vec2 { x: a.x.div(n), y: a.y.div(n) }
}

/// Rotate a vector a quarter turn clockwise.
pub fn per(a: Vec2) -> (r: Vec2)
    requires
        a.x.raw > i64::MIN,
    ensures
        r.x.raw == a.y.raw,
        r.y.raw == -a.x.raw,
{
    Vec2 { x: a.y, y: a.x.neg() }
}

/// Dot product.
pub fn dpr(a: Vec2, b: Vec2) -> (r: Fx)
    requires
        -(i64::MAX as int) <= fx_mul_v(a.x.raw as int, b.x.raw as int) <= i64::MAX as int,
        -(i64::MAX as int) <= fx_mul_v(a.y.raw as int, b.y.raw as int) <= i64::MAX as int,
        i64::MIN <= dpr_v(a.x.raw as int, a.y.raw as int, b.x.raw as int, b.y.raw as int)
            <= i64::MAX,
    ensures
        r.raw == dpr_v(a.x.raw as int, a.y.raw as int, b.x.raw as int, b.y.raw as int),
{
    a.x.mul(b.x).add(a.y.mul(b.y))
}

/// Whether two vectors are equal.
pub fn is_equal(a: Vec2, b: Vec2) -> (r: bool)
    ensures
        r == (a.x.raw == b.x.raw && a.y.raw == b.y.raw),
{
    a.x.raw == b.x.raw && a.y.raw == b.y.raw
}

/// Raw squared magnitude of the pair `(xr, yr)`, exact in wide arithmetic.
fn raw_sq_sum(xr: i64, yr: i64) -> (s: u128)
    ensures
        s == (xr as int) * (xr as int) + (yr as int) * (yr as int),
{
    let xm: u128 = if xr >= 0 {
        xr as u128
    } else {
        (-(xr as i128)) as u128
    };
    let ym: u128 = if yr >= 0 {
        yr as u128
    } else {
        (-(yr as i128)) as u128
    };
    proof {
        assert(xm * xm == (xr as int) * (xr as int)) by (nonlinear_arith)
            requires
                xm == iabs(xr as int),
        ;
        assert(ym * ym == (yr as int) * (yr as int)) by (nonlinear_arith)
            requires
                ym == iabs(yr as int),
        ;
        assert(xm * xm <= 0x8000_0000_0000_0000u128 as int * 0x8000_0000_0000_0000u128 as int)
            by (nonlinear_arith)
            requires
                0 <= xm <= 0x8000_0000_0000_0000u128 as int,
        ;
        assert(ym * ym <= 0x8000_0000_0000_0000u128 as int * 0x8000_0000_0000_0000u128 as int)
            by (nonlinear_arith)
            requires
                0 <= ym <= 0x8000_0000_0000_0000u128 as int,
        ;
    }
    xm * xm + ym * ym
}

/// Floor square root of a raw squared sum, fitted back into an `i64`.
fn raw_len(xr: i64, yr: i64) -> (r: i64)
    requires
        -GEOM_RAW_MAX <= xr <= GEOM_RAW_MAX,
        -GEOM_RAW_MAX <= yr <= GEOM_RAW_MAX,
    ensures
        r == len_v(xr as int, yr as int),
        0 <= r <= 0x8000_0000_0000,
        (xr != 0 || yr != 0) ==> r >= 1,
        (r as int) * (r as int) <= (xr as int) * (xr as int) + (yr as int) * (yr as int),
        (xr as int) * (xr as int) + (yr as int) * (yr as int) < (r + 1) * (r + 1),
{
    let s: u128 = raw_sq_sum(xr, yr);
    let q: u128 = isqrt_u128(s);
    proof {
        assert(s <= 2 * (GEOM_RAW_MAX as int) * (GEOM_RAW_MAX as int)) by (nonlinear_arith)
            requires
                s == (xr as int) * (xr as int) + (yr as int) * (yr as int),
                -GEOM_RAW_MAX <= xr <= GEOM_RAW_MAX,
                -GEOM_RAW_MAX <= yr <= GEOM_RAW_MAX,
        ;
        assert(q <= 0x8000_0000_0000) by (nonlinear_arith)
            requires
                (q as int) * (q as int) <= s,
                s <= 2 * (GEOM_RAW_MAX as int) * (GEOM_RAW_MAX as int),
                GEOM_RAW_MAX == 0x4000_0000_0000,
                q >= 0,
        ;
        if xr != 0 || yr != 0 {
            assert(s >= 1) by (nonlinear_arith)
                requires
                    s == (xr as int) * (xr as int) + (yr as int) * (yr as int),
                    xr != 0 || yr != 0,
            ;
            assert(q >= 1) by (nonlinear_arith)
                requires
                    (s as int) < (q + 1) * (q + 1),
                    s >= 1,
                    q >= 0,
            ;
        }
    }
    q as i64
}

/// Length of a vector.
pub fn len(a: Vec2) -> (r: Fx)
    requires
        -GEOM_RAW_MAX <= a.x.raw <= GEOM_RAW_MAX,
        -GEOM_RAW_MAX <= a.y.raw <= GEOM_RAW_MAX,
    ensures
        r.raw == len_v(a.x.raw as int, a.y.raw as int),
        0 <= r.raw <= 0x8000_0000_0000,
        (a.x.raw != 0 || a.y.raw != 0) ==> r.raw >= 1,
        (r.raw as int) * (r.raw as int) <= (a.x.raw as int) * (a.x.raw as int) + (a.y.raw as int)
            * (a.y.raw as int),
        (a.x.raw as int) * (a.x.raw as int) + (a.y.raw as int) * (a.y.raw as int) < (r.raw + 1)
            * (r.raw + 1),
{
    Fx { raw: raw_len(a.x.raw, a.y.raw) }
}

/// Squared length of a vector under fixed-point products.
pub fn len2(a: Vec2) -> (r: Fx)
    requires
        -(i64::MAX as int) <= fx_mul_v(a.x.raw as int, a.x.raw as int) <= i64::MAX as int,
        -(i64::MAX as int) <= fx_mul_v(a.y.raw as int, a.y.raw as int) <= i64::MAX as int,
        i64::MIN <= len2_v(a.x.raw as int, a.y.raw as int) <= i64::MAX,
    ensures
        r.raw == len2_v(a.x.raw as int, a.y.raw as int),
{
    a.x.mul(a.x).add(a.y.mul(a.y))
}

/// Squared distance between two points under fixed-point products.
pub fn dist2(a: Vec2, b: Vec2) -> (r: Fx)
    requires
        i64::MIN <= a.x.raw - b.x.raw <= i64::MAX,
        i64::MIN <= a.y.raw - b.y.raw <= i64::MAX,
        -(i64::MAX as int) <= fx_mul_v(a.x.raw - b.x.raw, a.x.raw - b.x.raw) <= i64::MAX as int,
        -(i64::MAX as int) <= fx_mul_v(a.y.raw - b.y.raw, a.y.raw - b.y.raw) <= i64::MAX as int,
        i64::MIN <= len2_v(a.x.raw - b.x.raw, a.y.raw - b.y.raw) <= i64::MAX,
    ensures
        r.raw == len2_v(a.x.raw - b.x.raw, a.y.raw - b.y.raw),
{
    len2(crate::vector::sub(a, b))
}

/// Distance between two points.
pub fn dist(a: Vec2, b: Vec2) -> (r: Fx)
    requires
        -GEOM_RAW_MAX <= a.x.raw - b.x.raw <= GEOM_RAW_MAX,
        -GEOM_RAW_MAX <= a.y.raw - b.y.raw <= GEOM_RAW_MAX,
    ensures
        r.raw == len_v(a.x.raw - b.x.raw, a.y.raw - b.y.raw),
        0 <= r.raw <= 0x8000_0000_0000,
        (a.x.raw != b.x.raw || a.y.raw != b.y.raw) ==> r.raw >= 1,
        (r.raw as int) * (r.raw as int) <= (a.x.raw - b.x.raw) * (a.x.raw - b.x.raw) + (a.y.raw
            - b.y.raw) * (a.y.raw - b.y.raw),
        (a.x.raw - b.x.raw) * (a.x.raw - b.x.raw) + (a.y.raw - b.y.raw) * (a.y.raw - b.y.raw)
            < (r.raw + 1) * (r.raw + 1),
{
    let dx: i64 = a.x.sub(b.x).raw;
    let dy: i64 = a.y.sub(b.y).raw;
    Fx { raw: raw_len(dx, dy) }
}

/// Normalized (unit) vector. The components come out in `[-1, 1]`.
pub fn uni(a: Vec2) -> (r: Vec2)
    requires
        -GEOM_RAW_MAX <= a.x.raw <= GEOM_RAW_MAX,
        -GEOM_RAW_MAX <= a.y.raw <= GEOM_RAW_MAX,
        a.x.raw != 0 || a.y.raw != 0,
    ensures
        r.x.raw == fx_div_v(a.x.raw as int, len_v(a.x.raw as int, a.y.raw as int)),
        r.y.raw == fx_div_v(a.y.raw as int, len_v(a.x.raw as int, a.y.raw as int)),
        iabs(r.x.raw as int) <= FX_SCALE as int,
        iabs(r.y.raw as int) <= FX_SCALE as int,
{
    let l: Fx = len(a);
    proof {
        let xi = a.x.raw as int;
        let yi = a.y.raw as int;
        let li = l.raw as int;
        assert(iabs(xi) <= li && iabs(yi) <= li) by (nonlinear_arith)
            requires
                li >= 0,
                li * li <= xi * xi + yi * yi,
                xi * xi + yi * yi < (li + 1) * (li + 1),
        ;
        lemma_fx_div_unit(xi, li);
        lemma_fx_div_unit(yi, li);
        assert(iabs(fx_div_v(xi, li)) <= FX_SCALE as int);
        assert(iabs(fx_div_v(yi, li)) <= FX_SCALE as int);
    }
    div(a, l)
}

/// Midpoint of two points.
pub fn med(a: Vec2, b: Vec2) -> (r: Vec2)
    requires
        -(i64::MAX as int) <= a.x.raw + b.x.raw <= i64::MAX as int,
        -(i64::MAX as int) <= a.y.raw + b.y.raw <= i64::MAX as int,
    ensures
        r.x.raw == fx_mul_v(a.x.raw + b.x.raw, FX_HALF as int),
        r.y.raw == fx_mul_v(a.y.raw + b.y.raw, FX_HALF as int),
{
    proof {
        crate::fixed::lemma_fx_scale_between(a.x.raw + b.x.raw, FX_HALF as int);
        crate::fixed::lemma_fx_scale_between(a.y.raw + b.y.raw, FX_HALF as int);
    }
    crate::vector::mul(crate::vector::add(a, b), Fx { raw: FX_HALF })
}

/// Interpolate from `a` toward `b` by the factor `t`.
pub fn lrp(a: Vec2, b: Vec2, t: Fx) -> (r: Vec2)
    requires
        i64::MIN <= b.x.raw - a.x.raw <= i64::MAX,
        i64::MIN <= b.y.raw - a.y.raw <= i64::MAX,
        -(i64::MAX as int) <= fx_mul_v(b.x.raw - a.x.raw, t.raw as int) <= i64::MAX as int,
        -(i64::MAX as int) <= fx_mul_v(b.y.raw - a.y.raw, t.raw as int) <= i64::MAX as int,
        i64::MIN <= lerp_v(a.x.raw as int, b.x.raw as int, t.raw as int) <= i64::MAX,
        i64::MIN <= lerp_v(a.y.raw as int, b.y.raw as int, t.raw as int) <= i64::MAX,
    ensures
        r.x.raw == lerp_v(a.x.raw as int, b.x.raw as int, t.raw as int),
        r.y.raw == lerp_v(a.y.raw as int, b.y.raw as int, t.raw as int),
{
    crate::vector::add(a, crate::vector::mul(crate::vector::sub(b, a), t))
}

/// Project a point `a` along the direction `b` scaled by `c`.
pub fn prj(a: Vec2, b: Vec2, c: Fx) -> (r: Vec2)
    requires
        -(i64::MAX as int) <= fx_mul_v(b.x.raw as int, c.raw as int) <= i64::MAX as int,
        -(i64::MAX as int) <= fx_mul_v(b.y.raw as int, c.raw as int) <= i64::MAX as int,
        i64::MIN <= a.x.raw + fx_mul_v(b.x.raw as int, c.raw as int) <= i64::MAX,
        i64::MIN <= a.y.raw + fx_mul_v(b.y.raw as int, c.raw as int) <= i64::MAX,
    ensures
        r.x.raw == a.x.raw + fx_mul_v(b.x.raw as int, c.raw as int),
        r.y.raw == a.y.raw + fx_mul_v(b.y.raw as int, c.raw as int),
{
    crate::vector::add(a, crate::vector::mul(b, c))
}

/// Sine of an angle in `[0, ANGLE_MAX]`, by Bhaskara's approximation.
pub fn sin_fx(x: Fx) -> (r: Fx)
    requires
        0 <= x.raw <= ANGLE_MAX,
    ensures
        r.raw == sin_v(x.raw as int),
        iabs(r.raw as int) <= FX_SCALE as int,
{
    proof {
        lemma_sin_core_bounds(x.raw as int);
    }
    let p: Fx = Fx { raw: PI_FX };
    let n1: Fx = x.mul(p.sub(x));
    let num: Fx = Fx { raw: 16 * n1.raw };
    let den: Fx = Fx { raw: 5 * PI2_FX - 4 * n1.raw };
    proof {
        assert(den.raw >= 2587247);
        assert(iabs(num.raw as int) <= den.raw);
        lemma_fx_div_unit(num.raw as int, den.raw as int);
    }
    num.div(den)
}

/// The core term of the sine approximation stays in a narrow band.
proof fn lemma_sin_core_bounds(xv: int)
    requires
        0 <= xv <= ANGLE_MAX as int,
    ensures
        -204 <= fx_mul_v(xv, PI_FX as int - xv) <= 161702,
{
    let pv = PI_FX as int;
    let pr = xv * (pv - xv);
    assert(4 * pr <= pv * pv) by (nonlinear_arith)
        requires
            pr == xv * (pv - xv),
    ;
    assert(pv * pv == 42389456769) by (nonlinear_arith)
        requires
            pv == 205887,
    ;
    assert(pr >= -(13386880)) by (nonlinear_arith)
        requires
            0 <= xv <= 205952,
            pv == 205887,
            pr == xv * (pv - xv),
    ;
    lemma_tdiv_mag(pr, FX_SCALE as int);
    if pr >= 0 {
        assert(pr <= 10597364192);
        lemma_div_is_ordered(pr, 10597364192, FX_SCALE as int);
        assert(10597364192int / 65536int == 161702) by (nonlinear_arith);
        lemma_div_pos_is_pos(pr, FX_SCALE as int);
        assert(fx_mul_v(xv, pv - xv) == pr / (FX_SCALE as int));
    } else {
        assert(iabs(pr) <= 13386880);
        lemma_div_is_ordered(iabs(pr), 13386880, FX_SCALE as int);
        assert(13386880int / 65536int == 204) by (nonlinear_arith);
        lemma_div_pos_is_pos(iabs(pr), FX_SCALE as int);
        assert(fx_mul_v(xv, pv - xv) == -(iabs(pr) / (FX_SCALE as int)));
    }
}

/// Cosine of an angle in `[0, ANGLE_MAX]`, via the sine shifted a quarter turn.
pub fn cos_fx(x: Fx) -> (r: Fx)
    requires
        0 <= x.raw <= ANGLE_MAX,
    ensures
        r.raw == cos_v(x.raw as int),
        iabs(r.raw as int) <= FX_SCALE as int,
{
    if x.raw <= PI_HALF_FX {
        sin_fx(Fx { raw: PI_HALF_FX - x.raw })
    } else {
        let s: Fx = sin_fx(Fx { raw: x.raw - PI_HALF_FX });
        s.neg()
    }
}

/// Where a rotation around a center lands, horizontally, on raw values.
pub open spec fn rot_x_v(ax: int, ay: int, cx: int, cy: int, ang: int) -> int {
    fx_mul_v(ax - cx, cos_v(ang)) - fx_mul_v(ay - cy, sin_v(ang)) + cx
}

/// Where a rotation around a center lands, vertically, on raw values.
pub open spec fn rot_y_v(ax: int, ay: int, cx: int, cy: int, ang: int) -> int {
    fx_mul_v(ax - cx, sin_v(ang)) + fx_mul_v(ay - cy, cos_v(ang)) + cy
}

/// Rotate the point `a` around the center `c` by the angle `r` (radians),
/// using the crate's sine and cosine. The accepted angle band,
/// `[0, ANGLE_MAX]` — a half turn and a hair — is part of this
/// function's interface: the pipeline sweeps its cap arcs within it, and
/// a caller who needs a larger angle reduces it first. The result stays
/// no further from the center than the sum of the two offset magnitudes.
pub fn rot_around(a: Vec2, c: Vec2, r: Fx) -> (res: Vec2)
    requires
        0 <= r.raw <= ANGLE_MAX,
        -GEOM_RAW_MAX <= a.x.raw - c.x.raw <= GEOM_RAW_MAX,
        -GEOM_RAW_MAX <= a.y.raw - c.y.raw <= GEOM_RAW_MAX,
        -GEOM_RAW_MAX <= c.x.raw <= GEOM_RAW_MAX,
        -GEOM_RAW_MAX <= c.y.raw <= GEOM_RAW_MAX,
    ensures
        res.x.raw == rot_x_v(a.x.raw as int, a.y.raw as int, c.x.raw as int, c.y.raw as int,
            r.raw as int),
        res.y.raw == rot_y_v(a.x.raw as int, a.y.raw as int, c.x.raw as int, c.y.raw as int,
            r.raw as int),
        iabs(res.x.raw - c.x.raw) <= iabs(a.x.raw - c.x.raw) + iabs(a.y.raw - c.y.raw),
        iabs(res.y.raw - c.y.raw) <= iabs(a.x.raw - c.x.raw) + iabs(a.y.raw - c.y.raw),
{
    let s: Fx = sin_fx(r);
    let cv: Fx = cos_fx(r);
    let px: Fx = a.x.sub(c.x);
    let py: Fx = a.y.sub(c.y);
    proof {
        lemma_fx_mul_mag(px.raw as int, cv.raw as int, iabs(px.raw as int), FX_SCALE as int);
        lemma_fx_mul_mag(py.raw as int, s.raw as int, iabs(py.raw as int), FX_SCALE as int);
        lemma_fx_mul_mag(px.raw as int, s.raw as int, iabs(px.raw as int), FX_SCALE as int);
        lemma_fx_mul_mag(py.raw as int, cv.raw as int, iabs(py.raw as int), FX_SCALE as int);
        lemma_div_by_multiple(iabs(px.raw as int), FX_SCALE as int);
        lemma_div_by_multiple(iabs(py.raw as int), FX_SCALE as int);
    }
    let nx: Fx = px.mul(cv).sub(py.mul(s));
    let ny: Fx = px.mul(s).add(py.mul(cv));
    Vec2 { x: nx.add(c.x), y: ny.add(c.y) }
}

} // verus!

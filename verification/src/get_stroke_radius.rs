use vstd::prelude::*;
use crate::fixed::{Fx, FX_HALF, FX_SCALE, fx_mul_v, iabs, tdiv, lemma_fx_mul_units,
    lemma_iabs_mul, lemma_tdiv_mag};
use crate::types::{Easing, ease_v, fx_within, SIZE_RAW_MAX, THINNING_RAW_MAX, PRESSURE_RAW_MAX,
    RADIUS_RAW_MAX};
use vstd::arithmetic::div_mod::*;

verus! {

/// The easing a radius computation uses: the given curve, or the identity.
pub open spec fn radius_easing(e: Option<Easing>) -> Easing {
    match e {
        Some(v) => v,
        None => Easing::Identity,
    }
}

/// Raw radius: `size * ease(1/2 - thinning * (1/2 - pressure))`.
pub open spec fn stroke_radius_v(size: int, thinning: int, pressure: int, e: Easing) -> int {
    fx_mul_v(size, ease_v(e, FX_HALF as int - fx_mul_v(thinning, FX_HALF as int - pressure)))
}

/// Compute the instantaneous stroke half-width from the base size, the
/// thinning factor, the pressure, and an optional easing curve applied
/// to the pressure response. No clamping: out-of-range pressure gives a
/// radius outside `[0, size]`, as documented.
pub fn get_stroke_radius(size: Fx, thinning: Fx, pressure: Fx, easing: Option<Easing>) -> (r: Fx)
    requires
        fx_within(size, SIZE_RAW_MAX as int),
        fx_within(thinning, THINNING_RAW_MAX as int),
        fx_within(pressure, PRESSURE_RAW_MAX as int),
    ensures
        r.raw == stroke_radius_v(
            size.raw as int,
            thinning.raw as int,
            pressure.raw as int,
            radius_easing(easing),
        ),
        fx_within(r, RADIUS_RAW_MAX as int),
{
    let half: Fx = Fx { raw: FX_HALF };
    let inner: Fx = half.sub(pressure);
    proof {
        lemma_fx_mul_units(thinning.raw as int, inner.raw as int, 1, 3);
    }
    let scaled: Fx = thinning.mul(inner);
    let t: Fx = half.sub(scaled);
    let e: Easing = match easing {
        Some(v) => v,
        None => Easing::Identity,
    };
    let eased: Fx = e.ease(t);
    proof {
        lemma_fx_mul_units(size.raw as int, eased.raw as int, 1024, 128);
    }
    size.mul(eased)
}

/// With the thinning factor zero and no easing, the radius is half the
/// size, whatever the pressure.
pub proof fn lemma_radius_zero_thinning(size: int, pressure: int)
    ensures
        stroke_radius_v(size, 0, pressure, Easing::Identity) == tdiv(size, 2),
{
    let s = FX_SCALE as int;
    assert(0 * (FX_HALF as int - pressure) == 0) by (nonlinear_arith);
    assert(fx_mul_v(0, FX_HALF as int - pressure) == 0) by {
        lemma_tdiv_mag(0, s);
        lemma_div_of0(s);
        assert(tdiv(0, s) == 0int / s);
    }
    assert(ease_v(Easing::Identity, FX_HALF as int) == FX_HALF as int);
    assert(fx_mul_v(size, FX_HALF as int) == tdiv(size, 2)) by {
        lemma_iabs_mul(size, FX_HALF as int);
        lemma_tdiv_mag(size * (FX_HALF as int), s);
        lemma_tdiv_mag(size, 2);
        lemma_div_denominator(iabs(size) * (FX_HALF as int), FX_HALF as int, 2);
        lemma_div_by_multiple(iabs(size), FX_HALF as int);
        assert(iabs(size) * (FX_HALF as int) == (FX_HALF as int) * iabs(size))
            by (nonlinear_arith);
        assert((FX_HALF as int) * 2 == s);
        assert(iabs(size * (FX_HALF as int)) / s == iabs(size) / 2);
        assert((size * (FX_HALF as int) < 0) == (size < 0)) by (nonlinear_arith);
    }
}

} // verus!

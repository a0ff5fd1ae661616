use vstd::prelude::*;
use vstd::arithmetic::div_mod::*;
use vstd::arithmetic::mul::*;

verus! {

/// One whole unit in raw steps: sixteen fractional bits.
pub const FX_SCALE: i64 = 65536;

/// One half, in raw steps.
pub const FX_HALF: i64 = 32768;

/// A signed binary fixed-point number. The value it stands for is
/// `raw` divided by `FX_SCALE`; all contracts in this crate speak of
/// the raw integer directly.
#[derive(Clone, Copy, Debug, PartialEq, Eq, Structural)]
pub struct Fx {
    pub raw: i64,
}

/// A raw value wrapped back into a number (for spec-level construction).
pub open spec fn fx_of(r: int) -> Fx {
    Fx { raw: r as i64 }
}

/// Magnitude of an integer.
pub open spec fn iabs(x: int) -> int {
    if x < 0 {
        -x
    } else {
        x
    }
}

/// Integer division rounding toward zero (`b != 0`).
pub open spec fn tdiv(a: int, b: int) -> int {
    if (a < 0) == (b < 0) {
        iabs(a) / iabs(b)
    } else {
        -(iabs(a) / iabs(b))
    }
}

/// Raw value of the fixed-point product of two raw values.
pub open spec fn fx_mul_v(a: int, b: int) -> int {
    tdiv(a * b, FX_SCALE as int)
}

/// Raw value of the fixed-point quotient of two raw values.
pub open spec fn fx_div_v(a: int, b: int) -> int {
    tdiv(a * FX_SCALE, b)
}

/// The integer square root: the unique `r >= 0` with `r * r <= n < (r + 1) * (r + 1)`.
pub open spec fn fx_sqrt(n: int) -> int {
    choose|r: int| 0 <= r && #[trigger] (r * r) <= n && n < (r + 1) * (r + 1)
}

/// A square root witness pins down `fx_sqrt`.
pub proof fn lemma_fx_sqrt_unique(n: int, r: int)
    requires
        0 <= r,
        r * r <= n,
        n < (r + 1) * (r + 1),
    ensures
        fx_sqrt(n) == r,
{
    assert(exists|q: int| 0 <= q && #[trigger] (q * q) <= n && n < (q + 1) * (q + 1)) by {
        assert(0 <= r && r * r <= n && n < (r + 1) * (r + 1));
    }
    let c = fx_sqrt(n);
    assert(0 <= c && c * c <= n && n < (c + 1) * (c + 1));
    assert(c == r) by (nonlinear_arith)
        requires
            0 <= r,
            r * r <= n,
            n < (r + 1) * (r + 1),
            0 <= c,
            c * c <= n,
            n < (c + 1) * (c + 1),
    ;
}

/// Magnitudes multiply: `|a * b| == |a| * |b|`.
pub proof fn lemma_iabs_mul(a: int, b: int)
    ensures
        iabs(a * b) == iabs(a) * iabs(b),
{
    assert(iabs(a * b) == iabs(a) * iabs(b)) by (nonlinear_arith);
}

/// Magnitude of a truncated quotient by a positive divisor.
pub proof fn lemma_tdiv_mag(a: int, b: int)
    requires
        b > 0,
    ensures
        iabs(tdiv(a, b)) == iabs(a) / b,
        a >= 0 ==> tdiv(a, b) == a / b,
    {
    lemma_div_pos_is_pos(iabs(a), b);
    if a >= 0 {
        assert(tdiv(a, b) == a / b);
    }
}

/// A fixed-point product of bounded factors is bounded.
pub proof fn lemma_fx_mul_mag(a: int, b: int, m: int, n: int)
    requires
        iabs(a) <= m,
        iabs(b) <= n,
    ensures
        iabs(fx_mul_v(a, b)) <= m * n / (FX_SCALE as int),
{
    lemma_iabs_mul(a, b);
    lemma_tdiv_mag(a * b, FX_SCALE as int);
    assert(iabs(a) * iabs(b) <= m * n) by (nonlinear_arith)
        requires
            0 <= iabs(a) <= m,
            0 <= iabs(b) <= n,
    ;
    lemma_div_is_ordered(iabs(a) * iabs(b), m * n, FX_SCALE as int);
}

/// Scaling by one half is truncated halving.
pub proof fn lemma_fx_half(d: int)
    ensures
        fx_mul_v(d, FX_HALF as int) == tdiv(d, 2),
{
    lemma_iabs_mul(d, FX_HALF as int);
    lemma_tdiv_mag(d * (FX_HALF as int), FX_SCALE as int);
    lemma_tdiv_mag(d, 2);
    lemma_div_denominator(iabs(d) * (FX_HALF as int), FX_HALF as int, 2);
    lemma_div_by_multiple(iabs(d), FX_HALF as int);
    assert(iabs(d) * (FX_HALF as int) == (FX_HALF as int) * iabs(d)) by (nonlinear_arith);
    assert((FX_HALF as int) * 2 == FX_SCALE as int);
    assert((d * (FX_HALF as int) < 0) == (d < 0)) by (nonlinear_arith);
}

/// Scaling by exactly one is the identity.
pub proof fn lemma_fx_mul_one(d: int)
    ensures
        fx_mul_v(d, FX_SCALE as int) == d,
{
    lemma_iabs_mul(d, FX_SCALE as int);
    lemma_tdiv_mag(d * FX_SCALE, FX_SCALE as int);
    lemma_div_by_multiple(iabs(d), FX_SCALE as int);
    assert((d * FX_SCALE < 0) == (d < 0)) by (nonlinear_arith);
}

/// Bounds stated in whole units carry through a fixed-point product.
pub proof fn lemma_fx_mul_units(a: int, b: int, m: int, n: int)
    requires
        iabs(a) <= m * FX_SCALE,
        iabs(b) <= n * FX_SCALE,
        0 <= m,
        0 <= n,
    ensures
        iabs(fx_mul_v(a, b)) <= m * n * FX_SCALE,
{
    lemma_fx_mul_mag(a, b, m * FX_SCALE, n * FX_SCALE);
    assert((m * FX_SCALE) * (n * FX_SCALE) == (m * n * FX_SCALE) * FX_SCALE)
        by (nonlinear_arith);
    assert(m * n * FX_SCALE >= 0) by (nonlinear_arith)
        requires
            m >= 0,
            n >= 0,
    ;
    lemma_div_by_multiple(m * n * FX_SCALE, FX_SCALE as int);
}

/// Scaling by a factor in `[0, 1]` keeps a raw value between zero and itself.
pub proof fn lemma_fx_scale_between(d: int, t: int)
    requires
        0 <= t <= FX_SCALE as int,
    ensures
        d >= 0 ==> 0 <= fx_mul_v(d, t) <= d,
        d < 0 ==> d <= fx_mul_v(d, t) <= 0,
{
    lemma_iabs_mul(d, t);
    lemma_tdiv_mag(d * t, FX_SCALE as int);
    assert(iabs(d) * t <= iabs(d) * (FX_SCALE as int)) by (nonlinear_arith)
        requires
            0 <= t <= FX_SCALE as int,
            0 <= iabs(d),
    ;
    lemma_div_is_ordered(iabs(d) * t, iabs(d) * (FX_SCALE as int), FX_SCALE as int);
    lemma_div_by_multiple(iabs(d), FX_SCALE as int);
    if d >= 0 {
        assert(d * t >= 0) by (nonlinear_arith)
            requires
                d >= 0,
                t >= 0,
        ;
    } else {
        assert(d * t <= 0) by (nonlinear_arith)
            requires
                d < 0,
                t >= 0,
        ;
    }
}

/// A fixed-point quotient of a numerator no larger than the positive
/// denominator has magnitude at most one unit.
pub proof fn lemma_fx_div_unit(a: int, b: int)
    requires
        0 < b,
        iabs(a) <= b,
    ensures
        iabs(fx_div_v(a, b)) <= FX_SCALE as int,
{
    lemma_iabs_mul(a, FX_SCALE as int);
    lemma_tdiv_mag(a * FX_SCALE, b);
    assert(iabs(a) * (FX_SCALE as int) <= b * (FX_SCALE as int)) by (nonlinear_arith)
        requires
            0 <= iabs(a) <= b,
    ;
    lemma_div_is_ordered(iabs(a) * (FX_SCALE as int), b * (FX_SCALE as int), b);
    lemma_div_by_multiple(FX_SCALE as int, b);
    assert(b * (FX_SCALE as int) == (FX_SCALE as int) * b) by (nonlinear_arith);
}

/// A proper fraction of nonnegative raw values scales to `[0, 1)`.
pub proof fn lemma_fx_div_frac(a: int, b: int)
    requires
        0 <= a < b,
    ensures
        0 <= fx_div_v(a, b) < FX_SCALE as int,
{
    lemma_iabs_mul(a, FX_SCALE as int);
    lemma_tdiv_mag(a * FX_SCALE, b);
    assert(a * (FX_SCALE as int) >= 0) by (nonlinear_arith)
        requires
            a >= 0,
    ;
    assert(a * (FX_SCALE as int) < b * (FX_SCALE as int)) by (nonlinear_arith)
        requires
            0 <= a < b,
    ;
    assert(a * (FX_SCALE as int) / b < FX_SCALE as int) by {
        lemma_multiply_divide_lt(a * (FX_SCALE as int), b, FX_SCALE as int);
    }
}

/// Magnitude of an `i64` as a `u128`.
fn i64_abs_u128(x: i64) -> (r: u128)
    ensures
        r == iabs(x as int),
{
    if x >= 0 {
        x as u128
    } else {
        (-(x as i128)) as u128
    }
}

/// Divide `a * FX_SCALE` by `b`, rounding toward zero.
fn raw_scaled_div(a: i64, b: i64) -> (r: i64)
    requires
        b != 0,
        -(i64::MAX as int) <= fx_div_v(a as int, b as int) <= i64::MAX as int,
    ensures
        r == fx_div_v(a as int, b as int),
{
    let am: u128 = i64_abs_u128(a);
    let bm: u128 = i64_abs_u128(b);
    let pm: u128 = am * 65536;
    let qm: u128 = pm / bm;
    proof {
        lemma_iabs_mul(a as int, FX_SCALE as int);
        lemma_tdiv_mag(a as int * FX_SCALE as int, iabs(b as int));
        assert(pm == iabs(a as int * FX_SCALE as int));
        assert(qm == iabs(a as int * FX_SCALE as int) / iabs(b as int));
    }
    if (a < 0) != (b < 0) {
        proof {
            if a != 0 {
                assert(((a as int * FX_SCALE as int) < 0) != ((b as int) < 0))
                    by (nonlinear_arith)
                    requires
                        a != 0,
                        ((a as int) < 0) != ((b as int) < 0),
                        b != 0,
                ;
                assert(fx_div_v(a as int, b as int) == -(qm as int));
            } else {
                assert(qm == 0);
                assert(fx_div_v(a as int, b as int) == 0);
            }
            assert(qm <= i64::MAX as int);
        }
        -(qm as i64)
    } else {
        proof {
            assert(((a as int * FX_SCALE as int) < 0) == ((b as int) < 0))
                by (nonlinear_arith)
                requires
                    ((a as int) < 0) == ((b as int) < 0),
                    b != 0,
            ;
            assert(fx_div_v(a as int, b as int) == qm as int);
            assert(qm <= i64::MAX as int);
        }
        qm as i64
    }
}

impl Fx {
    /// The number whose raw representation is `r`.
    pub fn from_raw(r: i64) -> (result: Fx)
        ensures
            result.raw == r,
    {
        Fx { raw: r }
    }

    /// The whole number `i`.
    pub fn from_int(i: i64) -> (result: Fx)
        requires
            -0x7fff_ffff_ffff < i < 0x7fff_ffff_ffff,
        ensures
            result.raw == i * FX_SCALE,
    {
        Fx { raw: i * FX_SCALE }
    }

    /// The fraction `n / d`, truncated toward zero at the sixteenth
    /// fractional bit.
    pub fn from_ratio(n: i64, d: i64) -> (result: Fx)
        requires
            d != 0,
            -(i64::MAX as int) <= fx_div_v(n as int, d as int) <= i64::MAX as int,
        ensures
            result.raw == fx_div_v(n as int, d as int),
    {
        Fx { raw: raw_scaled_div(n, d) }
    }

    /// Negation.
    pub fn neg(self) -> (r: Fx)
        requires
            self.raw > i64::MIN,
        ensures
            r.raw == -self.raw,
    {
        Fx { raw: -self.raw }
    }

    /// Addition.
    pub fn add(self, rhs: Fx) -> (r: Fx)
        requires
            i64::MIN <= self.raw + rhs.raw <= i64::MAX,
        ensures
            r.raw == self.raw + rhs.raw,
    {
        Fx { raw: self.raw + rhs.raw }
    }

    /// Subtraction.
    pub fn sub(self, rhs: Fx) -> (r: Fx)
        requires
            i64::MIN <= self.raw - rhs.raw <= i64::MAX,
        ensures
            r.raw == self.raw - rhs.raw,
    {
        Fx { raw: self.raw - rhs.raw }
    }

    /// Fixed-point product, truncated toward zero.
    pub fn mul(self, rhs: Fx) -> (r: Fx)
        requires
            -(i64::MAX as int) <= fx_mul_v(self.raw as int, rhs.raw as int) <= i64::MAX as int,
        ensures
            r.raw == fx_mul_v(self.raw as int, rhs.raw as int),
    {
        let am: u128 = i64_abs_u128(self.raw);
        let bm: u128 = i64_abs_u128(rhs.raw);
        proof {
            assert(am * bm <= 0x8000_0000_0000_0000u128 as int * 0x8000_0000_0000_0000u128 as int)
                by (nonlinear_arith)
                requires
                    0 <= am <= 0x8000_0000_0000_0000u128 as int,
                    0 <= bm <= 0x8000_0000_0000_0000u128 as int,
            ;
        }
        let pm: u128 = am * bm;
        let qm: u128 = pm / 65536;
        proof {
            lemma_iabs_mul(self.raw as int, rhs.raw as int);
            lemma_tdiv_mag(self.raw as int * rhs.raw as int, FX_SCALE as int);
            assert(pm == iabs(self.raw as int * rhs.raw as int));
            assert(qm == iabs(self.raw as int * rhs.raw as int) / (FX_SCALE as int));
        }
        if (self.raw < 0) != (rhs.raw < 0) {
            proof {
                if self.raw != 0 && rhs.raw != 0 {
                    assert((self.raw as int * rhs.raw as int) < 0) by (nonlinear_arith)
                        requires
                            self.raw != 0,
                            rhs.raw != 0,
                            ((self.raw as int) < 0) != ((rhs.raw as int) < 0),
                    ;
                    assert(fx_mul_v(self.raw as int, rhs.raw as int) == -(qm as int));
                } else {
                    assert(self.raw as int * rhs.raw as int == 0) by (nonlinear_arith)
                        requires
                            self.raw == 0 || rhs.raw == 0,
                    ;
                    assert(qm == 0);
                    assert(fx_mul_v(self.raw as int, rhs.raw as int) == 0);
                }
                assert(qm <= i64::MAX as int);
            }
            Fx { raw: -(qm as i64) }
        } else {
            proof {
                assert((self.raw as int * rhs.raw as int) >= 0) by (nonlinear_arith)
                    requires
                        ((self.raw as int) < 0) == ((rhs.raw as int) < 0),
                ;
                assert(fx_mul_v(self.raw as int, rhs.raw as int) == qm as int);
                assert(qm <= i64::MAX as int);
            }
            Fx { raw: qm as i64 }
        }
    }

    /// Fixed-point quotient, truncated toward zero.
    pub fn div(self, rhs: Fx) -> (r: Fx)
        requires
            rhs.raw != 0,
            -(i64::MAX as int) <= fx_div_v(self.raw as int, rhs.raw as int) <= i64::MAX as int,
        ensures
            r.raw == fx_div_v(self.raw as int, rhs.raw as int),
    {
        Fx { raw: raw_scaled_div(self.raw, rhs.raw) }
    }

    /// The smaller of two numbers.
    pub fn min(self, rhs: Fx) -> (r: Fx)
        ensures
            r.raw == if self.raw <= rhs.raw {
                self.raw as int
            } else {
                rhs.raw as int
            },
    {
        if self.raw <= rhs.raw {
            self
        } else {
            rhs
        }
    }

    /// The larger of two numbers.
    pub fn max(self, rhs: Fx) -> (r: Fx)
        ensures
            r.raw == if self.raw >= rhs.raw {
                self.raw as int
            } else {
                rhs.raw as int
            },
    {
        if self.raw >= rhs.raw {
            self
        } else {
            rhs
        }
    }
}

/// Integer square root of a 128-bit number.
pub fn isqrt_u128(n: u128) -> (r: u128)
    ensures
        0 <= r,
        r * r <= n,
        n < (r + 1) * (r + 1),
        r == fx_sqrt(n as int),
{
    let mut lo: u128 = 0;
    let mut hi: u128 = 0x1_0000_0000_0000_0000;
    proof {
        assert((0x1_0000_0000_0000_0000u128 as int) * (0x1_0000_0000_0000_0000u128 as int)
            > u128::MAX as int) by (nonlinear_arith);
    }
    while lo + 1 < hi
        invariant
            lo < hi,
            hi <= 0x1_0000_0000_0000_0000,
            lo * lo <= n,
            (n as int) < (hi as int) * (hi as int),
        decreases hi - lo,
    {
        let mid: u128 = lo + (hi - lo) / 2;
        proof {
            assert(lo < mid < hi);
            assert((mid as int) * (mid as int) <= (0xffff_ffff_ffff_ffffu128 as int)
                * (0xffff_ffff_ffff_ffffu128 as int)) by (nonlinear_arith)
                requires
                    0 <= mid <= 0xffff_ffff_ffff_ffffu128 as int,
            ;
        }
        let sq: u128 = mid * mid;
        if sq <= n {
            lo = mid;
        } else {
            hi = mid;
        }
    }
    proof {
        assert(hi == lo + 1);
        lemma_fx_sqrt_unique(n as int, lo as int);
    }
    lo
}

} // verus!

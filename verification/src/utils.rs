use vstd::prelude::*;
use crate::fixed::{Fx, FX_SCALE, FX_HALF, fx_mul_v, iabs};
use crate::vector::Vec2;
use crate::types::{InputPoint, input_pos, fx_within, vec2_within, OUT_RAW_MAX};

verus! {

/// The corners of the tightest axis-aligned box around a set of input
/// samples: the smallest and largest coordinate on each axis, each
/// attained by some sample. `None` exactly when there are no samples.
pub fn input_bounds(points: &Vec<InputPoint>) -> (r: Option<(Vec2, Vec2)>)
    ensures
        r.is_some() == (points@.len() > 0),
        r matches Some((lo, hi)) ==> {
            &&& forall|i: int|
                0 <= i < points@.len() ==> lo.x.raw <= (#[trigger] input_pos(points@[i])).x.raw
                    <= hi.x.raw && lo.y.raw <= input_pos(points@[i]).y.raw <= hi.y.raw
            &&& exists|i: int|
                0 <= i < points@.len() && (#[trigger] input_pos(points@[i])).x.raw == lo.x.raw
            &&& exists|i: int|
                0 <= i < points@.len() && (#[trigger] input_pos(points@[i])).x.raw == hi.x.raw
            &&& exists|i: int|
                0 <= i < points@.len() && (#[trigger] input_pos(points@[i])).y.raw == lo.y.raw
            &&& exists|i: int|
                0 <= i < points@.len() && (#[trigger] input_pos(points@[i])).y.raw == hi.y.raw
        },
{
    if points.is_empty() {
        return None;
    }
    let pos0: Vec2 = match points[0] {
        InputPoint::Array(v, _) => v,
        InputPoint::Struct { x, y, pressure: _ } => Vec2 { x, y },
    };
    let mut lo: Vec2 = pos0;
    let mut hi: Vec2 = pos0;
    proof {
        assert(pos0 == input_pos(points@[0]));
        assert(input_pos(points@[0]).x.raw == lo.x.raw);
        assert(input_pos(points@[0]).x.raw == hi.x.raw);
        assert(input_pos(points@[0]).y.raw == lo.y.raw);
        assert(input_pos(points@[0]).y.raw == hi.y.raw);
    }
    let mut i: usize = 1;
    while i < points.len()
        invariant
            1 <= i <= points@.len(),
            forall|k: int|
                0 <= k < i ==> lo.x.raw <= (#[trigger] input_pos(points@[k])).x.raw <= hi.x.raw
                    && lo.y.raw <= input_pos(points@[k]).y.raw <= hi.y.raw,
            exists|k: int|
                0 <= k < i && (#[trigger] input_pos(points@[k])).x.raw == lo.x.raw,
            exists|k: int|
                0 <= k < i && (#[trigger] input_pos(points@[k])).x.raw == hi.x.raw,
            exists|k: int|
                0 <= k < i && (#[trigger] input_pos(points@[k])).y.raw == lo.y.raw,
            exists|k: int|
                0 <= k < i && (#[trigger] input_pos(points@[k])).y.raw == hi.y.raw,
        decreases points@.len() - i,
    {
        let pos: Vec2 = match points[i] {
            InputPoint::Array(v, _) => v,
            InputPoint::Struct { x, y, pressure: _ } => Vec2 { x, y },
        };
        if pos.x.raw < lo.x.raw {
            lo.x = pos.x;
        }
        if pos.x.raw > hi.x.raw {
            hi.x = pos.x;
        }
        if pos.y.raw < lo.y.raw {
            lo.y = pos.y;
        }
        if pos.y.raw > hi.y.raw {
            hi.y = pos.y;
        }
        proof {
            assert(pos == input_pos(points@[i as int]));
            if lo.x.raw == pos.x.raw {
                assert(input_pos(points@[i as int]).x.raw == lo.x.raw);
            }
            if hi.x.raw == pos.x.raw {
                assert(input_pos(points@[i as int]).x.raw == hi.x.raw);
            }
            if lo.y.raw == pos.y.raw {
                assert(input_pos(points@[i as int]).y.raw == lo.y.raw);
            }
            if hi.y.raw == pos.y.raw {
                assert(input_pos(points@[i as int]).y.raw == hi.y.raw);
            }
        }
        i += 1;
    }
    Some((lo, hi))
}

/// The raw average of two raw values, as the midpoint helper computes it.
pub open spec fn mid_v(a: int, b: int) -> int {
    fx_mul_v(a + b, FX_HALF as int)
}

/// A raw value rounded to hundredths of a unit, ties away from zero.
pub open spec fn hundredths_v(raw: int) -> int {
    if raw >= 0 {
        (raw * 100 + FX_HALF) / (FX_SCALE as int)
    } else {
        -(((-raw) * 100 + FX_HALF) / (FX_SCALE as int))
    }
}

/// The decimal digit characters.
pub open spec fn digit_char(d: int) -> char {
    if d == 0 {
        '0'
    } else if d == 1 {
        '1'
    } else if d == 2 {
        '2'
    } else if d == 3 {
        '3'
    } else if d == 4 {
        '4'
    } else if d == 5 {
        '5'
    } else if d == 6 {
        '6'
    } else if d == 7 {
        '7'
    } else if d == 8 {
        '8'
    } else {
        '9'
    }
}

/// The decimal digits of a natural number, most significant first.
pub open spec fn dec_digits(n: nat) -> Seq<char>
    decreases n,
{
    if n < 10 {
        seq![digit_char(n as int)]
    } else {
        dec_digits(n / 10) + seq![digit_char((n % 10) as int)]
    }
}

/// A raw value rendered with two decimals: optional minus sign, integer
/// digits, a point, and exactly two fractional digits.
pub open spec fn fmt_fx_v(raw: int) -> Seq<char> {
    let h = hundredths_v(raw);
    let hm = iabs(h) as nat;
    let base = dec_digits(hm / 100) + seq![
        '.',
        digit_char(((hm % 100) / 10) as int),
        digit_char((hm % 10) as int),
    ];
    if h < 0 {
        seq!['-'] + base
    } else {
        base
    }
}

/// A rendered coordinate pair: the two values joined by a comma.
pub open spec fn fmt_pair_v(p: Vec2) -> Seq<char> {
    fmt_fx_v(p.x.raw as int) + seq![','] + fmt_fx_v(p.y.raw as int)
}

/// A rendered midpoint pair of two points.
pub open spec fn fmt_mid_v(a: Vec2, b: Vec2) -> Seq<char> {
    fmt_fx_v(mid_v(a.x.raw as int, b.x.raw as int)) + seq![','] + fmt_fx_v(
        mid_v(a.y.raw as int, b.y.raw as int),
    )
}

/// The smoothing segments rendered for pair indices below `j`: for each
/// index `k` from two up, the midpoint of the `k`-th and next points,
/// then a space.
pub open spec fn segments_upto(pts: Seq<Vec2>, j: int) -> Seq<char>
    decreases j,
{
    if j <= 2 {
        Seq::empty()
    } else {
        segments_upto(pts, j - 1) + fmt_mid_v(pts[j - 1], pts[j]) + seq![' ']
    }
}

/// The whole curve path: empty below four points; otherwise a move to
/// the first point, a quadratic segment through the second, smoothing
/// control points at successive midpoints, and a close marker when
/// asked for.
pub open spec fn svg_path_v(pts: Seq<Vec2>, closed: bool) -> Seq<char> {
    if pts.len() < 4 {
        Seq::empty()
    } else {
        seq!['M'] + fmt_pair_v(pts[0]) + seq![' ', 'Q'] + fmt_pair_v(pts[1]) + seq![' ']
            + fmt_mid_v(pts[1], pts[2]) + seq![' ', 'T'] + segments_upto(pts, pts.len() - 1)
            + (if closed {
            seq!['Z']
        } else {
            Seq::empty()
        })
    }
}

/// One decimal digit as text.
fn digit_str(d: u64) -> (s: &'static str)
    requires
        d < 10,
    ensures
        s@ == seq![digit_char(d as int)],
{
    proof {
        reveal_strlit("0");
        reveal_strlit("1");
        reveal_strlit("2");
        reveal_strlit("3");
        reveal_strlit("4");
        reveal_strlit("5");
        reveal_strlit("6");
        reveal_strlit("7");
        reveal_strlit("8");
        reveal_strlit("9");
    }
    let r: &'static str = if d == 0 {
        "0"
    } else if d == 1 {
        "1"
    } else if d == 2 {
        "2"
    } else if d == 3 {
        "3"
    } else if d == 4 {
        "4"
    } else if d == 5 {
        "5"
    } else if d == 6 {
        "6"
    } else if d == 7 {
        "7"
    } else if d == 8 {
        "8"
    } else {
        "9"
    };
    proof {
        assert(r@ =~= seq![digit_char(d as int)]);
    }
    r
}

/// The decimal digits of a number, most significant first.
fn fmt_u64(n: u64) -> (s: String)
    ensures
        s@ == dec_digits(n as nat),
    decreases n,
{
    if n < 10 {
        let d: &'static str = digit_str(n);
        String::from_str(d)
    } else {
        let mut s: String = fmt_u64(n / 10);
        s.append(digit_str(n % 10));
        proof {
            assert(s@ =~= dec_digits(n as nat));
        }
        s
    }
}

/// One value rendered with two decimals.
fn format_fx(v: Fx) -> (s: String)
    requires
        fx_within(v, OUT_RAW_MAX as int),
    ensures
        s@ == fmt_fx_v(v.raw as int),
{
    let negative: bool = v.raw < 0;
    let m: u64 = if negative {
        (-(v.raw as i128)) as u64
    } else {
        v.raw as u64
    };
    let h: u64 = (m * 100 + (FX_HALF as u64)) / (FX_SCALE as u64);
    proof {
        assert(m == iabs(v.raw as int));
        if v.raw >= 0 {
            assert(h == hundredths_v(v.raw as int));
        } else {
            assert(h == -hundredths_v(v.raw as int));
        }
        assert(iabs(hundredths_v(v.raw as int)) == h as int);
    }
    let ip: u64 = h / 100;
    let tens: u64 = (h % 100) / 10;
    let ones: u64 = h % 10;
    let mut s: String = String::new();
    if negative && h > 0 {
        proof {
            reveal_strlit("-");
        }
        s.append("-");
    }
    let ips: String = fmt_u64(ip);
    s.append(ips.as_str());
    proof {
        reveal_strlit(".");
    }
    s.append(".");
    s.append(digit_str(tens));
    s.append(digit_str(ones));
    proof {
        assert(s@ =~= fmt_fx_v(v.raw as int));
    }
    s
}

/// Append a rendered coordinate pair.
fn push_pair(s: &mut String, p: Vec2)
    requires
        vec2_within(p, OUT_RAW_MAX as int),
    ensures
        final(s)@ == old(s)@ + fmt_pair_v(p),
{
    let xs: String = format_fx(p.x);
    s.append(xs.as_str());
    proof {
        reveal_strlit(",");
    }
    s.append(",");
    let ys: String = format_fx(p.y);
    s.append(ys.as_str());
    proof {
        assert(s@ =~= old(s)@ + fmt_pair_v(p));
    }
}

/// Append the rendered midpoint of two points.
fn push_mid(s: &mut String, a: Vec2, b: Vec2)
    requires
        vec2_within(a, OUT_RAW_MAX as int),
        vec2_within(b, OUT_RAW_MAX as int),
    ensures
        final(s)@ == old(s)@ + fmt_mid_v(a, b),
{
    proof {
        crate::fixed::lemma_fx_half(a.x.raw + b.x.raw);
        crate::fixed::lemma_fx_half(a.y.raw + b.y.raw);
        crate::fixed::lemma_tdiv_mag(a.x.raw + b.x.raw, 2);
        crate::fixed::lemma_tdiv_mag(a.y.raw + b.y.raw, 2);
        vstd::arithmetic::div_mod::lemma_div_is_ordered(iabs(a.x.raw + b.x.raw),
            2 * OUT_RAW_MAX as int, 2);
        vstd::arithmetic::div_mod::lemma_div_is_ordered(iabs(a.y.raw + b.y.raw),
            2 * OUT_RAW_MAX as int, 2);
    }
    let m: Vec2 = crate::vector::med(a, b);
    let xs: String = format_fx(m.x);
    s.append(xs.as_str());
    proof {
        reveal_strlit(",");
    }
    s.append(",");
    let ys: String = format_fx(m.y);
    s.append(ys.as_str());
    proof {
        assert(s@ =~= old(s)@ + fmt_mid_v(a, b));
    }
}

/// Render a stroke outline as an SVG path description: a move command,
/// one quadratic segment, then smoothing control points at successive
/// midpoints, closed with a `Z` marker when asked for. Fewer than four
/// points give the empty string.
pub fn get_svg_path_from_stroke(points: &Vec<Vec2>, closed: bool) -> (r: String)
    requires
        forall|i: int|
            0 <= i < points@.len() ==> vec2_within(#[trigger] points@[i], OUT_RAW_MAX as int),
    ensures
        r@ == svg_path_v(points@, closed),
        points@.len() < 4 ==> r@.len() == 0,
        points@.len() >= 4 ==> r@.len() > 0 && r@[0] == 'M',
        points@.len() >= 4 && closed ==> r@[r@.len() - 1] == 'Z',
{
    let len: usize = points.len();
    if len < 4 {
        return String::new();
    }

    let a: Vec2 = points[0];
    let b: Vec2 = points[1];
    let c: Vec2 = points[2];

    let mut s: String = String::new();
    proof {
        reveal_strlit("M");
        reveal_strlit(" Q");
        reveal_strlit(" ");
        reveal_strlit("T");
        reveal_strlit("Z");
    }
    s.append("M");
    push_pair(&mut s, a);
    s.append(" Q");
    push_pair(&mut s, b);
    s.append(" ");
    push_mid(&mut s, b, c);
    s.append(" ");
    s.append("T");

    let ghost head: Seq<char> = seq!['M'] + fmt_pair_v(points@[0]) + seq![' ', 'Q'] + fmt_pair_v(
        points@[1],
    ) + seq![' '] + fmt_mid_v(points@[1], points@[2]) + seq![' ', 'T'];
    proof {
        assert(s@ =~= head + segments_upto(points@, 2));
    }

    let mut i: usize = 2;
    while i < len - 1
        invariant
            4 <= len == points@.len(),
            2 <= i <= len - 1,
            forall|k: int|
                0 <= k < points@.len() ==> vec2_within(#[trigger] points@[k], OUT_RAW_MAX as int),
            head == seq!['M'] + fmt_pair_v(points@[0]) + seq![' ', 'Q'] + fmt_pair_v(points@[1])
                + seq![' '] + fmt_mid_v(points@[1], points@[2]) + seq![' ', 'T'],
            s@ == head + segments_upto(points@, i as int),
        decreases len - 1 - i,
    {
        let pa: Vec2 = points[i];
        let pb: Vec2 = points[i + 1];
        push_mid(&mut s, pa, pb);
        proof {
            reveal_strlit(" ");
        }
        s.append(" ");
        proof {
            assert(s@ =~= head + segments_upto(points@, i + 1));
        }
        i += 1;
    }

    if closed {
        proof {
            reveal_strlit("Z");
        }
        s.append("Z");
    }
    proof {
        assert(s@ =~= svg_path_v(points@, closed));
        assert(head[0] == 'M');
        if closed {
            assert(s@[s@.len() - 1] == 'Z');
        }
    }
    s
}

} // verus!

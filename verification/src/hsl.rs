//! Hue, saturation and lightness, and the conversion between them and the
//! byte channels, in exact arithmetic.
//!
//! Hue is counted in whole degrees, saturation and lightness in hundredths.
//! A channel, a saturation or a lightness that the formulas give as a
//! fraction is carried as its numerator over a fixed denominator, and rounded
//! once, at the end, to the nearest integer, halves away from zero.

use vstd::prelude::*;
use crate::color::RGB;

verus! {

/// Hue in degrees; saturation and lightness in hundredths.
#[derive(Debug, PartialEq, Eq, Structural)]
pub struct HSL {
    pub h: u16,
    pub s: u16,
    pub l: u16,
}

/// Hue in degrees; saturation and lightness in hundredths; alpha as a
/// binary64 bit pattern.
#[derive(Debug, PartialEq, Eq, Structural)]
pub struct HSLA {
    pub h: u16,
    pub s: u16,
    pub l: u16,
    pub a: u64,
}

/// The integer nearest to `n / d`, for `d > 0`; a half rounds away from zero.
pub open spec fn round_div(n: int, d: int) -> int {
    if n >= 0 {
        (2 * n + d) / (2 * d)
    } else {
        -((2 * (-n) + d) / (2 * d))
    }
}

/// The largest of three.
pub open spec fn max3(a: int, b: int, c: int) -> int {
    if a >= b && a >= c {
        a
    } else if b >= c {
        b
    } else {
        c
    }
}

/// The smallest of three.
pub open spec fn min3(a: int, b: int, c: int) -> int {
    if a <= b && a <= c {
        a
    } else if b <= c {
        b
    } else {
        c
    }
}

/// The distance between the largest and the smallest channel.
pub open spec fn spread(r: int, g: int, b: int) -> int {
    max3(r, g, b) - min3(r, g, b)
}

/// The hue in degrees, multiplied by the spread. Which channel is largest
/// picks the sector: red before green before blue where several are. A
/// negative angle is turned once round the circle. No sector reaches beyond
/// 300 degrees, so the angle stays below 360 without being held there.
pub open spec fn hue_scaled(r: int, g: int, b: int) -> int {
    let mx = max3(r, g, b);
    let d = spread(r, g, b);
    let raw = if r == mx {
        60 * (g - b)
    } else if g == mx {
        120 * d + 60 * (b - r)
    } else {
        240 * d + 60 * (r - g)
    };
    if raw < 0 {
        raw + 360 * d
    } else {
        raw
    }
}

/// The hue of three channels, in rounded degrees; 0 for a gray.
pub open spec fn hue(r: int, g: int, b: int) -> int {
    if spread(r, g, b) == 0 {
        0
    } else {
        round_div(hue_scaled(r, g, b), spread(r, g, b))
    }
}

/// What the spread is divided by to give the saturation, on the scale on
/// which a channel counts 255: twice the lightness up to a lightness of one
/// half, and twice its distance from 1 above.
pub open spec fn saturation_base(r: int, g: int, b: int) -> int {
    let sum = max3(r, g, b) + min3(r, g, b);
    if sum <= 255 {
        sum
    } else {
        510 - sum
    }
}

/// The saturation of three channels, in rounded hundredths; 0 for a gray.
pub open spec fn saturation(r: int, g: int, b: int) -> int {
    if spread(r, g, b) == 0 {
        0
    } else {
        round_div(100 * spread(r, g, b), saturation_base(r, g, b))
    }
}

/// The lightness of three channels, in rounded hundredths: the mean of the
/// largest and the smallest channel.
pub open spec fn lightness(r: int, g: int, b: int) -> int {
    round_div(100 * (max3(r, g, b) + min3(r, g, b)), 510)
}

/// Whether hue, saturation and lightness of three channels are whole numbers
/// of degrees and hundredths before any rounding.
pub open spec fn is_exact(r: int, g: int, b: int) -> bool {
    let d = spread(r, g, b);
    &&& (100 * (max3(r, g, b) + min3(r, g, b))) % 510 == 0
    &&& d != 0 ==> hue_scaled(r, g, b) % d == 0
    &&& d != 0 ==> (100 * d) % saturation_base(r, g, b) == 0
}

/// A saturation or lightness given in hundredths, in ten-thousandths of the
/// fraction it stands for: a value above 1 is a percentage and is divided by
/// 100, a value up to 1 is the fraction itself.
pub open spec fn to_decimal(hundredths: int) -> int {
    if hundredths > 100 {
        hundredths
    } else {
        100 * hundredths
    }
}

/// The upper of the two levels between which the channels of a hue lie, from
/// saturation and lightness in ten-thousandths; the result counts
/// hundred-millionths.
pub open spec fn upper_level(s: int, l: int) -> int {
    if l < 5000 {
        l * (10000 + s)
    } else {
        10000 * l + 10000 * s - l * s
    }
}

/// The lower of the two levels, in hundred-millionths.
pub open spec fn lower_level(s: int, l: int) -> int {
    20000 * l - upper_level(s, l)
}

/// An angle in degrees brought towards the circle: one turn is added to a
/// negative angle, and one turn taken from an angle above a full turn.
pub open spec fn wrap(t: int) -> int {
    let up = if t < 0 {
        t + 360
    } else {
        t
    };
    if up > 360 {
        up - 360
    } else {
        up
    }
}

/// The channel at an angle `t` of the circle between the levels `p` and `q`,
/// multiplied by 60: rising from `p` over the first sixth of the circle, at
/// `q` up to one half, falling back to `p` up to two thirds, and at `p` from
/// there on.
pub open spec fn level_at(p: int, q: int, t: int) -> int {
    if t < 60 {
        60 * p + (q - p) * t
    } else if t < 180 {
        60 * q
    } else if t < 240 {
        60 * p + (q - p) * (240 - t)
    } else {
        60 * p
    }
}

/// The channel at any angle in degrees: the angle is wrapped first.
pub open spec fn hue_to_rgb(p: int, q: int, t: int) -> int {
    level_at(p, q, wrap(t))
}

/// The byte for a channel given in parts of 6 000 000 000: multiplied by 255,
/// rounded, and held within the range of a byte.
pub open spec fn to_rgb(n: int) -> int {
    let v = round_div(255 * n, 6_000_000_000);
    if v < 0 {
        0
    } else if v > 255 {
        255
    } else {
        v
    }
}

/// The three channels of a hue in degrees and of a saturation and a
/// lightness in hundredths. Without saturation all three are the lightness.
pub open spec fn rgb_of_hsl(h: int, s: int, l: int) -> (int, int, int) {
    let s = to_decimal(s);
    let l = to_decimal(l);
    if s == 0 {
        let v = to_rgb(600_000 * l);
        (v, v, v)
    } else {
        let q = upper_level(s, l);
        let p = lower_level(s, l);
        (
            to_rgb(hue_to_rgb(p, q, h + 120)),
            to_rgb(hue_to_rgb(p, q, h)),
            to_rgb(hue_to_rgb(p, q, h - 120)),
        )
    }
}

proof fn lemma_product_bound(a: int, b: int, ma: int, mb: int)
    by (nonlinear_arith)
    requires
        -ma <= a <= ma,
        -mb <= b <= mb,
    ensures
        -(ma * mb) <= a * b <= ma * mb,
{
}

proof fn lemma_round_div_bound(n: int, d: int, k: int)
    by (nonlinear_arith)
    requires
        d > 0,
        k >= 0,
        0 <= n <= k * d,
    ensures
        0 <= round_div(n, d) <= k,
{
}

/// Hue lies within 0 and 360 degrees, saturation and lightness within 0 and
/// 100 hundredths.
pub proof fn lemma_hsl_in_range(r: int, g: int, b: int)
    requires
        0 <= r <= 255,
        0 <= g <= 255,
        0 <= b <= 255,
    ensures
        0 <= hue(r, g, b) <= 360,
        0 <= saturation(r, g, b) <= 100,
        0 <= lightness(r, g, b) <= 100,
{
    let d = spread(r, g, b);
    lemma_round_div_bound(100 * (max3(r, g, b) + min3(r, g, b)), 510, 100);
    if d != 0 {
        lemma_round_div_bound(hue_scaled(r, g, b), d, 360);
        lemma_round_div_bound(100 * d, saturation_base(r, g, b), 100);
    }
}

/// Rounds `n / d` to the nearest integer, halves away from zero.
pub fn rounded_quotient(n: i64, d: i64) -> (out: i64)
    requires
        0 < d <= 0x3fff_ffff_ffff_ffff,
        -0x1fff_ffff_ffff_ffff <= n <= 0x1fff_ffff_ffff_ffff,
    ensures
        out == round_div(n as int, d as int),
{
    let twice: u64 = 2 * (d as u64);
    if n >= 0 {
        let m: u64 = 2 * (n as u64) + (d as u64);
        (m / twice) as i64
    } else {
        let m: u64 = 2 * ((-n) as u64) + (d as u64);
        -((m / twice) as i64)
    }
}

/// Hue, saturation and lightness of three channels: the hue in degrees, at
/// most 360, saturation and lightness in hundredths, at most 100.
pub fn hsl_of_rgb(r: u8, g: u8, b: u8) -> (out: HSL)
    ensures
        out.h == hue(r as int, g as int, b as int),
        out.s == saturation(r as int, g as int, b as int),
        out.l == lightness(r as int, g as int, b as int),
        out.h <= 360,
        out.s <= 100,
        out.l <= 100,
{
    let r: i64 = r as i64;
    let g: i64 = g as i64;
    let b: i64 = b as i64;
    let mx: i64 = if r >= g && r >= b { r } else if g >= b { g } else { b };
    let mn: i64 = if r <= g && r <= b { r } else if g <= b { g } else { b };
    let d: i64 = mx - mn;
    proof {
        lemma_round_div_bound(100 * (mx + mn), 510, 100);
    }
    let l: i64 = rounded_quotient(100 * (mx + mn), 510);
    if d == 0 {
        return HSL { h: 0, s: 0, l: l as u16 };
    }
    let raw: i64 = if r == mx {
        60 * (g - b)
    } else if g == mx {
        120 * d + 60 * (b - r)
    } else {
        240 * d + 60 * (r - g)
    };
    let turned: i64 = if raw < 0 { raw + 360 * d } else { raw };
    let base: i64 = if mx + mn <= 255 { mx + mn } else { 510 - (mx + mn) };
    proof {
        lemma_round_div_bound(turned as int, d as int, 360);
        lemma_round_div_bound(100 * d, base as int, 100);
    }
    let h: i64 = rounded_quotient(turned, d);
    let s: i64 = rounded_quotient(100 * d, base);
    HSL { h: h as u16, s: s as u16, l: l as u16 }
}

/// The >1-means-percent rule on a value in hundredths.
fn decimal_of(hundredths: u16) -> (out: i64)
    ensures
        out == to_decimal(hundredths as int),
        0 <= out <= 65535,
{
    if hundredths > 100 {
        hundredths as i64
    } else {
        100 * (hundredths as i64)
    }
}

/// One channel between two levels, at an angle in degrees.
fn channel_of_hue(p: i64, q: i64, t: i64) -> (out: i64)
    requires
        -10_000_000_000 <= p <= 10_000_000_000,
        -10_000_000_000 <= q <= 10_000_000_000,
        -120 <= t <= 70_000,
    ensures
        out == hue_to_rgb(p as int, q as int, t as int),
        -1_800_000_000_000 <= out <= 1_800_000_000_000,
{
    let up: i64 = if t < 0 { t + 360 } else { t };
    let t: i64 = if up > 360 { up - 360 } else { up };
    if t < 60 {
        proof {
            lemma_product_bound(q - p, t as int, 20_000_000_000, 60);
        }
        60 * p + (q - p) * t
    } else if t < 180 {
        60 * q
    } else if t < 240 {
        proof {
            lemma_product_bound(q - p, 240 - t, 20_000_000_000, 60);
        }
        60 * p + (q - p) * (240 - t)
    } else {
        60 * p
    }
}

/// The byte of a channel in parts of 6 000 000 000.
fn byte_of(n: i64) -> (out: u8)
    requires
        -1_800_000_000_000 <= n <= 1_800_000_000_000,
    ensures
        out == to_rgb(n as int),
{
    let v: i64 = rounded_quotient(255 * n, 6_000_000_000);
    if v < 0 {
        0
    } else if v > 255 {
        255
    } else {
        v as u8
    }
}

/// The three channels of a hue in degrees and of a saturation and a
/// lightness in hundredths.
pub fn rgb_of(h: u16, s: u16, l: u16) -> (out: RGB)
    ensures
        (out.r as int, out.g as int, out.b as int) == rgb_of_hsl(h as int, s as int, l as int),
{
    let h: i64 = h as i64;
    let s: i64 = decimal_of(s);
    let l: i64 = decimal_of(l);
    if s == 0 {
        let v: u8 = byte_of(600_000 * l);
        return RGB { r: v, g: v, b: v };
    }
    proof {
        lemma_product_bound(l as int, 10000 + s, 65535, 75535);
        lemma_product_bound(l as int, s as int, 65535, 65535);
    }
    let q: i64 = if l < 5000 {
        l * (10000 + s)
    } else {
        10000 * l + 10000 * s - l * s
    };
    let p: i64 = 20000 * l - q;
    let r: u8 = byte_of(channel_of_hue(p, q, h + 120));
    let g: u8 = byte_of(channel_of_hue(p, q, h));
    let b: u8 = byte_of(channel_of_hue(p, q, h - 120));
    RGB { r, g, b }
}

} // verus!

//! From channels to hue, saturation and lightness and back.
//!
//! Rounding to whole degrees and hundredths loses what lies between them, so
//! the way back is exact only for the colors whose hue, saturation and
//! lightness are whole numbers to begin with. For those it gives the very
//! channels it started from.

use vstd::prelude::*;
use vstd::arithmetic::div_mod::lemma_fundamental_div_mod;
use vstd::arithmetic::div_mod::lemma_fundamental_div_mod_converse;
use crate::hsl::{
    hue, hue_scaled, is_exact, level_at, lightness, lower_level, max3, min3, rgb_of_hsl, round_div,
    saturation, saturation_base, spread, to_rgb, upper_level, wrap,
};

verus! {

/// A quotient without remainder is its own rounding.
proof fn lemma_round_div_exact(n: int, d: int)
    requires
        d > 0,
        n >= 0,
        n % d == 0,
    ensures
        round_div(n, d) == n / d,
        (n / d) * d == n,
        n / d >= 0,
{
    let k = n / d;
    lemma_fundamental_div_mod(n, d);
    assert(k * d == d * k) by (nonlinear_arith);
    assert(k >= 0) by (nonlinear_arith)
        requires
            k * d == n,
            n >= 0,
            d > 0,
    ;
    assert(2 * n + d == k * (2 * d) + d) by (nonlinear_arith)
        requires
            k * d == n,
    ;
    lemma_fundamental_div_mod_converse(2 * n + d, 2 * d, k, d);
}

/// The rounding of a whole multiple of the divisor.
proof fn lemma_round_div_multiple(k: int, d: int)
    requires
        d > 0,
        k >= 0,
    ensures
        round_div(k * d, d) == k,
{
    assert(k * d >= 0) by (nonlinear_arith)
        requires
            k >= 0,
            d > 0,
    ;
    assert(2 * (k * d) + d == k * (2 * d) + d) by (nonlinear_arith);
    lemma_fundamental_div_mod_converse(2 * (k * d) + d, 2 * d, k, d);
}

/// Bounds on a factor from bounds on its product with a positive number.
proof fn lemma_factor_bounds(h: int, d: int, lo: int, hi: int)
    by (nonlinear_arith)
    requires
        d > 0,
    ensures
        lo * d <= h * d ==> lo <= h,
        lo * d < h * d ==> lo < h,
        h * d <= hi * d ==> h <= hi,
        h * d < hi * d ==> h < hi,
{
}

/// On a rising or level stretch: the spread times an angle `t`, which is the
/// hue moved by `c`.
proof fn lemma_rising(h: int, d: int, t: int, c: int, x: int)
    by (nonlinear_arith)
    requires
        t == h + c,
        h * d + c * d == 60 * x,
    ensures
        d * t == 60 * x,
{
}

/// On a falling or level stretch: the spread times what an angle `t`, which
/// is the hue moved by `c`, lacks to two thirds of the circle.
proof fn lemma_falling(h: int, d: int, t: int, c: int, x: int)
    by (nonlinear_arith)
    requires
        t == h + c,
        (240 - c) * d - h * d == 60 * x,
    ensures
        d * (240 - t) == 60 * x,
{
}

/// With exact saturation and lightness the two levels are the largest and
/// the smallest channel.
proof fn lemma_levels(l: int, s: int, mx: int, mn: int)
    requires
        0 <= mn < mx <= 255,
        0 <= l <= 100,
        0 < s <= 100,
        510 * l == 100 * (mx + mn),
        mx + mn <= 255 ==> s * (mx + mn) == 100 * (mx - mn),
        mx + mn > 255 ==> s * (510 - (mx + mn)) == 100 * (mx - mn),
    ensures
        255 * upper_level(100 * s, 100 * l) == 100_000_000 * mx,
        255 * lower_level(100 * s, 100 * l) == 100_000_000 * mn,
{
    let sum = mx + mn;
    let d = mx - mn;
    let q = upper_level(100 * s, 100 * l);
    if 100 * l < 5000 {
        assert(sum < 255);
        assert(255 * ((100 * l) * (10000 + 100 * s)) == 100_000_000 * mx) by (nonlinear_arith)
            requires
                255 * l == 50 * sum,
                s * sum == 100 * d,
                sum + d == 2 * mx,
        ;
    } else {
        assert(sum >= 255);
        assert(s * (510 - sum) == 100 * d);
        assert(255 * (10000 * (100 * l) + 10000 * (100 * s) - (100 * l) * (100 * s)) == 100_000_000
            * mx) by (nonlinear_arith)
            requires
                255 * l == 50 * sum,
                s * (510 - sum) == 100 * d,
                sum + d == 2 * mx,
        ;
    }
    assert(255 * q == 100_000_000 * mx);
}

/// A channel that lies where its angle says is what the way back gives.
proof fn lemma_channel(p: int, q: int, t: int, x: int, mx: int, mn: int)
    requires
        0 <= mn <= x <= mx <= 255,
        255 * q == 100_000_000 * mx,
        255 * p == 100_000_000 * mn,
        t < 60 ==> (mx - mn) * t == 60 * (x - mn),
        60 <= t < 180 ==> x == mx,
        180 <= t < 240 ==> (mx - mn) * (240 - t) == 60 * (x - mn),
        240 <= t ==> x == mn,
    ensures
        to_rgb(level_at(p, q, t)) == x,
{
    let n = level_at(p, q, t);
    let d = mx - mn;
    if t < 60 {
        assert(255 * (60 * p + (q - p) * t) == 6_000_000_000 * x) by (nonlinear_arith)
            requires
                255 * q == 100_000_000 * mx,
                255 * p == 100_000_000 * mn,
                (mx - mn) * t == 60 * (x - mn),
        ;
    } else if t < 180 {
    } else if t < 240 {
        assert(255 * (60 * p + (q - p) * (240 - t)) == 6_000_000_000 * x) by (nonlinear_arith)
            requires
                255 * q == 100_000_000 * mx,
                255 * p == 100_000_000 * mn,
                (mx - mn) * (240 - t) == 60 * (x - mn),
        ;
    } else {
    }
    assert(255 * n == x * 6_000_000_000);
    lemma_round_div_multiple(x, 6_000_000_000);
}

/// For three channels whose hue, saturation and lightness are whole numbers
/// of degrees and hundredths without any rounding, the way back from hue,
/// saturation and lightness gives the three channels again.
pub proof fn lemma_round_trip(r: int, g: int, b: int)
    requires
        0 <= r <= 255,
        0 <= g <= 255,
        0 <= b <= 255,
        is_exact(r, g, b),
    ensures
        rgb_of_hsl(hue(r, g, b), saturation(r, g, b), lightness(r, g, b)) == (r, g, b),
{
    let mx = max3(r, g, b);
    let mn = min3(r, g, b);
    let d = spread(r, g, b);
    let sum = mx + mn;
    let l = lightness(r, g, b);
    lemma_round_div_exact(100 * sum, 510);
    assert(510 * l == 100 * sum);
    assert(0 <= l <= 100);
    if d == 0 {
        assert(255 * (600_000 * (100 * l)) == mx * 6_000_000_000);
        lemma_round_div_multiple(mx, 6_000_000_000);
    } else {
        let base = saturation_base(r, g, b);
        let scaled = hue_scaled(r, g, b);
        let h = hue(r, g, b);
        let s = saturation(r, g, b);
        lemma_round_div_exact(100 * d, base);
        lemma_round_div_exact(scaled, d);
        assert(h * d == scaled);
        assert(s * base == 100 * d);
        lemma_factor_bounds(s, base, 0, 100);
        assert(0 < s <= 100);
        lemma_levels(l, s, mx, mn);
        let q = upper_level(100 * s, 100 * l);
        let p = lower_level(100 * s, 100 * l);
        lemma_factor_bounds(h, d, 0, 60);
        lemma_factor_bounds(h, d, 60, 120);
        lemma_factor_bounds(h, d, 120, 180);
        lemma_factor_bounds(h, d, 180, 240);
        lemma_factor_bounds(h, d, 240, 300);
        lemma_factor_bounds(h, d, 300, 360);
        let tr = wrap(h + 120);
        let tg = wrap(h);
        let tb = wrap(h - 120);
        if r == mx {
            if g >= b {
                assert(mn == b && scaled == 60 * (g - b));
                assert(0 <= h <= 60);
                assert(tr == h + 120 && tg == h && tb == h + 240);
                lemma_rising(h, d, tg, 0, g - mn);
                if h == 60 {
                    assert(h * d == 60 * d) by (nonlinear_arith)
                        requires
                            h == 60,
                    ;
                    lemma_falling(h, d, tr, 120, r - mn);
                }
            } else {
                assert(mn == g && scaled == 60 * (g - b) + 360 * d);
                assert(300 <= h < 360);
                assert(tr == h - 240 && tg == h && tb == h - 120);
                lemma_falling(h, d, tb, -120, b - mn);
            }
        } else if g == mx {
            assert(scaled == 120 * d + 60 * (b - r));
            if b >= r {
                assert(mn == r);
                assert(120 <= h <= 180);
                assert(tr == h + 120 && tg == h && tb == h - 120);
                lemma_rising(h, d, tb, -120, b - mn);
                if h == 180 {
                    assert(h * d == 180 * d) by (nonlinear_arith)
                        requires
                            h == 180,
                    ;
                    lemma_falling(h, d, tg, 0, g - mn);
                }
            } else {
                assert(mn == b);
                assert(60 < h < 120);
                assert(tr == h + 120 && tg == h && tb == h + 240);
                lemma_falling(h, d, tr, 120, r - mn);
            }
        } else {
            assert(b == mx && scaled == 240 * d + 60 * (r - g));
            if r >= g {
                assert(mn == g);
                assert(240 <= h < 300);
                assert(tg == h && tb == h - 120);
                if h == 240 {
                    assert(tr == 360);
                    assert(r == mn) by (nonlinear_arith)
                        requires
                            h * d == 240 * d + 60 * (r - g),
                            h == 240,
                            mn == g,
                    ;
                } else {
                    assert(tr == h - 240);
                    lemma_rising(h, d, tr, -240, r - mn);
                }
            } else {
                assert(mn == r);
                assert(180 < h < 240);
                assert(tr == h + 120 && tg == h && tb == h - 120);
                lemma_falling(h, d, tg, 0, g - mn);
            }
        }
        lemma_channel(p, q, tr, r, mx, mn);
        lemma_channel(p, q, tg, g, mx, mn);
        lemma_channel(p, q, tb, b, mx, mn);
    }
}

} // verus!

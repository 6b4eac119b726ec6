//! Color values and the RGB/HSL conversions every stage relies on.
//!
//! Storage and output are 8-bit RGB; perceptual work happens in HSL
//! with the hue in whole degrees `[0, 360)` and saturation and
//! lightness in thousandths `[0, 1000]`.

use crate::num::{
    abs_diff_u8, clamp_u32, lemma_scaled_div_le, spec_abs_diff, spec_clamp,
};
use vstd::arithmetic::div_mod::{lemma_div_is_ordered, lemma_div_multiples_vanish};
use vstd::prelude::*;

verus! {

/// An 8-bit RGB triple; the stored and rendered form of every color.
#[derive(Clone, Copy, Debug, PartialEq, Eq, Structural)]
pub struct Rgb {
    pub r: u8,
    pub g: u8,
    pub b: u8,
}

/// Hue in degrees, saturation and lightness in thousandths.
#[derive(Clone, Copy, Debug, PartialEq, Eq, Structural)]
pub struct Hsl {
    pub h: u32,
    pub s: u32,
    pub l: u32,
}

/// Every pipeline stage keeps HSL values in this window.
pub open spec fn hsl_wf(x: Hsl) -> bool {
    x.h < 360 && x.s <= 1000 && x.l <= 1000
}

pub open spec fn spec_max3(a: int, b: int, c: int) -> int {
    if a >= b && a >= c {
        a
    } else if b >= c {
        b
    } else {
        c
    }
}

pub open spec fn spec_min3(a: int, b: int, c: int) -> int {
    if a <= b && a <= c {
        a
    } else if b <= c {
        b
    } else {
        c
    }
}

/// Lightness of an RGB triple, in thousandths.
pub open spec fn spec_lightness_of(c: Rgb) -> int {
    let mx = spec_max3(c.r as int, c.g as int, c.b as int);
    let mn = spec_min3(c.r as int, c.g as int, c.b as int);
    (mx + mn) * 1000 / 510
}

/// Saturation of an RGB triple, in thousandths.
pub open spec fn spec_saturation_of(c: Rgb) -> int {
    let mx = spec_max3(c.r as int, c.g as int, c.b as int);
    let mn = spec_min3(c.r as int, c.g as int, c.b as int);
    if mx == mn {
        0
    } else {
        let d = mx - mn;
        let denom = if mx + mn <= 255 {
            mx + mn
        } else {
            510 - (mx + mn)
        };
        d * 1000 / denom
    }
}

/// Hue of an RGB triple, in degrees; 0 for grays.  When two channels
/// tie for the maximum, red wins over green and green over blue.
pub open spec fn spec_hue_of(c: Rgb) -> int {
    let r = c.r as int;
    let g = c.g as int;
    let b = c.b as int;
    let mx = spec_max3(r, g, b);
    let mn = spec_min3(r, g, b);
    if mx == mn {
        0
    } else {
        let d = mx - mn;
        if mx == r {
            if g >= b {
                60 * (g - b) / d
            } else {
                (360 - 60 * (b - g) / d) % 360
            }
        } else if mx == g {
            if b >= r {
                120 + 60 * (b - r) / d
            } else {
                120 - 60 * (r - b) / d
            }
        } else {
            if r >= g {
                240 + 60 * (r - g) / d
            } else {
                240 - 60 * (g - r) / d
            }
        }
    }
}

pub open spec fn spec_rgb_to_hsl(c: Rgb) -> Hsl {
    Hsl {
        h: spec_hue_of(c) as u32,
        s: spec_saturation_of(c) as u32,
        l: spec_lightness_of(c) as u32,
    }
}

proof fn lemma_rgb_to_hsl_ranges(c: Rgb)
    ensures
        0 <= spec_hue_of(c) < 360,
        0 <= spec_saturation_of(c) <= 1000,
        0 <= spec_lightness_of(c) <= 1000,
{
    let r = c.r as int;
    let g = c.g as int;
    let b = c.b as int;
    let mx = spec_max3(r, g, b);
    let mn = spec_min3(r, g, b);
    lemma_div_is_ordered((mx + mn) * 1000, 510000, 510);
    lemma_div_is_ordered(0, (mx + mn) * 1000, 510);
    if mx != mn {
        let d = mx - mn;
        let denom = if mx + mn <= 255 {
            mx + mn
        } else {
            510 - (mx + mn)
        };
        lemma_scaled_div_le(d, denom, 1000);
        if mx == r {
            if g >= b {
                lemma_scaled_div_le(g - b, d, 60);
            } else {
                lemma_scaled_div_le(b - g, d, 60);
            }
        } else if mx == g {
            if b >= r {
                lemma_scaled_div_le(b - r, d, 60);
            } else {
                lemma_scaled_div_le(r - b, d, 60);
            }
        } else {
            if r >= g {
                lemma_scaled_div_le(r - g, d, 60);
            } else {
                lemma_scaled_div_le(g - r, d, 60);
            }
        }
    }
}

fn max3(a: u8, b: u8, c: u8) -> (r: u32)
    ensures
        r == spec_max3(a as int, b as int, c as int),
{
    if a >= b && a >= c {
        a as u32
    } else if b >= c {
        b as u32
    } else {
        c as u32
    }
}

fn min3(a: u8, b: u8, c: u8) -> (r: u32)
    ensures
        r == spec_min3(a as int, b as int, c as int),
{
    if a <= b && a <= c {
        a as u32
    } else if b <= c {
        b as u32
    } else {
        c as u32
    }
}

/// Convert an RGB triple to HSL.
pub fn rgb_to_hsl(c: Rgb) -> (x: Hsl)
    ensures
        x == spec_rgb_to_hsl(c),
        hsl_wf(x),
{
    proof {
        lemma_rgb_to_hsl_ranges(c);
    }
    let r = c.r;
    let g = c.g;
    let b = c.b;
    let mx = max3(r, g, b);
    let mn = min3(r, g, b);
    let l = ((mx + mn) * 1000) / 510;
    if mx == mn {
        Hsl { h: 0, s: 0, l }
    } else {
        let d = mx - mn;
        let denom = if mx + mn <= 255 {
            mx + mn
        } else {
            510 - (mx + mn)
        };
        let s = (d * 1000) / denom;
        let h: u32 = if mx == r as u32 {
            if g >= b {
                (60 * ((g - b) as u32)) / d
            } else {
                proof {
                    lemma_scaled_div_le((b - g) as int, d as int, 60);
                }
                (360 - (60 * ((b - g) as u32)) / d) % 360
            }
        } else if mx == g as u32 {
            if b >= r {
                120 + (60 * ((b - r) as u32)) / d
            } else {
                120 - (60 * ((r - b) as u32)) / d
            }
        } else {
            if r >= g {
                240 + (60 * ((r - g) as u32)) / d
            } else {
                240 - (60 * ((g - r) as u32)) / d
            }
        };
        Hsl { h, s, l }
    }
}

/// Chroma of an HSL value, in thousandths.
pub open spec fn spec_chroma(x: Hsl) -> int {
    let spread = 1000 - spec_abs_diff(2 * x.l, 1000);
    spread * x.s / 1000
}

/// One RGB channel in thousandths, before the lightness offset: the
/// channel pattern follows the 60-degree sector of the hue.
pub open spec fn spec_sector_levels(x: Hsl) -> (int, int, int) {
    let chroma = spec_chroma(x);
    let hp = (x.h as int) % 120;
    let second = chroma * (60 - spec_abs_diff(hp, 60)) / 60;
    let sector = (x.h as int) / 60;
    if sector == 0 {
        (chroma, second, 0)
    } else if sector == 1 {
        (second, chroma, 0)
    } else if sector == 2 {
        (0, chroma, second)
    } else if sector == 3 {
        (0, second, chroma)
    } else if sector == 4 {
        (second, 0, chroma)
    } else {
        (chroma, 0, second)
    }
}

pub open spec fn spec_level_to_byte(v: int, m: int) -> int {
    (v + m) * 255 / 1000
}

pub open spec fn spec_hsl_to_rgb(x: Hsl) -> Rgb {
    let chroma = spec_chroma(x);
    let m = (x.l as int) - chroma / 2;
    let (rv, gv, bv) = spec_sector_levels(x);
    Rgb {
        r: spec_level_to_byte(rv, m) as u8,
        g: spec_level_to_byte(gv, m) as u8,
        b: spec_level_to_byte(bv, m) as u8,
    }
}

proof fn lemma_hsl_to_rgb_ranges(x: Hsl)
    requires
        hsl_wf(x),
    ensures
        0 <= spec_chroma(x) <= 1000,
        spec_chroma(x) <= 2 * x.l,
        spec_chroma(x) <= 2000 - 2 * x.l,
        0 <= (x.l as int) - spec_chroma(x) / 2,
        ({
            let (rv, gv, bv) = spec_sector_levels(x);
            let m = (x.l as int) - spec_chroma(x) / 2;
            &&& 0 <= rv <= spec_chroma(x)
            &&& 0 <= gv <= spec_chroma(x)
            &&& 0 <= bv <= spec_chroma(x)
            &&& 0 <= spec_level_to_byte(rv, m) <= 255
            &&& 0 <= spec_level_to_byte(gv, m) <= 255
            &&& 0 <= spec_level_to_byte(bv, m) <= 255
        }),
{
    let l = x.l as int;
    let s = x.s as int;
    let spread = 1000 - spec_abs_diff(2 * l, 1000);
    let chroma = spec_chroma(x);
    assert(0 <= spread <= 1000);
    assert(spread <= 2 * l);
    assert(spread <= 2000 - 2 * l);
    lemma_scaled_div_le(s, 1000, spread);
    assert(chroma <= spread);
    lemma_scaled_div_le(spread, 1000, s);
    assert(0 <= chroma);
    let m = l - chroma / 2;
    lemma_div_is_ordered(chroma, 2 * l, 2);
    lemma_div_multiples_vanish(l, 2);
    assert((2 * l) / 2 == l);
    assert(chroma / 2 <= l);
    // the ceiling half of chroma still fits under the headroom 1000 - l
    assert(chroma == 2 * (chroma / 2) + chroma % 2);
    assert(chroma - chroma / 2 <= 1000 - l);
    let hp = (x.h as int) % 120;
    assert(0 <= hp < 120);
    let fall = 60 - spec_abs_diff(hp, 60);
    assert(0 <= fall <= 60);
    lemma_scaled_div_le(fall, 60, chroma);
    let second = chroma * fall / 60;
    assert(chroma * fall == fall * chroma);
    assert(second <= chroma);
    lemma_div_is_ordered(0, chroma * fall, 60);
    assert(0 <= second);
    let (rv, gv, bv) = spec_sector_levels(x);
    assert(rv + m <= 1000 && gv + m <= 1000 && bv + m <= 1000);
    lemma_div_is_ordered((rv + m) * 255, 255000, 1000);
    lemma_div_is_ordered((gv + m) * 255, 255000, 1000);
    lemma_div_is_ordered((bv + m) * 255, 255000, 1000);
    lemma_div_is_ordered(0, (rv + m) * 255, 1000);
    lemma_div_is_ordered(0, (gv + m) * 255, 1000);
    lemma_div_is_ordered(0, (bv + m) * 255, 1000);
}

/// Convert an HSL value back to an RGB triple.
pub fn hsl_to_rgb(x: Hsl) -> (c: Rgb)
    requires
        hsl_wf(x),
    ensures
        c == spec_hsl_to_rgb(x),
{
    proof {
        lemma_hsl_to_rgb_ranges(x);
        assert(x.s * (1000 - spec_abs_diff(2 * x.l, 1000)) <= 1000000) by (nonlinear_arith)
            requires
                x.s <= 1000,
                0 <= 1000 - spec_abs_diff(2 * x.l, 1000) <= 1000,
        ;
    }
    let spread: u32 = 1000 - if 2 * x.l >= 1000 {
        2 * x.l - 1000
    } else {
        1000 - 2 * x.l
    };
    let chroma: u32 = (spread * x.s) / 1000;
    let hp: u32 = x.h % 120;
    let fall: u32 = 60 - if hp >= 60 {
        hp - 60
    } else {
        60 - hp
    };
    proof {
        assert(chroma * fall <= 60000) by (nonlinear_arith)
            requires
                chroma <= 1000,
                fall <= 60,
        ;
    }
    let second: u32 = (chroma * fall) / 60;
    let m: u32 = x.l - chroma / 2;
    let sector: u32 = x.h / 60;
    let (rv, gv, bv): (u32, u32, u32) = if sector == 0 {
        (chroma, second, 0)
    } else if sector == 1 {
        (second, chroma, 0)
    } else if sector == 2 {
        (0, chroma, second)
    } else if sector == 3 {
        (0, second, chroma)
    } else if sector == 4 {
        (second, 0, chroma)
    } else {
        (chroma, 0, second)
    };
    Rgb {
        r: (((rv + m) * 255) / 1000) as u8,
        g: (((gv + m) * 255) / 1000) as u8,
        b: (((bv + m) * 255) / 1000) as u8,
    }
}

/// Vibrance in thousandths: channel spread over the maximum channel.
pub open spec fn spec_vibrance(c: Rgb) -> int {
    let mx = spec_max3(c.r as int, c.g as int, c.b as int);
    let mn = spec_min3(c.r as int, c.g as int, c.b as int);
    if mx == 0 {
        0
    } else {
        (mx - mn) * 1000 / mx
    }
}

/// Cheap colorfulness proxy used to rank palette entries.
pub fn vibrance(c: Rgb) -> (r: u32)
    ensures
        r == spec_vibrance(c),
        r <= 1000,
{
    let mx = max3(c.r, c.g, c.b);
    let mn = min3(c.r, c.g, c.b);
    if mx == 0 {
        0
    } else {
        proof {
            lemma_scaled_div_le(mx - mn, mx as int, 1000);
        }
        ((mx - mn) * 1000) / mx
    }
}

/// Perceptually weighted channel distance, in hundredths: the channel
/// differences weigh 0.30, 0.59 and 0.11.
pub open spec fn spec_color_distance(a: Rgb, b: Rgb) -> int {
    spec_abs_diff(a.r as int, b.r as int) * 30 + spec_abs_diff(a.g as int, b.g as int) * 59
        + spec_abs_diff(a.b as int, b.b as int) * 11
}

/// Diversity-screening distance; 100 here stands for one unit of the
/// unscaled metric, so a threshold of 50.0 is the value 5000.
pub fn color_distance(a: &Rgb, b: &Rgb) -> (r: u32)
    ensures
        r == spec_color_distance(*a, *b),
        r <= 25500,
{
    abs_diff_u8(a.r, b.r) * 30 + abs_diff_u8(a.g, b.g) * 59 + abs_diff_u8(a.b, b.b) * 11
}

/// Squared Euclidean RGB distance; comparing it against a squared
/// threshold avoids the square root.
pub open spec fn spec_color_distance_sq(a: Rgb, b: Rgb) -> int {
    let dr = spec_abs_diff(a.r as int, b.r as int);
    let dg = spec_abs_diff(a.g as int, b.g as int);
    let db = spec_abs_diff(a.b as int, b.b as int);
    dr * dr + dg * dg + db * db
}

pub fn color_distance_sq(a: &Rgb, b: &Rgb) -> (r: u32)
    ensures
        r == spec_color_distance_sq(*a, *b),
        r <= 195075,
{
    let dr = abs_diff_u8(a.r, b.r);
    let dg = abs_diff_u8(a.g, b.g);
    let db = abs_diff_u8(a.b, b.b);
    proof {
        assert(dr * dr <= 65025 && dg * dg <= 65025 && db * db <= 65025) by (nonlinear_arith)
            requires
                dr <= 255,
                dg <= 255,
                db <= 255,
        ;
    }
    dr * dr + dg * dg + db * db
}

} // verus!

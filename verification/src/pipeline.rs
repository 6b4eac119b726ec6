//! The perceptual stages between extraction and slot mapping, all over
//! HSL values: saturation-weighted dominant hue, harmonization toward
//! a hue relationship, style hue boosts, target-hue shifting, the
//! six-sector coverage guarantee and the mode-specific style
//! adjustment.

use crate::color::{hsl_wf, Hsl};
use crate::hue::{
    atan2_deg, closest_target, cos_milli, hue_diff, hue_dist, pull_toward, rotate_hue,
    sin_milli, spec_atan2_deg, spec_cos_milli, spec_hue_diff, spec_hue_dist, spec_pull_toward,
    spec_rotate_hue, spec_sin_half, spec_sin_milli,
};
use crate::num::{clamp_u32, scale_capped, spec_clamp, spec_scale_capped, lemma_scaled_div_le};
use crate::style::{ColorHarmony, HueBoost, PaletteStyle, StyleModel, style_wf};
use vstd::arithmetic::div_mod::{lemma_div_is_ordered, lemma_div_multiples_vanish};
use vstd::prelude::*;

verus! {

/// Every entry keeps the HSL window.
pub open spec fn palette_wf(p: Seq<Hsl>) -> bool {
    forall|i: int| 0 <= i < p.len() ==> hsl_wf(#[trigger] p[i])
}

proof fn lemma_sin_milli_range(h: int)
    requires
        0 <= h < 360,
    ensures
        -1000 <= spec_sin_milli(h) <= 1000,
{
    let x = if h <= 180 {
        h
    } else {
        h - 180
    };
    assert(0 <= x * (180 - x) <= 8100) by (nonlinear_arith)
        requires
            0 <= x <= 180,
    ;
    let p = x * (180 - x);
    lemma_div_is_ordered(4000 * p, 1000 * (40500 - p), 40500 - p);
    lemma_div_multiples_vanish(1000, 40500 - p);
    lemma_div_is_ordered(0, 4000 * p, 40500 - p);
}

proof fn lemma_cos_milli_range(h: int)
    requires
        0 <= h < 360,
    ensures
        -1000 <= spec_cos_milli(h) <= 1000,
{
    lemma_sin_milli_range((h + 90) % 360);
}

/// Sine/cosine component sums of a palette's hues, each weighted by
/// saturation and, when `ranked`, by a descending rank weight.
pub open spec fn spec_hue_sums(p: Seq<Hsl>, n: int, ranked: bool) -> (int, int)
    decreases p.len(),
{
    if p.len() == 0 {
        (0, 0)
    } else {
        let prev = spec_hue_sums(p.drop_last(), n, ranked);
        let c = p.last();
        let w = if ranked {
            (n - (p.len() - 1)) * c.s
        } else {
            c.s as int
        };
        (prev.0 + spec_sin_milli(c.h as int) * w, prev.1 + spec_cos_milli(c.h as int) * w)
    }
}

proof fn lemma_hue_sums_bound(p: Seq<Hsl>, n: int, ranked: bool)
    requires
        palette_wf(p),
        p.len() <= n <= 2000,
    ensures
        -(p.len() * 2000000000) <= spec_hue_sums(p, n, ranked).0 <= p.len() * 2000000000,
        -(p.len() * 2000000000) <= spec_hue_sums(p, n, ranked).1 <= p.len() * 2000000000,
    decreases p.len(),
{
    if p.len() > 0 {
        assert(palette_wf(p.drop_last()));
        lemma_hue_sums_bound(p.drop_last(), n, ranked);
        let c = p.last();
        assert(hsl_wf(c));
        lemma_sin_milli_range(c.h as int);
        lemma_cos_milli_range(c.h as int);
        let w = if ranked {
            (n - (p.len() - 1)) * c.s
        } else {
            c.s as int
        };
        assert(0 <= w <= 2000000) by (nonlinear_arith)
            requires
                w == if ranked {
                    (n - (p.len() - 1)) * c.s
                } else {
                    c.s as int
                },
                c.s <= 1000,
                1 <= n - (p.len() - 1) <= 2000,
        ;
        assert(-2000000000 <= spec_sin_milli(c.h as int) * w <= 2000000000)
            by (nonlinear_arith)
            requires
                -1000 <= spec_sin_milli(c.h as int) <= 1000,
                0 <= w <= 2000000,
        ;
        assert(-2000000000 <= spec_cos_milli(c.h as int) * w <= 2000000000)
            by (nonlinear_arith)
            requires
                -1000 <= spec_cos_milli(c.h as int) <= 1000,
                0 <= w <= 2000000,
        ;
        assert((p.len() - 1) * 2000000000 + 2000000000 == p.len() * 2000000000)
            by (nonlinear_arith)
        ;
    }
}

/// The palette's circular-mean hue: `atan2` of the weighted component
/// sums, or 0 when all weight vanishes.
pub open spec fn spec_dominant_hue(p: Seq<Hsl>, ranked: bool) -> int {
    let s = spec_hue_sums(p, p.len() as int, ranked);
    if s.0 == 0 && s.1 == 0 {
        0
    } else {
        spec_atan2_deg(s.0, s.1)
    }
}

/// Saturation-weighted circular mean of the palette's hues; `ranked`
/// adds the descending rank weight the harmonizer uses.
pub fn dominant_hue(palette: &Vec<Hsl>, ranked: bool) -> (r: u32)
    requires
        palette@.len() <= 2000,
        palette_wf(palette@),
    ensures
        r == spec_dominant_hue(palette@, ranked),
        r < 360,
{
    let n = palette.len();
    let mut sy: i64 = 0;
    let mut sx: i64 = 0;
    let mut i: usize = 0;
    proof {
        assert(palette@.take(0) =~= Seq::<Hsl>::empty());
    }
    while i < n
        invariant
            0 <= i <= n,
            n == palette@.len() <= 2000,
            palette_wf(palette@),
            sy == spec_hue_sums(palette@.take(i as int), n as int, ranked).0,
            sx == spec_hue_sums(palette@.take(i as int), n as int, ranked).1,
            -(i * 2000000000) <= sy <= i * 2000000000,
            -(i * 2000000000) <= sx <= i * 2000000000,
        decreases n - i,
    {
        proof {
            assert(palette@.take(i + 1).drop_last() =~= palette@.take(i as int));
            assert(palette@.take(i + 1).last() == palette@[i as int]);
            assert(palette_wf(palette@.take(i + 1)));
            lemma_hue_sums_bound(palette@.take(i + 1), n as int, ranked);
        }
        let c = palette[i];
        proof {
            assert(((n - i) as int) * (c.s as int) <= 2000000) by (nonlinear_arith)
                requires
                    1 <= n - i <= 2000,
                    c.s <= 1000,
            ;
        }
        let w: i64 = if ranked {
            ((n - i) as i64) * (c.s as i64)
        } else {
            c.s as i64
        };
        let sv: i64 = sin_milli(c.h) as i64;
        let cv: i64 = cos_milli(c.h) as i64;
        proof {
            assert(0 <= w <= 2000000) by (nonlinear_arith)
                requires
                    w == if ranked {
                        (n - i) * (c.s as int)
                    } else {
                        c.s as int
                    },
                    c.s <= 1000,
                    1 <= n - i <= 2000,
            ;
            assert(-2000000000 <= sv * w <= 2000000000) by (nonlinear_arith)
                requires
                    -1000 <= sv <= 1000,
                    0 <= w <= 2000000,
            ;
            assert(-2000000000 <= cv * w <= 2000000000) by (nonlinear_arith)
                requires
                    -1000 <= cv <= 1000,
                    0 <= w <= 2000000,
            ;
        }
        sy = sy + sv * w;
        sx = sx + cv * w;
        i = i + 1;
    }
    proof {
        assert(palette@.take(n as int) =~= palette@);
    }
    if sy == 0 && sx == 0 {
        0
    } else {
        atan2_deg(sy, sx)
    }
}

/// The target hues a harmony variant pulls toward, anchored on the
/// dominant hue.
pub open spec fn spec_harmony_targets(harmony: ColorHarmony, dom: int) -> Seq<u32> {
    match harmony {
        ColorHarmony::Triadic => seq![
            dom as u32,
            spec_rotate_hue(dom, 120) as u32,
            spec_rotate_hue(dom, 240) as u32,
        ],
        ColorHarmony::SplitComplementary => seq![
            dom as u32,
            spec_rotate_hue(dom, 150) as u32,
            spec_rotate_hue(dom, 210) as u32,
        ],
        ColorHarmony::Complementary => seq![dom as u32, spec_rotate_hue(dom, 180) as u32],
        _ => Seq::empty(),
    }
}

/// How strongly each harmony pulls, in percent.
pub open spec fn spec_harmony_pull(harmony: ColorHarmony) -> int {
    match harmony {
        ColorHarmony::Triadic => 40,
        ColorHarmony::SplitComplementary => 35,
        ColorHarmony::Complementary => 45,
        _ => 0,
    }
}

/// One color after harmonization: analogous colors are pulled halfway
/// back toward a 30-degree window around the dominant hue; the other
/// variants pull toward the angularly closest target.
pub open spec fn spec_harmonize_color(c: Hsl, harmony: ColorHarmony, dom: int) -> Hsl {
    match harmony {
        ColorHarmony::Extracted => c,
        ColorHarmony::Analogous => {
            let d = spec_hue_diff(c.h as int, dom);
            let ad = if d >= 0 {
                d
            } else {
                -d
            };
            if ad > 30 {
                let shift = (ad - 30) / 2;
                let delta = if d >= 0 {
                    -shift
                } else {
                    shift
                };
                Hsl { h: spec_rotate_hue(c.h as int, delta) as u32, s: c.s, l: c.l }
            } else {
                c
            }
        },
        _ => {
            let ts = spec_harmony_targets(harmony, dom);
            let idx = crate::hue::spec_closest_target(ts, c.h as int);
            Hsl {
                h: spec_pull_toward(
                    c.h as int,
                    ts[idx] as int,
                    spec_harmony_pull(harmony),
                ) as u32,
                s: c.s,
                l: c.l,
            }
        },
    }
}

fn harmonize_color(c: Hsl, harmony: ColorHarmony, dom: u32) -> (r: Hsl)
    requires
        hsl_wf(c),
        dom < 360,
    ensures
        r == spec_harmonize_color(c, harmony, dom as int),
        hsl_wf(r),
{
    match harmony {
        ColorHarmony::Extracted => c,
        ColorHarmony::Analogous => {
            let d = hue_diff(c.h, dom);
            let ad: u32 = if d >= 0 {
                d as u32
            } else {
                (-d) as u32
            };
            if ad > 30 {
                let shift = (ad - 30) / 2;
                let delta: i32 = if d >= 0 {
                    -(shift as i32)
                } else {
                    shift as i32
                };
                Hsl { h: rotate_hue(c.h, delta), s: c.s, l: c.l }
            } else {
                c
            }
        },
        ColorHarmony::Triadic => {
            let mut ts: Vec<u32> = Vec::new();
            ts.push(dom);
            ts.push(rotate_hue(dom, 120));
            ts.push(rotate_hue(dom, 240));
            proof {
                assert(ts@ =~= spec_harmony_targets(harmony, dom as int));
            }
            let idx = closest_target(&ts, c.h);
            Hsl { h: pull_toward(c.h, ts[idx], 40), s: c.s, l: c.l }
        },
        ColorHarmony::SplitComplementary => {
            let mut ts: Vec<u32> = Vec::new();
            ts.push(dom);
            ts.push(rotate_hue(dom, 150));
            ts.push(rotate_hue(dom, 210));
            proof {
                assert(ts@ =~= spec_harmony_targets(harmony, dom as int));
            }
            let idx = closest_target(&ts, c.h);
            Hsl { h: pull_toward(c.h, ts[idx], 35), s: c.s, l: c.l }
        },
        ColorHarmony::Complementary => {
            let mut ts: Vec<u32> = Vec::new();
            ts.push(dom);
            ts.push(rotate_hue(dom, 180));
            proof {
                assert(ts@ =~= spec_harmony_targets(harmony, dom as int));
            }
            let idx = closest_target(&ts, c.h);
            Hsl { h: pull_toward(c.h, ts[idx], 45), s: c.s, l: c.l }
        },
    }
}

pub open spec fn spec_harmonize(p: Seq<Hsl>, harmony: ColorHarmony, dom: int) -> Seq<Hsl> {
    p.map_values(|c: Hsl| spec_harmonize_color(c, harmony, dom))
}

/// Pull the palette toward the style's harmony relationship.
pub fn harmonize(palette: &Vec<Hsl>, harmony: ColorHarmony, dom: u32) -> (r: Vec<Hsl>)
    requires
        palette_wf(palette@),
        dom < 360,
    ensures
        r@ == spec_harmonize(palette@, harmony, dom as int),
        palette_wf(r@),
        r@.len() == palette@.len(),
{
    let mut r: Vec<Hsl> = Vec::new();
    let mut i: usize = 0;
    while i < palette.len()
        invariant
            0 <= i <= palette@.len(),
            palette_wf(palette@),
            dom < 360,
            r@.len() == i,
            forall|k: int|
                0 <= k < i ==> r@[k] == spec_harmonize_color(
                    #[trigger] palette@[k],
                    harmony,
                    dom as int,
                ) && hsl_wf(r@[k]),
        decreases palette@.len() - i,
    {
        r.push(harmonize_color(palette[i], harmony, dom));
        i = i + 1;
    }
    proof {
        assert(r@ =~= spec_harmonize(palette@, harmony, dom as int));
    }
    r
}

/// Total saturation boost the style grants a hue: each band adds its
/// boost with linear falloff over its range, accumulated additively.
pub open spec fn spec_boost_total(boosts: Seq<HueBoost>, h: int) -> int
    decreases boosts.len(),
{
    if boosts.len() == 0 {
        0
    } else {
        let b = boosts.last();
        let d = spec_hue_dist(h, b.center as int);
        spec_boost_total(boosts.drop_last(), h) + if d <= b.range {
            b.boost * (b.range - d) / b.range as int
        } else {
            0
        }
    }
}

proof fn lemma_boost_total_bound(boosts: Seq<HueBoost>, h: int)
    requires
        forall|i: int|
            0 <= i < boosts.len() ==> (#[trigger] boosts[i]).boost <= 1000
                && 1 <= boosts[i].range,
    ensures
        0 <= spec_boost_total(boosts, h) <= boosts.len() * 1000,
    decreases boosts.len(),
{
    if boosts.len() > 0 {
        lemma_boost_total_bound(boosts.drop_last(), h);
        let b = boosts.last();
        let d = spec_hue_dist(h, b.center as int);
        if d <= b.range {
            lemma_scaled_div_le(b.range - d, b.range as int, b.boost as int);
        }
        assert((boosts.len() - 1) * 1000 + 1000 == boosts.len() * 1000) by (nonlinear_arith);
    }
}

fn boost_total(boosts: &Vec<HueBoost>, h: u32) -> (r: u32)
    requires
        h < 360,
        boosts@.len() <= 16,
        forall|i: int|
            0 <= i < boosts@.len() ==> (#[trigger] boosts@[i]).center < 360
                && 1 <= boosts@[i].range <= 180 && boosts@[i].boost <= 1000,
    ensures
        r == spec_boost_total(boosts@, h as int),
        r <= 16000,
{
    let mut total: u32 = 0;
    let mut i: usize = 0;
    while i < boosts.len()
        invariant
            0 <= i <= boosts@.len() <= 16,
            h < 360,
            forall|k: int|
                0 <= k < boosts@.len() ==> (#[trigger] boosts@[k]).center < 360
                    && 1 <= boosts@[k].range <= 180 && boosts@[k].boost <= 1000,
            total == spec_boost_total(boosts@.take(i as int), h as int),
            total <= i * 1000,
        decreases boosts@.len() - i,
    {
        let b = boosts[i];
        let d = hue_dist(h, b.center);
        proof {
            assert(boosts@.take(i + 1).drop_last() =~= boosts@.take(i as int));
            assert(boosts@.take(i + 1).last() == boosts@[i as int]);
            if d <= b.range {
                lemma_scaled_div_le((b.range - d) as int, b.range as int, b.boost as int);
                assert(b.boost * (b.range - d) <= 1000 * 180) by (nonlinear_arith)
                    requires
                        b.boost <= 1000,
                        0 <= b.range - d <= 180,
                ;
            }
        }
        if d <= b.range {
            total = total + (b.boost * (b.range - d)) / b.range;
        }
        i = i + 1;
    }
    proof {
        assert(boosts@.take(boosts@.len() as int) =~= boosts@);
    }
    total
}

/// One color after the hue booster: saturation raised by the
/// accumulated boost, capped at full saturation.
pub open spec fn spec_boost_color(c: Hsl, boosts: Seq<HueBoost>) -> Hsl {
    let total = spec_boost_total(boosts, c.h as int);
    let s2 = if c.s + total > 1000 {
        1000
    } else {
        c.s + total
    };
    Hsl { h: c.h, s: s2 as u32, l: c.l }
}

pub open spec fn spec_boost_palette(p: Seq<Hsl>, boosts: Seq<HueBoost>) -> Seq<Hsl> {
    p.map_values(|c: Hsl| spec_boost_color(c, boosts))
}

/// Raise saturation selectively inside the style's hue bands.
pub fn boost_hues(palette: &Vec<Hsl>, style: &PaletteStyle) -> (r: Vec<Hsl>)
    requires
        palette_wf(palette@),
        style_wf(style),
    ensures
        r@ == spec_boost_palette(palette@, style.hue_boosts@),
        palette_wf(r@),
        r@.len() == palette@.len(),
{
    let mut r: Vec<Hsl> = Vec::new();
    let mut i: usize = 0;
    while i < palette.len()
        invariant
            0 <= i <= palette@.len(),
            palette_wf(palette@),
            style_wf(style),
            r@.len() == i,
            forall|k: int|
                0 <= k < i ==> r@[k] == spec_boost_color(
                    #[trigger] palette@[k],
                    style.hue_boosts@,
                ) && hsl_wf(r@[k]),
        decreases palette@.len() - i,
    {
        let c = palette[i];
        let total = boost_total(&style.hue_boosts, c.h);
        let s2 = if c.s + total > 1000 {
            1000
        } else {
            c.s + total
        };
        r.push(Hsl { h: c.h, s: s2, l: c.l });
        i = i + 1;
    }
    proof {
        assert(r@ =~= spec_boost_palette(palette@, style.hue_boosts@));
    }
    r
}

/// One color after the target-hue shifter: rotated a quarter of the
/// way toward the nearest named target; identity without targets.
pub open spec fn spec_shift_color(c: Hsl, targets: Seq<u32>) -> Hsl {
    if targets.len() == 0 {
        c
    } else {
        let idx = crate::hue::spec_closest_target(targets, c.h as int);
        Hsl { h: spec_pull_toward(c.h as int, targets[idx] as int, 25) as u32, s: c.s, l: c.l }
    }
}

pub open spec fn spec_shift_palette(p: Seq<Hsl>, targets: Seq<u32>) -> Seq<Hsl> {
    p.map_values(|c: Hsl| spec_shift_color(c, targets))
}

/// Rotate each color partway toward the style's named target hues.
pub fn shift_to_targets(palette: &Vec<Hsl>, style: &PaletteStyle) -> (r: Vec<Hsl>)
    requires
        palette_wf(palette@),
        style_wf(style),
    ensures
        r@ == spec_shift_palette(palette@, style.target_hues@),
        palette_wf(r@),
        r@.len() == palette@.len(),
{
    let mut r: Vec<Hsl> = Vec::new();
    let mut i: usize = 0;
    while i < palette.len()
        invariant
            0 <= i <= palette@.len(),
            palette_wf(palette@),
            style_wf(style),
            r@.len() == i,
            forall|k: int|
                0 <= k < i ==> r@[k] == spec_shift_color(
                    #[trigger] palette@[k],
                    style.target_hues@,
                ) && hsl_wf(r@[k]),
        decreases palette@.len() - i,
    {
        let c = palette[i];
        if style.target_hues.len() == 0 {
            r.push(c);
        } else {
            let idx = closest_target(&style.target_hues, c.h);
            r.push(Hsl { h: pull_toward(c.h, style.target_hues[idx], 25), s: c.s, l: c.l });
        }
        i = i + 1;
    }
    proof {
        assert(r@ =~= spec_shift_palette(palette@, style.target_hues@));
    }
    r
}

/// The six canonical hues: red, yellow, green, cyan, blue, magenta.
pub open spec fn spec_canonical_hue(k: int) -> int {
    60 * k
}

/// A canonical hue counts as covered when some palette color lies
/// within 45 degrees of it with saturation above 0.2.
pub open spec fn spec_covered(p: Seq<Hsl>, hue: int) -> bool {
    exists|i: int|
        0 <= i < p.len() && spec_hue_dist((#[trigger] p[i]).h as int, hue) <= 45 && p[i].s > 200
}

/// The color synthesized for an uncovered canonical hue.
pub open spec fn spec_coverage_color(k: int, is_light: bool) -> Hsl {
    if is_light {
        Hsl { h: (60 * k) as u32, s: 650, l: 450 }
    } else {
        Hsl { h: (60 * k) as u32, s: 700, l: 600 }
    }
}

pub open spec fn spec_coverage_step(p: Seq<Hsl>, k: int, is_light: bool) -> Seq<Hsl> {
    if !spec_covered(p, 60 * k) && p.len() < 16 {
        p.push(spec_coverage_color(k, is_light))
    } else {
        p
    }
}

/// The palette after the first `n` canonical hues were checked.
pub open spec fn spec_coverage_upto(p: Seq<Hsl>, n: int, is_light: bool) -> Seq<Hsl>
    decreases n,
{
    if n <= 0 {
        p
    } else {
        spec_coverage_step(spec_coverage_upto(p, n - 1, is_light), n - 1, is_light)
    }
}

pub open spec fn spec_ensure_coverage(p: Seq<Hsl>, is_light: bool) -> Seq<Hsl> {
    spec_coverage_upto(p, 6, is_light)
}

proof fn lemma_covered_push(p: Seq<Hsl>, x: Hsl, hue: int)
    requires
        spec_covered(p, hue),
    ensures
        spec_covered(p.push(x), hue),
{
    let i = choose|i: int|
        0 <= i < p.len() && spec_hue_dist((#[trigger] p[i]).h as int, hue) <= 45 && p[i].s
            > 200;
    assert(p.push(x)[i] == p[i]);
}

proof fn lemma_coverage_upto_property(p: Seq<Hsl>, n: int, is_light: bool, k: int)
    requires
        0 <= k < n <= 6,
    ensures
        spec_covered(spec_coverage_upto(p, n, is_light), 60 * k) || spec_coverage_upto(
            p,
            n,
            is_light,
        ).len() >= 16,
    decreases n,
{
    let prev = spec_coverage_upto(p, n - 1, is_light);
    if k == n - 1 {
        if !spec_covered(prev, 60 * k) && prev.len() < 16 {
            let c = spec_coverage_color(k, is_light);
            let q = prev.push(c);
            assert(q[q.len() - 1] == c);
            assert(spec_hue_dist(c.h as int, 60 * k) == 0);
        }
    } else {
        lemma_coverage_upto_property(p, n - 1, is_light, k);
        if spec_covered(prev, 60 * k) {
            if !spec_covered(prev, 60 * (n - 1)) && prev.len() < 16 {
                lemma_covered_push(prev, spec_coverage_color(n - 1, is_light), 60 * k);
            }
        }
    }
}

/// The coverage invariant: after the guarantor, each of the six
/// canonical hues is covered, or the palette had already grown to 16
/// entries.
pub proof fn lemma_coverage_invariant(p: Seq<Hsl>, is_light: bool)
    ensures
        forall|k: int|
            0 <= k < 6 ==> spec_covered(
                spec_ensure_coverage(p, is_light),
                #[trigger] spec_canonical_hue(k),
            ) || spec_ensure_coverage(p, is_light).len() >= 16,
{
    assert forall|k: int| 0 <= k < 6 implies spec_covered(
        spec_ensure_coverage(p, is_light),
        #[trigger] spec_canonical_hue(k),
    ) || spec_ensure_coverage(p, is_light).len() >= 16 by {
        lemma_coverage_upto_property(p, 6, is_light, k);
    }
}

/// The guarantor never returns an empty palette: either some entry
/// covers the red sector, or the palette already holds 16 entries.
pub proof fn lemma_coverage_nonempty(p: Seq<Hsl>, is_light: bool)
    ensures
        spec_ensure_coverage(p, is_light).len() >= 1,
{
    lemma_coverage_invariant(p, is_light);
    let q = spec_ensure_coverage(p, is_light);
    if q.len() < 16 {
        assert(spec_covered(q, spec_canonical_hue(0)));
    }
}

fn is_covered(p: &Vec<Hsl>, hue: u32) -> (r: bool)
    requires
        palette_wf(p@),
        hue < 360,
    ensures
        r == spec_covered(p@, hue as int),
{
    let mut i: usize = 0;
    while i < p.len()
        invariant
            0 <= i <= p@.len(),
            palette_wf(p@),
            hue < 360,
            forall|k: int|
                0 <= k < i ==> !(spec_hue_dist((#[trigger] p@[k]).h as int, hue as int) <= 45
                    && p@[k].s > 200),
        decreases p@.len() - i,
    {
        let c = p[i];
        if hue_dist(c.h, hue) <= 45 && c.s > 200 {
            return true;
        }
        i = i + 1;
    }
    false
}

/// Synthesize colors at the canonical hues that no palette color
/// covers, while the palette holds fewer than 16 entries.
pub fn ensure_hue_coverage(palette: Vec<Hsl>, is_light: bool) -> (r: Vec<Hsl>)
    requires
        palette_wf(palette@),
    ensures
        r@ == spec_ensure_coverage(palette@, is_light),
        palette_wf(r@),
        palette@.len() <= r@.len() <= palette@.len() + 6,
        forall|k: int|
            0 <= k < 6 ==> spec_covered(r@, #[trigger] spec_canonical_hue(k)) || r@.len()
                >= 16,
{
    let ghost orig = palette@;
    let mut out = palette;
    let mut k: u32 = 0;
    while k < 6
        invariant
            0 <= k <= 6,
            palette_wf(out@),
            out@ == spec_coverage_upto(orig, k as int, is_light),
            orig.len() <= out@.len() <= orig.len() + k,
        decreases 6 - k,
    {
        let hue = 60 * k;
        let covered = is_covered(&out, hue);
        if !covered && out.len() < 16 {
            if is_light {
                out.push(Hsl { h: hue, s: 650, l: 450 });
            } else {
                out.push(Hsl { h: hue, s: 700, l: 600 });
            }
        }
        k = k + 1;
    }
    proof {
        lemma_coverage_invariant(orig, is_light);
    }
    out
}

/// One color after the style adjuster: warmth rotation first, then
/// the mode's saturation and brightness factors, contrast last.
pub open spec fn spec_adjust_color(c: Hsl, s: StyleModel, is_light: bool) -> Hsl {
    let sat_f = if is_light {
        s.light_saturation
    } else {
        s.dark_saturation
    };
    let br_f = if is_light {
        s.light_brightness
    } else {
        s.dark_brightness
    };
    let h1 = if s.warmth_shift > 1 || s.warmth_shift < -1 {
        let delta = if s.warmth_shift >= 0 {
            s.warmth_shift * 30 / 1000
        } else {
            -((-s.warmth_shift) * 30 / 1000)
        };
        spec_rotate_hue(c.h as int, delta) as u32
    } else {
        c.h
    };
    let s1 = spec_scale_capped(c.s as int, sat_f, 1000);
    let l1 = spec_scale_capped(c.l as int, br_f, 1000);
    let l2 = if s.contrast > 1001 || s.contrast < 999 {
        let pivoted = if l1 >= 500 {
            500 + (l1 - 500) * s.contrast / 1000
        } else {
            500 - (500 - l1) * s.contrast / 1000
        };
        spec_clamp(pivoted, 0, 1000)
    } else {
        l1
    };
    Hsl { h: h1, s: s1 as u32, l: l2 as u32 }
}

pub open spec fn spec_adjust_palette(p: Seq<Hsl>, s: StyleModel, is_light: bool) -> Seq<Hsl> {
    p.map_values(|c: Hsl| spec_adjust_color(c, s, is_light))
}

/// Apply the style's mode-specific saturation, brightness, warmth and
/// contrast curves to one HSL color.
pub fn adjust_color(c: Hsl, style: &PaletteStyle, is_light: bool) -> (r: Hsl)
    requires
        hsl_wf(c),
        style_wf(style),
    ensures
        r == spec_adjust_color(c, style@, is_light),
        hsl_wf(r),
{
    let sat_f = if is_light {
        style.light_saturation
    } else {
        style.dark_saturation
    };
    let br_f = if is_light {
        style.light_brightness
    } else {
        style.dark_brightness
    };
    let w = style.warmth_shift;
    let h1: u32 = if w > 1 || w < -1 {
        let delta: i32 = if w >= 0 {
            (w * 30) / 1000
        } else {
            -(((-w) * 30) / 1000)
        };
        rotate_hue(c.h, delta)
    } else {
        c.h
    };
    let s1 = scale_capped(c.s, sat_f, 1000);
    let l1 = scale_capped(c.l, br_f, 1000);
    let l2: u32 = if style.contrast > 1001 || style.contrast < 999 {
        let pivoted: u32 = if l1 >= 500 {
            proof {
                assert((l1 - 500) * style.contrast <= 1000000) by (nonlinear_arith)
                    requires
                        0 <= l1 - 500 <= 500,
                        style.contrast <= 2000,
                ;
            }
            500 + ((l1 - 500) * style.contrast) / 1000
        } else {
            proof {
                assert((500 - l1) * style.contrast <= 1000000) by (nonlinear_arith)
                    requires
                        0 <= 500 - l1 <= 500,
                        style.contrast <= 2000,
                ;
                lemma_div_is_ordered(0, (500 - l1) * style.contrast, 1000);
                lemma_div_is_ordered((500 - l1) * style.contrast, 1000000, 1000);
            }
            let red: u32 = ((500 - l1) * style.contrast) / 1000;
            if red > 500 {
                0
            } else {
                500 - red
            }
        };
        clamp_u32(pivoted, 0, 1000)
    } else {
        l1
    };
    Hsl { h: h1, s: s1, l: l2 }
}

/// Apply the style adjuster across the palette.
pub fn adjust_palette(palette: &Vec<Hsl>, style: &PaletteStyle, is_light: bool) -> (r: Vec<Hsl>)
    requires
        palette_wf(palette@),
        style_wf(style),
    ensures
        r@ == spec_adjust_palette(palette@, style@, is_light),
        palette_wf(r@),
        r@.len() == palette@.len(),
{
    let mut r: Vec<Hsl> = Vec::new();
    let mut i: usize = 0;
    while i < palette.len()
        invariant
            0 <= i <= palette@.len(),
            palette_wf(palette@),
            style_wf(style),
            r@.len() == i,
            forall|k: int|
                0 <= k < i ==> r@[k] == spec_adjust_color(
                    #[trigger] palette@[k],
                    style@,
                    is_light,
                ) && hsl_wf(r@[k]),
        decreases palette@.len() - i,
    {
        r.push(adjust_color(palette[i], style, is_light));
        i = i + 1;
    }
    proof {
        assert(r@ =~= spec_adjust_palette(palette@, style@, is_light));
    }
    r
}

} // verus!

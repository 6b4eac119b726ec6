//! The terminal-slot mapper and the accent picker: filling the 16
//! ANSI slots from the adjusted palette, and choosing the most vibrant
//! sufficiently-distinct colors for the UI accent roles.

use crate::color::{
    color_distance_sq, hsl_to_rgb, hsl_wf, rgb_to_hsl, spec_color_distance_sq,
    spec_hsl_to_rgb, spec_rgb_to_hsl, spec_vibrance, vibrance, Hsl, Rgb,
};
use crate::extract::{
    lemma_top_k_keys, lemma_top_k_len, spec_top_k, top_buckets, Bucket,
};
use crate::hex::{rgb_to_hex, spec_hex_color};
use crate::hue::{pull_toward, rotate_hue, spec_pull_toward, spec_rotate_hue};
use crate::num::{clamp_u32, mul_div_1000, spec_clamp, spec_mul_div_1000};
use crate::palette::spec_adjust_brightness;
use crate::pipeline::palette_wf;
use crate::style::{style_wf, HueBand, PaletteStyle, StyleModel};
use vstd::prelude::*;

verus! {

/// The generic hue-band table, its boundaries and targets rotated by
/// the style's warmth shift scaled to fifteen degrees.
pub open spec fn spec_band_table(s: StyleModel) -> Seq<HueBand> {
    if s.slot_bands.len() == 6 {
        s.slot_bands
    } else {
        let d = if s.warmth_shift >= 0 {
            s.warmth_shift * 15 / 1000
        } else {
            -((-s.warmth_shift) * 15 / 1000)
        };
        seq![
            HueBand {
                lo: spec_rotate_hue(330, d) as u32,
                hi: spec_rotate_hue(30, d) as u32,
                target: spec_rotate_hue(0, d) as u32,
            },
            HueBand {
                lo: spec_rotate_hue(30, d) as u32,
                hi: spec_rotate_hue(90, d) as u32,
                target: spec_rotate_hue(60, d) as u32,
            },
            HueBand {
                lo: spec_rotate_hue(90, d) as u32,
                hi: spec_rotate_hue(150, d) as u32,
                target: spec_rotate_hue(120, d) as u32,
            },
            HueBand {
                lo: spec_rotate_hue(150, d) as u32,
                hi: spec_rotate_hue(210, d) as u32,
                target: spec_rotate_hue(180, d) as u32,
            },
            HueBand {
                lo: spec_rotate_hue(210, d) as u32,
                hi: spec_rotate_hue(270, d) as u32,
                target: spec_rotate_hue(240, d) as u32,
            },
            HueBand {
                lo: spec_rotate_hue(270, d) as u32,
                hi: spec_rotate_hue(330, d) as u32,
                target: spec_rotate_hue(300, d) as u32,
            },
        ]
    }
}

/// The six bands this style maps the chromatic slots with.
pub fn band_table(style: &PaletteStyle) -> (r: Vec<HueBand>)
    requires
        style_wf(style),
    ensures
        r@ == spec_band_table(style@),
        r@.len() == 6,
        forall|i: int|
            0 <= i < 6 ==> (#[trigger] r@[i]).lo < 360 && r@[i].hi < 360 && r@[i].target < 360,
{
    if style.slot_bands.len() == 6 {
        let mut v: Vec<HueBand> = Vec::new();
        v.push(style.slot_bands[0]);
        v.push(style.slot_bands[1]);
        v.push(style.slot_bands[2]);
        v.push(style.slot_bands[3]);
        v.push(style.slot_bands[4]);
        v.push(style.slot_bands[5]);
        proof {
            assert(v@ =~= style@.slot_bands);
        }
        v
    } else {
        let w = style.warmth_shift;
        let d: i32 = if w >= 0 {
            (w * 15) / 1000
        } else {
            -(((-w) * 15) / 1000)
        };
        let mut v: Vec<HueBand> = Vec::new();
        v.push(
            HueBand { lo: rotate_hue(330, d), hi: rotate_hue(30, d), target: rotate_hue(0, d) },
        );
        v.push(
            HueBand { lo: rotate_hue(30, d), hi: rotate_hue(90, d), target: rotate_hue(60, d) },
        );
        v.push(
            HueBand {
                lo: rotate_hue(90, d),
                hi: rotate_hue(150, d),
                target: rotate_hue(120, d),
            },
        );
        v.push(
            HueBand {
                lo: rotate_hue(150, d),
                hi: rotate_hue(210, d),
                target: rotate_hue(180, d),
            },
        );
        v.push(
            HueBand {
                lo: rotate_hue(210, d),
                hi: rotate_hue(270, d),
                target: rotate_hue(240, d),
            },
        );
        v.push(
            HueBand {
                lo: rotate_hue(270, d),
                hi: rotate_hue(330, d),
                target: rotate_hue(300, d),
            },
        );
        proof {
            assert(v@ =~= spec_band_table(style@));
        }
        v
    }
}

/// Membership in a band, wrapping past 360 when `lo > hi`.
pub open spec fn spec_in_band(h: int, band: HueBand) -> bool {
    if band.lo <= band.hi {
        band.lo <= h < band.hi
    } else {
        h >= band.lo || h < band.hi
    }
}

fn in_band(h: u32, band: HueBand) -> (r: bool)
    ensures
        r == spec_in_band(h as int, band),
{
    if band.lo <= band.hi {
        band.lo <= h && h < band.hi
    } else {
        h >= band.lo || h < band.hi
    }
}

/// How strongly a palette entry claims a slot: saturation times the
/// vibrance of its RGB rendering.
pub open spec fn spec_score(c: Hsl) -> int {
    c.s * spec_vibrance(spec_hsl_to_rgb(c))
}

/// The first palette entry inside the band with the maximal score.
pub open spec fn spec_band_best(p: Seq<Hsl>, band: HueBand) -> Option<int>
    decreases p.len(),
{
    if p.len() == 0 {
        None
    } else {
        let rest = spec_band_best(p.drop_last(), band);
        let i = p.len() - 1;
        if !spec_in_band(p[i].h as int, band) {
            rest
        } else {
            match rest {
                None => Some(i),
                Some(j) => if spec_score(p[i]) > spec_score(p[j]) {
                    Some(i)
                } else {
                    Some(j)
                },
            }
        }
    }
}

proof fn lemma_band_best_in_range(p: Seq<Hsl>, band: HueBand)
    ensures
        spec_band_best(p, band) is Some ==> 0 <= spec_band_best(p, band)->0 < p.len(),
    decreases p.len(),
{
    if p.len() > 0 {
        lemma_band_best_in_range(p.drop_last(), band);
    }
}

fn band_best(p: &Vec<Hsl>, band: HueBand) -> (r: Option<usize>)
    requires
        palette_wf(p@),
    ensures
        (r is Some) == (spec_band_best(p@, band) is Some),
        r is Some ==> Some(r->0 as int) == spec_band_best(p@, band) && r->0 < p@.len(),
{
    let mut best: Option<usize> = None;
    let mut best_score: u64 = 0;
    let mut i: usize = 0;
    proof {
        assert(p@.take(0) =~= Seq::<Hsl>::empty());
    }
    while i < p.len()
        invariant
            0 <= i <= p@.len(),
            palette_wf(p@),
            (best is Some) == (spec_band_best(p@.take(i as int), band) is Some),
            best is Some ==> Some(best->0 as int) == spec_band_best(p@.take(i as int), band)
                && best->0 < i && best_score == spec_score(p@[best->0 as int]),
        decreases p@.len() - i,
    {
        proof {
            assert(p@.take(i + 1).drop_last() =~= p@.take(i as int));
            assert(p@.take(i + 1).last() == p@[i as int]);
            lemma_band_best_in_range(p@.take(i as int), band);
        }
        let c = p[i];
        if in_band(c.h, band) {
            let vib = vibrance(hsl_to_rgb(c));
            proof {
                assert((c.s as int) * (vib as int) <= 1000000) by (nonlinear_arith)
                    requires
                        c.s <= 1000,
                        vib <= 1000,
                ;
            }
            let score: u64 = (c.s as u64) * (vib as u64);
            match best {
                None => {
                    best = Some(i);
                    best_score = score;
                },
                Some(_) => {
                    if score > best_score {
                        best = Some(i);
                        best_score = score;
                    }
                },
            }
        }
        i = i + 1;
    }
    proof {
        assert(p@.take(p@.len() as int) =~= p@);
    }
    best
}

/// The raw color a band contributes: the best in-band candidate
/// rotated 30 percent toward the band's canonical target, or a
/// synthesized color at the target with mode-dependent saturation and
/// lightness, boosted for the pink range.
pub open spec fn spec_band_raw(p: Seq<Hsl>, band: HueBand, is_light: bool) -> Hsl {
    match spec_band_best(p, band) {
        Some(i) => Hsl {
            h: spec_pull_toward(p[i].h as int, band.target as int, 30) as u32,
            s: p[i].s,
            l: p[i].l,
        },
        None => {
            let pink: int = if 280 <= band.target <= 340 {
                100
            } else {
                0
            };
            if is_light {
                Hsl { h: band.target, s: (600 + pink) as u32, l: 480 }
            } else {
                Hsl { h: band.target, s: (650 + pink) as u32, l: 550 }
            }
        },
    }
}

/// One chromatic slot: the band's raw color with its saturation scaled
/// by twice the style's mode saturation and both channels clamped into
/// the mode's band.
pub open spec fn spec_slot_color(p: Seq<Hsl>, band: HueBand, s: StyleModel, is_light: bool) -> Hsl {
    let raw = spec_band_raw(p, band, is_light);
    let sat_f = if is_light {
        s.light_saturation
    } else {
        s.dark_saturation
    };
    let s2 = if is_light {
        spec_clamp(spec_mul_div_1000(raw.s as int, 2 * sat_f), 500, 850)
    } else {
        spec_clamp(spec_mul_div_1000(raw.s as int, 2 * sat_f), 550, 900)
    };
    let l2 = if is_light {
        spec_clamp(raw.l as int, 350, 550)
    } else {
        spec_clamp(raw.l as int, 500, 700)
    };
    Hsl { h: raw.h, s: s2 as u32, l: l2 as u32 }
}

fn slot_color(p: &Vec<Hsl>, band: HueBand, style: &PaletteStyle, is_light: bool) -> (r: Hsl)
    requires
        palette_wf(p@),
        style_wf(style),
        band.lo < 360,
        band.hi < 360,
        band.target < 360,
    ensures
        r == spec_slot_color(p@, band, style@, is_light),
        hsl_wf(r),
{
    let raw: Hsl = match band_best(p, band) {
        Some(i) => {
            let c = p[i];
            Hsl { h: pull_toward(c.h, band.target, 30), s: c.s, l: c.l }
        },
        None => {
            let pink: u32 = if 280 <= band.target && band.target <= 340 {
                100
            } else {
                0
            };
            if is_light {
                Hsl { h: band.target, s: 600 + pink, l: 480 }
            } else {
                Hsl { h: band.target, s: 650 + pink, l: 550 }
            }
        },
    };
    let sat_f = if is_light {
        style.light_saturation
    } else {
        style.dark_saturation
    };
    let scaled = mul_div_1000(raw.s, 2 * sat_f);
    let s2 = if is_light {
        clamp_u32(scaled, 500, 850)
    } else {
        clamp_u32(scaled, 550, 900)
    };
    let l2 = if is_light {
        clamp_u32(raw.l, 350, 550)
    } else {
        clamp_u32(raw.l, 500, 700)
    };
    Hsl { h: raw.h, s: s2, l: l2 }
}

/// The deterministic hue jitter of the six bright slots, alternating
/// three to five degrees either way.
pub open spec fn spec_jitter(i: int) -> int {
    if i == 0 {
        3
    } else if i == 1 {
        -3
    } else if i == 2 {
        4
    } else if i == 3 {
        -4
    } else if i == 4 {
        5
    } else {
        -5
    }
}

/// The bright variant of a chromatic slot: jittered hue and the mode's
/// push toward higher visual intensity.
pub open spec fn spec_brighten_slot(c: Hsl, i: int, is_light: bool) -> Hsl {
    let h2 = spec_rotate_hue(c.h as int, spec_jitter(i)) as u32;
    if is_light {
        let s2 = if c.s + 50 > 1000 {
            1000
        } else {
            c.s + 50
        };
        let l2 = if c.l >= 100 {
            c.l - 100
        } else {
            0
        };
        Hsl { h: h2, s: s2 as u32, l: l2 as u32 }
    } else {
        let s2 = if c.s + 100 > 1000 {
            1000
        } else {
            c.s + 100
        };
        let l2 = if c.l + 120 > 1000 {
            1000
        } else {
            c.l + 120
        };
        Hsl { h: h2, s: s2 as u32, l: l2 as u32 }
    }
}

fn brighten_slot(c: Hsl, i: usize, is_light: bool) -> (r: Hsl)
    requires
        hsl_wf(c),
        i < 6,
    ensures
        r == spec_brighten_slot(c, i as int, is_light),
        hsl_wf(r),
{
    let jit: i32 = if i == 0 {
        3
    } else if i == 1 {
        -3
    } else if i == 2 {
        4
    } else if i == 3 {
        -4
    } else if i == 4 {
        5
    } else {
        -5
    };
    let h2 = rotate_hue(c.h, jit);
    if is_light {
        let s2 = if c.s + 50 > 1000 {
            1000
        } else {
            c.s + 50
        };
        let l2 = if c.l >= 100 {
            c.l - 100
        } else {
            0
        };
        Hsl { h: h2, s: s2, l: l2 }
    } else {
        let s2 = if c.s + 100 > 1000 {
            1000
        } else {
            c.s + 100
        };
        let l2 = if c.l + 120 > 1000 {
            1000
        } else {
            c.l + 120
        };
        Hsl { h: h2, s: s2, l: l2 }
    }
}

/// The muted "comment" slot: the background's hue under the style's
/// warmth rotation, fixed mode lightness, saturation slightly above
/// the background's own, kept subtle.
pub open spec fn spec_comment_color(bg: Hsl, s: StyleModel, is_light: bool) -> Hsl {
    let delta = if s.warmth_shift >= 0 {
        s.warmth_shift * 30 / 1000
    } else {
        -((-s.warmth_shift) * 30 / 1000)
    };
    let h2 = spec_rotate_hue(bg.h as int, delta) as u32;
    let cap: int = if is_light {
        250
    } else {
        300
    };
    let s2 = if bg.s + 80 > cap {
        cap
    } else {
        bg.s + 80
    };
    Hsl { h: h2, s: s2 as u32, l: if is_light { 450 } else { 500 } }
}

fn comment_color(bg: Hsl, style: &PaletteStyle, is_light: bool) -> (r: Hsl)
    requires
        hsl_wf(bg),
        style_wf(style),
    ensures
        r == spec_comment_color(bg, style@, is_light),
        hsl_wf(r),
{
    let w = style.warmth_shift;
    let delta: i32 = if w >= 0 {
        (w * 30) / 1000
    } else {
        -(((-w) * 30) / 1000)
    };
    let h2 = rotate_hue(bg.h, delta);
    let cap: u32 = if is_light {
        250
    } else {
        300
    };
    let s2 = if bg.s + 80 > cap {
        cap
    } else {
        bg.s + 80
    };
    Hsl { h: h2, s: s2, l: if is_light { 450 } else { 500 } }
}

/// The vibrance ranking of a palette: indices ordered by descending
/// vibrance, lower index first on ties.
pub open spec fn spec_vib_seq(colors: Seq<Rgb>) -> Seq<Bucket> {
    Seq::new(
        colors.len(),
        |i: int| Bucket { key: i as u32, count: spec_vibrance(colors[i]) as u64 },
    )
}

pub open spec fn spec_ranking(colors: Seq<Rgb>) -> Seq<Bucket> {
    spec_top_k(spec_vib_seq(colors), colors.len() as int)
}

/// The most vibrant color.
pub open spec fn spec_accent(colors: Seq<Rgb>) -> Rgb {
    colors[spec_ranking(colors)[0].key as int]
}

pub open spec fn spec_secondary_search(colors: Seq<Rgb>, ranking: Seq<Bucket>, accent: Rgb, j: int) -> Option<
    Rgb,
>
    decreases ranking.len() - j,
        when 0 <= j <= ranking.len()
{
    if j >= ranking.len() {
        None
    } else if spec_color_distance_sq(colors[ranking[j].key as int], accent) > 6400 {
        Some(colors[ranking[j].key as int])
    } else {
        spec_secondary_search(colors, ranking, accent, j + 1)
    }
}

/// The most vibrant color sufficiently distinct from the accent, or
/// the second-ranked color when none qualifies.
pub open spec fn spec_secondary(colors: Seq<Rgb>) -> Rgb {
    let ranking = spec_ranking(colors);
    match spec_secondary_search(colors, ranking, spec_accent(colors), 1) {
        Some(c) => c,
        None => colors[ranking[if ranking.len() >= 2 {
            1int
        } else {
            0int
        }].key as int],
    }
}

/// Pick the accent and secondary colors from the adjusted palette.
pub fn pick_accent_secondary(colors: &Vec<Rgb>) -> (r: (Rgb, Rgb))
    requires
        1 <= colors@.len() <= 2000,
    ensures
        r.0 == spec_accent(colors@),
        r.1 == spec_secondary(colors@),
{
    let n = colors.len();
    let mut vb: Vec<Bucket> = Vec::new();
    let mut i: usize = 0;
    while i < n
        invariant
            0 <= i <= n,
            n == colors@.len(),
            vb@.len() == i,
            forall|k: int|
                0 <= k < i ==> (#[trigger] vb@[k]) == (Bucket {
                    key: k as u32,
                    count: spec_vibrance(colors@[k]) as u64,
                }),
        decreases n - i,
    {
        let v = vibrance(colors[i]);
        vb.push(Bucket { key: i as u32, count: v as u64 });
        i = i + 1;
    }
    proof {
        assert(vb@ =~= spec_vib_seq(colors@));
        lemma_top_k_len(vb@, n as int);
        lemma_top_k_keys(vb@, n as int, n as int);
    }
    let ranking = top_buckets(vb, n);
    let accent = colors[ranking[0].key as usize];
    let mut j: usize = 1;
    while j < ranking.len()
        invariant
            1 <= j <= ranking@.len(),
            ranking@ == spec_ranking(colors@),
            ranking@.len() == n == colors@.len(),
            forall|k: int|
                0 <= k < ranking@.len() ==> (#[trigger] ranking@[k]).key < n,
            accent == spec_accent(colors@),
            spec_secondary_search(colors@, ranking@, accent, 1)
                == spec_secondary_search(colors@, ranking@, accent, j as int),
        decreases ranking@.len() - j,
    {
        let c = colors[ranking[j].key as usize];
        if color_distance_sq(&c, &accent) > 6400 {
            return (accent, c);
        }
        j = j + 1;
    }
    let fallback_idx: usize = if ranking.len() >= 2 {
        1
    } else {
        0
    };
    let secondary = colors[ranking[fallback_idx].key as usize];
    (accent, secondary)
}

/// The hex rendering of one terminal slot: slot 0 the background,
/// 1 to 6 the chromatic bands, 7 the foreground, 8 the muted comment
/// color, 9 to 14 the bright band variants, 15 the re-lit foreground.
pub open spec fn spec_slot_hex(
    i: int,
    p: Seq<Hsl>,
    s: StyleModel,
    is_light: bool,
    bg_hex: Seq<char>,
    bg_rgb: Rgb,
    fg_hex: Seq<char>,
    fg_rgb: Rgb,
) -> Seq<char> {
    let bands = spec_band_table(s);
    if i == 0 {
        bg_hex
    } else if 1 <= i <= 6 {
        spec_hex_color(spec_hsl_to_rgb(spec_slot_color(p, bands[i - 1], s, is_light)))
    } else if i == 7 {
        fg_hex
    } else if i == 8 {
        spec_hex_color(
            spec_hsl_to_rgb(spec_comment_color(spec_rgb_to_hsl(bg_rgb), s, is_light)),
        )
    } else if 9 <= i <= 14 {
        spec_hex_color(
            spec_hsl_to_rgb(
                spec_brighten_slot(spec_slot_color(p, bands[i - 9], s, is_light), i - 9, is_light),
            ),
        )
    } else {
        spec_hex_color(
            spec_adjust_brightness(
                fg_rgb,
                if is_light {
                    700
                } else {
                    1100
                },
            ),
        )
    }
}

/// All sixteen slots.
pub open spec fn spec_slots(
    p: Seq<Hsl>,
    s: StyleModel,
    is_light: bool,
    bg_hex: Seq<char>,
    bg_rgb: Rgb,
    fg_hex: Seq<char>,
    fg_rgb: Rgb,
) -> Seq<Seq<char>> {
    Seq::new(16, |i: int| spec_slot_hex(i, p, s, is_light, bg_hex, bg_rgb, fg_hex, fg_rgb))
}

/// One slot's hex string, computed from the shared band table.
fn slot_hex(
    i: usize,
    bands: &Vec<HueBand>,
    palette: &Vec<Hsl>,
    style: &PaletteStyle,
    is_light: bool,
    background_hex: &String,
    bg_rgb: Rgb,
    foreground_hex: &String,
    fg_rgb: Rgb,
) -> (r: String)
    requires
        i < 16,
        palette_wf(palette@),
        style_wf(style),
        bands@ == spec_band_table(style@),
        bands@.len() == 6,
        forall|k: int|
            0 <= k < 6 ==> (#[trigger] bands@[k]).lo < 360 && bands@[k].hi < 360
                && bands@[k].target < 360,
    ensures
        r@ == spec_slot_hex(
            i as int,
            palette@,
            style@,
            is_light,
            background_hex@,
            bg_rgb,
            foreground_hex@,
            fg_rgb,
        ),
{
    if i == 0 {
        background_hex.clone()
    } else if i <= 6 {
        rgb_to_hex(&hsl_to_rgb(slot_color(palette, bands[i - 1], style, is_light)))
    } else if i == 7 {
        foreground_hex.clone()
    } else if i == 8 {
        rgb_to_hex(&hsl_to_rgb(comment_color(rgb_to_hsl(bg_rgb), style, is_light)))
    } else if i <= 14 {
        let base = slot_color(palette, bands[i - 9], style, is_light);
        rgb_to_hex(&hsl_to_rgb(brighten_slot(base, i - 9, is_light)))
    } else {
        let f: u32 = if is_light {
            700
        } else {
            1100
        };
        let fgh = rgb_to_hsl(fg_rgb);
        let bright_fg = hsl_to_rgb(
            Hsl { h: fgh.h, s: fgh.s, l: crate::num::scale_capped(fgh.l, f, 1000) },
        );
        rgb_to_hex(&bright_fg)
    }
}

/// Fill the sixteen ANSI slots; the result always holds exactly 16
/// colors, whatever the palette's size.
pub fn map_terminal_slots(
    palette: &Vec<Hsl>,
    style: &PaletteStyle,
    is_light: bool,
    background_hex: &String,
    bg_rgb: Rgb,
    foreground_hex: &String,
    fg_rgb: Rgb,
) -> (r: Vec<String>)
    requires
        palette_wf(palette@),
        style_wf(style),
    ensures
        r@.len() == 16,
        forall|i: int|
            0 <= i < 16 ==> (#[trigger] r@[i])@ == spec_slot_hex(
                i,
                palette@,
                style@,
                is_light,
                background_hex@,
                bg_rgb,
                foreground_hex@,
                fg_rgb,
            ),
{
    let bands = band_table(style);
    let mut out: Vec<String> = Vec::new();
    let mut i: usize = 0;
    while i < 16
        invariant
            0 <= i <= 16,
            palette_wf(palette@),
            style_wf(style),
            bands@ == spec_band_table(style@),
            bands@.len() == 6,
            forall|k: int|
                0 <= k < 6 ==> (#[trigger] bands@[k]).lo < 360 && bands@[k].hi < 360
                    && bands@[k].target < 360,
            out@.len() == i,
            forall|k: int|
                0 <= k < i ==> (#[trigger] out@[k])@ == spec_slot_hex(
                    k,
                    palette@,
                    style@,
                    is_light,
                    background_hex@,
                    bg_rgb,
                    foreground_hex@,
                    fg_rgb,
                ),
        decreases 16 - i,
    {
        out.push(
            slot_hex(
                i,
                &bands,
                palette,
                style,
                is_light,
                background_hex,
                bg_rgb,
                foreground_hex,
                fg_rgb,
            ),
        );
        i = i + 1;
    }
    out
}

} // verus!

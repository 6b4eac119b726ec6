//! The palette generator: extraction plus the per-color and
//! palette-level color synthesis the scheme builder needs.

use crate::color::{
    hsl_to_rgb, hsl_wf, rgb_to_hsl, spec_hsl_to_rgb, spec_rgb_to_hsl, Hsl, Rgb,
};
use crate::extract::{
    bucket_colors, fill_complementary, histogram, nonzero_buckets, select_diverse,
    spec_extract_palette, top_buckets,
};
use crate::num::{scale_capped, spec_scale_capped};
use crate::pipeline::{
    adjust_color, dominant_hue, palette_wf, spec_adjust_color, spec_dominant_hue,
};
use crate::style::{style_wf, PaletteStyle};
use vstd::prelude::*;

verus! {

/// Extraction and color synthesis under one style and one threshold.
pub struct PaletteGenerator {
    pub diversity_threshold: u32,
    pub style: PaletteStyle,
}

/// The sum of the palette's saturations, in thousandths.
pub open spec fn spec_sum_s(p: Seq<Hsl>) -> int
    decreases p.len(),
{
    if p.len() == 0 {
        0
    } else {
        spec_sum_s(p.drop_last()) + p.last().s
    }
}

/// The sum of the palette's lightnesses, in thousandths.
pub open spec fn spec_sum_l(p: Seq<Hsl>) -> int
    decreases p.len(),
{
    if p.len() == 0 {
        0
    } else {
        spec_sum_l(p.drop_last()) + p.last().l
    }
}

proof fn lemma_sums_bound(p: Seq<Hsl>)
    requires
        palette_wf(p),
    ensures
        0 <= spec_sum_s(p) <= p.len() * 1000,
        0 <= spec_sum_l(p) <= p.len() * 1000,
    decreases p.len(),
{
    if p.len() > 0 {
        assert(palette_wf(p.drop_last()));
        lemma_sums_bound(p.drop_last());
        assert((p.len() - 1) * 1000 + 1000 == p.len() * 1000) by (nonlinear_arith);
    }
}

/// The background an extracted palette yields: the saturation-weighted
/// mean hue, a lightness pressed toward the mode's extreme and a
/// saturation kept subtle by the style's tint strength.
pub open spec fn spec_generate_background(colors: Seq<Rgb>, tint: int, is_light: bool) -> Rgb {
    if colors.len() == 0 {
        if is_light {
            Rgb { r: 239, g: 241, b: 245 }
        } else {
            Rgb { r: 30, g: 30, b: 46 }
        }
    } else {
        let hsls = colors.map_values(|c: Rgb| spec_rgb_to_hsl(c));
        let avg_l = spec_sum_l(hsls) / colors.len() as int;
        let avg_s = spec_sum_s(hsls) / colors.len() as int;
        let dom = spec_dominant_hue(hsls, false);
        let x = if is_light {
            Hsl {
                h: dom as u32,
                s: spec_scale_capped(avg_s * 250 / 1000, tint, 150) as u32,
                l: (910 + avg_l * 60 / 1000) as u32,
            }
        } else {
            Hsl {
                h: dom as u32,
                s: spec_scale_capped(avg_s * 400 / 1000, tint, 200) as u32,
                l: (60 + (1000 - avg_l) * 120 / 1000) as u32,
            }
        };
        spec_hsl_to_rgb(x)
    }
}

/// The foreground derived from a background: the same hue re-lit to
/// the opposite extreme with its tint attenuated.
pub open spec fn spec_generate_foreground(background: Rgb, is_light: bool) -> Rgb {
    let bg = spec_rgb_to_hsl(background);
    let x = if is_light {
        Hsl { h: bg.h, s: spec_scale_capped(bg.s as int, 500, 150) as u32, l: 250 }
    } else {
        Hsl { h: bg.h, s: spec_scale_capped(bg.s as int, 400, 120) as u32, l: 850 }
    };
    spec_hsl_to_rgb(x)
}

/// A color with its HSL lightness rescaled by `factor` thousandths.
pub open spec fn spec_adjust_brightness(color: Rgb, factor: int) -> Rgb {
    let x = spec_rgb_to_hsl(color);
    spec_hsl_to_rgb(Hsl { h: x.h, s: x.s, l: spec_scale_capped(x.l as int, factor, 1000) as u32 })
}

impl PaletteGenerator {
    pub fn new(diversity_threshold: u32, style: PaletteStyle) -> (r: PaletteGenerator)
        ensures
            r.diversity_threshold == diversity_threshold,
            r.style == style,
    {
        PaletteGenerator { diversity_threshold, style }
    }

    /// Extract up to `count` diverse dominant colors from the pixels,
    /// topping the palette up with complementary fallbacks.
    pub fn extract_palette(&self, pixels: &Vec<Rgb>, count: usize) -> (r: Vec<Rgb>)
        requires
            count <= 1000,
        ensures
            r@ == spec_extract_palette(
                pixels@,
                self.diversity_threshold as int,
                count as int,
            ),
            r@.len() == count,
    {
        let h = histogram(pixels);
        let buckets = nonzero_buckets(&h);
        let top = top_buckets(buckets, count * 3);
        let cands = bucket_colors(&top);
        let sel = select_diverse(&cands, self.diversity_threshold, count);
        fill_complementary(sel, count)
    }

    /// Apply the style's mode curves to one stored RGB color.
    pub fn adjust_with_style(&self, color: &Rgb, is_light: bool) -> (r: Rgb)
        requires
            style_wf(&self.style),
        ensures
            r == spec_hsl_to_rgb(
                spec_adjust_color(spec_rgb_to_hsl(*color), self.style@, is_light),
            ),
    {
        let x = rgb_to_hsl(*color);
        let y = adjust_color(x, &self.style, is_light);
        hsl_to_rgb(y)
    }

    /// Scale a color's lightness by `factor` thousandths.
    pub fn adjust_brightness(&self, color: &Rgb, factor: u32) -> (r: Rgb)
        requires
            factor <= 10000,
        ensures
            r == spec_adjust_brightness(*color, factor as int),
    {
        let x = rgb_to_hsl(*color);
        let l2 = scale_capped(x.l, factor, 1000);
        hsl_to_rgb(Hsl { h: x.h, s: x.s, l: l2 })
    }

    /// Derive a background from the palette's overall tone, or the
    /// mode's fixed default for an empty palette.
    pub fn generate_background(&self, colors: &Vec<Rgb>, is_light: bool) -> (r: Rgb)
        requires
            style_wf(&self.style),
            colors@.len() <= 2000,
        ensures
            r == spec_generate_background(
                colors@,
                self.style.bg_tint_strength as int,
                is_light,
            ),
    {
        if colors.len() == 0 {
            if is_light {
                return Rgb { r: 239, g: 241, b: 245 };
            } else {
                return Rgb { r: 30, g: 30, b: 46 };
            }
        }
        let mut hsls: Vec<Hsl> = Vec::new();
        let mut i: usize = 0;
        while i < colors.len()
            invariant
                0 <= i <= colors@.len(),
                hsls@.len() == i,
                forall|k: int|
                    0 <= k < i ==> (#[trigger] hsls@[k]) == spec_rgb_to_hsl(colors@[k])
                        && hsl_wf(hsls@[k]),
            decreases colors@.len() - i,
        {
            hsls.push(rgb_to_hsl(colors[i]));
            i = i + 1;
        }
        proof {
            assert(hsls@ =~= colors@.map_values(|c: Rgb| spec_rgb_to_hsl(c)));
        }
        let n = colors.len();
        let mut total_s: u32 = 0;
        let mut total_l: u32 = 0;
        let mut j: usize = 0;
        while j < n
            invariant
                0 <= j <= n,
                n == hsls@.len() <= 2000,
                palette_wf(hsls@),
                total_s == spec_sum_s(hsls@.take(j as int)),
                total_l == spec_sum_l(hsls@.take(j as int)),
                total_s <= j * 1000,
                total_l <= j * 1000,
            decreases n - j,
        {
            proof {
                assert(hsls@.take(j + 1).drop_last() =~= hsls@.take(j as int));
                assert(hsls@.take(j + 1).last() == hsls@[j as int]);
            }
            let c = hsls[j];
            total_s = total_s + c.s;
            total_l = total_l + c.l;
            j = j + 1;
        }
        proof {
            assert(hsls@.take(n as int) =~= hsls@);
        }
        let avg_s = total_s / (n as u32);
        let avg_l = total_l / (n as u32);
        proof {
            vstd::arithmetic::div_mod::lemma_div_is_ordered(
                total_s as int,
                1000 * n as int,
                n as int,
            );
            vstd::arithmetic::div_mod::lemma_div_multiples_vanish(1000, n as int);
            vstd::arithmetic::div_mod::lemma_div_is_ordered(
                total_l as int,
                1000 * n as int,
                n as int,
            );
        }
        let dom = dominant_hue(&hsls, false);
        let x: Hsl = if is_light {
            Hsl {
                h: dom,
                s: scale_capped((avg_s * 250) / 1000, self.style.bg_tint_strength, 150),
                l: 910 + (avg_l * 60) / 1000,
            }
        } else {
            Hsl {
                h: dom,
                s: scale_capped((avg_s * 400) / 1000, self.style.bg_tint_strength, 200),
                l: 60 + ((1000 - avg_l) * 120) / 1000,
            }
        };
        hsl_to_rgb(x)
    }

    /// Derive a foreground that contrasts with the given background
    /// while keeping a faint tint of its hue.
    pub fn generate_foreground(&self, background: &Rgb, is_light: bool) -> (r: Rgb)
        ensures
            r == spec_generate_foreground(*background, is_light),
    {
        let bg = rgb_to_hsl(*background);
        let x: Hsl = if is_light {
            Hsl { h: bg.h, s: scale_capped(bg.s, 500, 150), l: 250 }
        } else {
            Hsl { h: bg.h, s: scale_capped(bg.s, 400, 120), l: 850 }
        };
        hsl_to_rgb(x)
    }
}

} // verus!

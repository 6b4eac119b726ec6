use iro::color::{rgb_to_hsl, Hsl, Rgb};
use iro::hue::hue_dist;
use iro::pipeline::{
    adjust_color, boost_hues, dominant_hue, ensure_hue_coverage, harmonize, shift_to_targets,
};
use iro::style::{ColorHarmony, PaletteStyle};

#[test]
fn gray_palettes_get_all_six_hues_synthesized() {
    // zero saturation everywhere: nothing covers any canonical hue
    let grays: Vec<Hsl> = [32u8, 96, 160, 224]
        .iter()
        .map(|v| rgb_to_hsl(Rgb { r: *v, g: *v, b: *v }))
        .collect();
    assert!(grays.iter().all(|c| c.s == 0));
    let covered = ensure_hue_coverage(grays, false);
    assert_eq!(covered.len(), 10);
    for k in 0..6u32 {
        let c = covered[4 + k as usize];
        assert_eq!((c.h, c.s, c.l), (60 * k, 700, 600));
    }
}

#[test]
fn light_mode_synthesizes_its_own_fixed_tone() {
    let covered = ensure_hue_coverage(Vec::new(), true);
    assert_eq!(covered.len(), 6);
    assert_eq!((covered[0].h, covered[0].s, covered[0].l), (0, 650, 450));
}

#[test]
fn covered_hues_are_left_alone() {
    // one strongly saturated color per canonical hue
    let palette: Vec<Hsl> =
        (0..6u32).map(|k| Hsl { h: 60 * k, s: 800, l: 500 }).collect();
    let covered = ensure_hue_coverage(palette.clone(), false);
    assert_eq!(covered, palette);
}

#[test]
fn full_palettes_are_never_extended() {
    let palette: Vec<Hsl> = (0..16).map(|_| Hsl { h: 0, s: 0, l: 500 }).collect();
    let covered = ensure_hue_coverage(palette.clone(), false);
    assert_eq!(covered.len(), 16);
}

#[test]
fn style_adjustment_formula() {
    // balanced: warmth 50 -> +1 degree, saturation x0.42, brightness
    // x0.85, contrast 0.7 around the 0.5 pivot
    let style = PaletteStyle::from_name("balanced");
    let out = adjust_color(Hsl { h: 100, s: 500, l: 600 }, &style, false);
    assert_eq!((out.h, out.s, out.l), (101, 210, 507));
}

#[test]
fn booster_accumulates_with_linear_falloff() {
    let style = PaletteStyle::from_name("nord");
    // nord boosts 150 thousandths around hue 210 over 60 degrees
    let palette = vec![Hsl { h: 210, s: 400, l: 500 }, Hsl { h: 240, s: 400, l: 500 }];
    let boosted = boost_hues(&palette, &style);
    assert_eq!(boosted[0].s, 550);  // full boost at the center
    assert_eq!(boosted[1].s, 475);  // 150 * (60-30)/60 at 30 degrees out
}

#[test]
fn shifter_pulls_a_quarter_toward_the_nearest_target() {
    let style = PaletteStyle::from_name("nord");  // targets 213 and 179
    let palette = vec![Hsl { h: 213, s: 500, l: 500 }, Hsl { h: 233, s: 500, l: 500 }];
    let shifted = shift_to_targets(&palette, &style);
    assert_eq!(shifted[0].h, 213);
    assert_eq!(shifted[1].h, 228);  // 20 degrees from 213, quarter pull
}

#[test]
fn complementary_harmony_pulls_toward_opposing_targets() {
    let palette = vec![
        Hsl { h: 40, s: 1000, l: 500 },
        Hsl { h: 170, s: 1000, l: 500 },
    ];
    let out = harmonize(&palette, ColorHarmony::Complementary, 0);
    // 40 sits nearer the dominant target 0: pulled 45% back toward it
    assert_eq!(out[0].h, 22);
    // 170 sits nearer the complement 180: pulled 45% of 10 toward it
    assert_eq!(out[1].h, 174);
}

#[test]
fn analogous_harmony_narrows_outliers_toward_the_window() {
    let palette = vec![Hsl { h: 100, s: 1000, l: 500 }];
    let out = harmonize(&palette, ColorHarmony::Analogous, 0);
    // 70 degrees past the 30-degree window: pulled back by half the excess
    assert_eq!(out[0].h, 65);
    // inside the window nothing moves
    let near = harmonize(&vec![Hsl { h: 20, s: 1000, l: 500 }], ColorHarmony::Analogous, 0);
    assert_eq!(near[0].h, 20);
}

#[test]
fn extracted_harmony_is_identity() {
    let palette = vec![Hsl { h: 123, s: 456, l: 789 }];
    let out = harmonize(&palette, ColorHarmony::Extracted, 77);
    assert_eq!(out, palette);
}

#[test]
fn dominant_hue_of_unsaturated_palette_defaults_to_zero() {
    let palette = vec![Hsl { h: 200, s: 0, l: 500 }, Hsl { h: 100, s: 0, l: 300 }];
    assert_eq!(dominant_hue(&palette, true), 0);
}

#[test]
fn dominant_hue_follows_the_saturated_mass() {
    let palette = vec![
        Hsl { h: 120, s: 1000, l: 500 },
        Hsl { h: 124, s: 1000, l: 500 },
        Hsl { h: 116, s: 1000, l: 500 },
    ];
    let dom = dominant_hue(&palette, true);
    assert!(hue_dist(dom, 120) <= 3, "dominant hue {} strays from 120", dom);
}

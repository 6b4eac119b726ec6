use iro::color::{Hsl, Rgb};
use iro::config::IroConfig;
use iro::palette::PaletteGenerator;
use iro::pipeline::dominant_hue;
use iro::style::PaletteStyle;

fn gen() -> PaletteGenerator {
    PaletteGenerator::new(5000, PaletteStyle::from_name("balanced"))
}

#[test]
fn brightness_adjustment_rescales_lightness() {
    let out = gen().adjust_brightness(&Rgb { r: 100, g: 100, b: 200 }, 1300);
    assert_eq!(out, Rgb { r: 166, g: 166, b: 223 });
    // factor 1000 may still move channels through the HSL rounding,
    // but leaves a gray exactly in place
    let gray = gen().adjust_brightness(&Rgb { r: 128, g: 128, b: 128 }, 1000);
    assert_eq!(gray.r, gray.g);
    assert_eq!(gray.g, gray.b);
}

#[test]
fn style_adjustment_of_a_stored_color() {
    let out = gen().adjust_with_style(&Rgb { r: 240, g: 0, b: 0 }, false);
    assert_eq!(out, Rgb { r: 155, g: 65, b: 63 });
}

#[test]
fn background_of_an_empty_palette_is_the_mode_default() {
    assert_eq!(gen().generate_background(&Vec::new(), false), Rgb { r: 30, g: 30, b: 46 });
    assert_eq!(
        gen().generate_background(&Vec::new(), true),
        Rgb { r: 239, g: 241, b: 245 }
    );
}

#[test]
fn background_of_a_red_palette_carries_a_dark_red_tint() {
    let bg = gen().generate_background(&vec![Rgb { r: 240, g: 0, b: 0 }], false);
    assert_eq!(bg, Rgb { r: 0x25, g: 0x19, b: 0x19 });
}

#[test]
fn foreground_opposes_the_background_lightness() {
    let fg = gen().generate_foreground(&Rgb { r: 30, g: 30, b: 46 }, false);
    assert_eq!(fg, Rgb { r: 0xd5, g: 0xd5, b: 0xdc });
    let dark_text = gen().generate_foreground(&Rgb { r: 239, g: 241, b: 245 }, true);
    // dark text over a light background
    assert!(dark_text.r < 100 && dark_text.g < 100 && dark_text.b < 100);
}

#[test]
fn ranked_dominant_hue_leans_toward_the_first_entries() {
    let palette = vec![Hsl { h: 0, s: 1000, l: 500 }, Hsl { h: 120, s: 1000, l: 500 }];
    assert_eq!(dominant_hue(&palette, true), 29);
}

#[test]
fn default_config_matches_its_documented_values() {
    let config = IroConfig::default();
    assert_eq!(config.theme.mode, "dark");
    assert_eq!(config.theme.dark_background_style, "extracted");
    assert_eq!(config.theme.light_background_style, "pure-light");
    assert_eq!(config.palette.style, "lofi");
    assert_eq!(config.palette.diversity_threshold, 5000);
    assert_eq!(config.palette.color_count, 16);
}

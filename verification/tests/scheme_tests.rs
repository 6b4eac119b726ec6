use iro::color::{rgb_to_hsl, Hsl, Rgb};
use iro::color_extractor::{ColorExtractor, ColorScheme};
use iro::config::{IroConfig, PaletteConfig, ThemeConfig};
use iro::hex::parse_hex_color;
use iro::hue::hue_dist;
use iro::palette::PaletteGenerator;
use iro::scheme::{band_table, map_terminal_slots, pick_accent_secondary};
use iro::style::PaletteStyle;

fn config(style: &str, mode: &str, dark_bg: &str, custom: Option<&str>, count: usize) -> IroConfig {
    IroConfig {
        theme: ThemeConfig {
            mode: mode.to_string(),
            dark_background_style: dark_bg.to_string(),
            dark_background_custom: custom.map(|s| s.to_string()),
            light_background_style: "pure-light".to_string(),
            light_background_custom: None,
        },
        palette: PaletteConfig {
            style: style.to_string(),
            diversity_threshold: 5000,
            dark_saturation: 420,
            light_saturation: 370,
            light_brightness: 880,
            color_count: count,
        },
    }
}

fn gray_pixels() -> Vec<Rgb> {
    let mut pixels = Vec::new();
    for _ in 0..4 {
        pixels.push(Rgb { r: 32, g: 32, b: 32 });
    }
    for _ in 0..3 {
        pixels.push(Rgb { r: 96, g: 96, b: 96 });
    }
    for _ in 0..2 {
        pixels.push(Rgb { r: 160, g: 160, b: 160 });
    }
    pixels.push(Rgb { r: 224, g: 224, b: 224 });
    pixels
}

fn colorful_pixels() -> Vec<Rgb> {
    let mut pixels = Vec::new();
    for _ in 0..30 {
        pixels.push(Rgb { r: 200, g: 40, b: 40 });
    }
    for _ in 0..20 {
        pixels.push(Rgb { r: 40, g: 180, b: 80 });
    }
    for _ in 0..10 {
        pixels.push(Rgb { r: 60, g: 60, b: 220 });
    }
    pixels
}

#[test]
fn the_mapper_always_emits_sixteen_slots() {
    let style = PaletteStyle::from_name("balanced");
    let bg_hex = "#1e1e2e".to_string();
    let fg_hex = "#cdd6f4".to_string();
    let bg = Rgb { r: 30, g: 30, b: 46 };
    let fg = Rgb { r: 205, g: 214, b: 244 };
    for palette in [
        Vec::new(),
        vec![Hsl { h: 10, s: 800, l: 500 }],
        (0..16u32).map(|k| Hsl { h: (k * 20) % 360, s: 600, l: 500 }).collect::<Vec<_>>(),
    ] {
        let slots = map_terminal_slots(&palette, &style, false, &bg_hex, bg, &fg_hex, fg);
        assert_eq!(slots.len(), 16);
        assert_eq!(slots[0], bg_hex);
        assert_eq!(slots[7], fg_hex);
    }
}

#[test]
fn scheme_always_carries_sixteen_terminal_colors() {
    let extractor = ColorExtractor::new(config("balanced", "dark", "extracted", None, 16));
    for theme in ["dark", "light"] {
        let scheme = extractor.extract_colors(&colorful_pixels(), theme);
        assert_eq!(scheme.colors.len(), 16);
    }
    let tiny = ColorExtractor::new(config("balanced", "dark", "extracted", None, 1));
    assert_eq!(tiny.extract_colors(&colorful_pixels(), "dark").colors.len(), 16);
}

#[test]
fn repeated_runs_give_byte_identical_schemes() {
    let extractor = ColorExtractor::new(config("dracula", "dark", "extracted", None, 16));
    let a = extractor.extract_colors(&colorful_pixels(), "dark");
    let b = extractor.extract_colors(&colorful_pixels(), "dark");
    assert_eq!(a.background, b.background);
    assert_eq!(a.foreground, b.foreground);
    assert_eq!(a.colors, b.colors);
    assert_eq!(a.accent, b.accent);
    assert_eq!(a.secondary, b.secondary);
    assert_eq!(a.surface, b.surface);
    assert_eq!(a.error, b.error);
}

#[test]
fn gray_wallpaper_falls_back_to_fixed_dark_defaults() {
    // an all-gray image in dark mode under "lofi" with the
    // pure-dark background
    let extractor = ColorExtractor::new(config("lofi", "dark", "pure-dark", None, 4));
    let scheme = extractor.extract_colors(&gray_pixels(), "dark");
    assert_eq!(scheme.background, "#1e1e2e");
    assert_eq!(scheme.foreground, "#d5d5dc");
    assert_eq!(scheme.error, "#f38ba8");
}

#[test]
fn custom_background_string_is_carried_and_parses_fall_back() {
    let extractor =
        ColorExtractor::new(config("balanced", "dark", "custom", Some("not-a-color"), 4));
    let scheme = extractor.extract_colors(&gray_pixels(), "dark");
    assert_eq!(scheme.background, "not-a-color");
    // the unparseable background falls back to the fixed dark triple
    assert_eq!(scheme.foreground, "#d5d5dc");
    assert_eq!(scheme.surface, "#313244");
}

#[test]
fn dracula_slots_stay_near_their_declared_targets() {
    // dracula in dark mode: every chromatic slot hue must
    // lie within the pull radius of the declared band targets
    let extractor = ColorExtractor::new(config("dracula", "dark", "extracted", None, 8));
    let scheme = extractor.extract_colors(&colorful_pixels(), "dark");
    let style = PaletteStyle::from_name("dracula");
    let bands = band_table(&style);
    for i in 0..6 {
        let rgb = parse_hex_color(&scheme.colors[1 + i]).unwrap();
        let hue = rgb_to_hsl(rgb).h;
        let target = bands[i].target;
        assert!(
            hue_dist(hue, target) <= 40,
            "slot {} hue {} strays from target {}",
            1 + i,
            hue,
            target
        );
    }
}

#[test]
fn secondary_skips_colors_too_close_to_the_accent() {
    // the two most vibrant colors sit within distance 80
    let colors = vec![
        Rgb { r: 255, g: 0, b: 0 },
        Rgb { r: 200, g: 0, b: 0 },
        Rgb { r: 0, g: 0, b: 255 },
    ];
    let (accent, secondary) = pick_accent_secondary(&colors);
    assert_eq!(accent, Rgb { r: 255, g: 0, b: 0 });
    assert_eq!(secondary, Rgb { r: 0, g: 0, b: 255 });
}

#[test]
fn secondary_falls_back_to_second_rank_when_nothing_is_distinct() {
    let colors = vec![Rgb { r: 255, g: 0, b: 0 }, Rgb { r: 250, g: 0, b: 0 }];
    let (accent, secondary) = pick_accent_secondary(&colors);
    assert_eq!(accent, Rgb { r: 255, g: 0, b: 0 });
    assert_eq!(secondary, Rgb { r: 250, g: 0, b: 0 });
}

#[test]
fn single_color_palettes_duplicate_into_both_roles() {
    let colors = vec![Rgb { r: 10, g: 200, b: 30 }];
    let (accent, secondary) = pick_accent_secondary(&colors);
    assert_eq!(accent, secondary);
}

#[test]
fn empty_palettes_still_yield_a_full_scheme() {
    // the pipeline is total: an empty candidate palette degrades to
    // the coverage guarantor's six synthesized colors
    let extractor = ColorExtractor::new(config("balanced", "dark", "extracted", None, 16));
    let palette_gen = PaletteGenerator::new(5000, PaletteStyle::from_name("balanced"));
    let scheme = extractor.generate_dark_scheme(Vec::new(), &palette_gen);
    assert_eq!(scheme.colors.len(), 16);
    assert!(scheme.accent.starts_with('#'));
    assert!(scheme.secondary.starts_with('#'));
    let light = extractor.generate_light_scheme(Vec::new(), &palette_gen);
    assert_eq!(light.colors.len(), 16);
}

#[test]
fn zero_color_count_still_yields_a_full_scheme() {
    let extractor = ColorExtractor::new(config("balanced", "dark", "extracted", None, 0));
    let scheme = extractor.extract_colors(&colorful_pixels(), "dark");
    assert_eq!(scheme.colors.len(), 16);
}

#[test]
fn light_scheme_uses_the_light_error_color() {
    let extractor = ColorExtractor::new(config("balanced", "light", "extracted", None, 8));
    let scheme: ColorScheme = extractor.extract_colors(&colorful_pixels(), "light");
    assert_eq!(scheme.error, "#d20f39");
    assert_eq!(scheme.colors.len(), 16);
}

use iro::style::{ColorHarmony, PaletteStyle};

#[test]
fn unknown_names_resolve_to_the_same_default() {
    let a = PaletteStyle::from_name("no-such-style");
    let b = PaletteStyle::from_name("another-missing-one");
    let c = PaletteStyle::from_name("balanced");
    // "lofi" is the calm default under its historical name
    let d = PaletteStyle::from_name("lofi");
    for s in [&a, &b, &c, &d] {
        assert_eq!(s.description, "Calm balanced aesthetic");
        assert_eq!(s.dark_saturation, 420);
        assert_eq!(s.light_saturation, 370);
        assert_eq!(s.dark_brightness, 850);
        assert_eq!(s.light_brightness, 880);
        assert_eq!(s.contrast, 700);
        assert_eq!(s.warmth_shift, 50);
        assert!(s.hue_boosts.is_empty());
        assert!(s.target_hues.is_empty());
        assert_eq!(s.bg_tint_strength, 1000);
        assert_eq!(s.harmony, ColorHarmony::Extracted);
        assert!(s.slot_bands.is_empty());
    }
}

#[test]
fn lookup_is_repeatable_for_known_names() {
    let a = PaletteStyle::from_name("dracula");
    let b = PaletteStyle::from_name("dracula");
    assert_eq!(a.dark_saturation, b.dark_saturation);
    assert_eq!(a.warmth_shift, b.warmth_shift);
    assert_eq!(a.harmony, b.harmony);
    assert_eq!(a.target_hues, b.target_hues);
    assert_eq!(a.slot_bands, b.slot_bands);
}

#[test]
fn dracula_declares_split_complementary_and_a_band_table() {
    let d = PaletteStyle::from_name("dracula");
    assert_eq!(d.harmony, ColorHarmony::SplitComplementary);
    assert_eq!(d.slot_bands.len(), 6);
    assert_eq!(d.target_hues, vec![265, 326, 135, 191, 65, 0]);
    // every band contains its own canonical target
    for band in &d.slot_bands {
        let inside = if band.lo <= band.hi {
            band.lo <= band.target && band.target < band.hi
        } else {
            band.target >= band.lo || band.target < band.hi
        };
        assert!(inside);
    }
}

#[test]
fn the_catalog_lists_the_default_first() {
    let names = PaletteStyle::all_styles();
    assert_eq!(names[0], "balanced");
    assert_eq!(names.len(), 9);
    assert!(names.contains(&"lofi"));
    assert!(names.contains(&"dracula"));
    assert!(names.contains(&"kawaii"));
}

#[test]
fn nord_runs_cool_and_warm_runs_warm() {
    assert!(PaletteStyle::from_name("nord").warmth_shift < 0);
    assert!(PaletteStyle::from_name("warm").warmth_shift > 0);
}

use iro::color_extractor::ColorScheme;
use iro::config_generator::ConfigGenerator;

fn sample_scheme() -> ColorScheme {
    let mut colors = Vec::new();
    for i in 0..16 {
        colors.push(format!("#0000{:02x}", i));
    }
    ColorScheme {
        background: "#1e1e2e".to_string(),
        foreground: "#cdd6f4".to_string(),
        colors,
        accent: "#f5c2e7".to_string(),
        secondary: "#94e2d5".to_string(),
        surface: "#313244".to_string(),
        error: "#f38ba8".to_string(),
    }
}

#[test]
fn hyprland_section_interpolates_stripped_colors() {
    let generated = ConfigGenerator::new().generate_hyprland_colors(&sample_scheme());
    let expected = "\n# Dynamic Color scheme - Generated by iro\n\
                    $red = rgb(000001)\n\
                    $blue = rgb(000004)\n\
                    $yellow = rgb(000003)\n\
                    $magenta = rgb(000005)\n\
                    $accent = rgb(f5c2e7)\n\
                    $secondary = rgb(94e2d5)\n\
                    $text = rgb(cdd6f4)\n\
                    $surface = rgb(313244)\n\
                    $surface0 = rgb(313244)\n\
                    $base = rgb(1e1e2e)\n\
                    $mantle = rgb(292c3c)\n\
                    $crust = rgb(232634)\n\
                    $error = rgb(f38ba8)\n";
    assert_eq!(generated, expected);
}

#[test]
fn hyprland_section_uses_defaults_for_missing_slots() {
    let mut scheme = sample_scheme();
    scheme.colors.clear();
    let generated = ConfigGenerator::new().generate_hyprland_colors(&scheme);
    assert!(generated.contains("$red = rgb(e78284)\n"));
    assert!(generated.contains("$blue = rgb(8caaee)\n"));
    assert!(generated.contains("$yellow = rgb(e5c890)\n"));
    assert!(generated.contains("$magenta = rgb(ca9ee6)\n"));
}

#[test]
fn kitty_section_lists_every_slot_with_its_index() {
    let generated = ConfigGenerator::new().generate_kitty_colors(&sample_scheme());
    assert!(generated.starts_with(
        "# ═══════════════════════════════════════════════════════════════════\n\
         # DYNAMIC COLOR SCHEME - Generated by iro\n"
    ));
    for i in 0..16 {
        let line = format!("color{}   #0000{:02x}\n", i, i);
        assert!(generated.contains(&line), "missing {line:?}");
    }
    assert!(generated.contains("foreground            #cdd6f4\n"));
    assert!(generated.contains("background            #1e1e2e\n"));
    assert!(generated.contains("cursor                #f5c2e7\n"));
    assert!(generated.contains("inactive_tab_foreground #94e2d5\n"));
    assert!(generated.contains("bell_border_color     #f38ba8\n"));
    assert!(generated.ends_with("\n\n"));
}

#[test]
fn replace_section_swaps_between_markers() {
    let gen = ConfigGenerator::new();
    let content = "head\n# START\nold stuff\n# END\ntail\n";
    let replaced = gen.replace_section(content, "# START", "# END", "NEW\n");
    assert_eq!(replaced, "head\nNEW\n# END\ntail\n");
}

#[test]
fn replace_section_without_end_marker_drops_the_tail() {
    let gen = ConfigGenerator::new();
    let replaced = gen.replace_section("head\n# START\nold", "# START", "# MISSING", "NEW");
    assert_eq!(replaced, "head\nNEW");
    let truncated = gen.replace_section("head\n# START\nold", "# START", "", "NEW");
    assert_eq!(truncated, "head\nNEW");
}

#[test]
fn replace_section_leaves_unmarked_content_alone() {
    let gen = ConfigGenerator::new();
    let content = "no markers here";
    assert_eq!(gen.replace_section(content, "# START", "# END", "NEW"), content);
}

#[test]
fn insert_after_section_splices_on_a_fresh_line() {
    let gen = ConfigGenerator::new();
    assert_eq!(gen.insert_after_section("a }\nrest", "}", "INS\n"), "a }\nINS\n\nrest");
    assert_eq!(gen.insert_after_section("no marker", "}", "INS"), "no marker\nINS");
}

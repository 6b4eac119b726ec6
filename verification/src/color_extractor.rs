//! The top of the pipeline: run every stage over a pixel buffer and
//! assemble the final immutable color scheme record.

use crate::color::{hsl_to_rgb, rgb_to_hsl, spec_hsl_to_rgb, spec_rgb_to_hsl, Hsl, Rgb};
use crate::config::{IroConfig, IroConfigModel, ThemeConfigModel};
use crate::extract::spec_extract_palette;
use crate::hex::{parse_hex_color, rgb_to_hex, spec_hex_color, spec_parse_hex_color};
use crate::palette::{
    spec_adjust_brightness, spec_generate_background, spec_generate_foreground,
    PaletteGenerator,
};
use crate::pipeline::{
    adjust_palette, boost_hues, dominant_hue, ensure_hue_coverage, harmonize, palette_wf,
    shift_to_targets, spec_adjust_palette, spec_boost_palette, spec_dominant_hue,
    spec_ensure_coverage, spec_harmonize, spec_shift_palette,
};
use crate::scheme::{
    map_terminal_slots, pick_accent_secondary, spec_accent, spec_secondary, spec_slots,
};
use crate::style::{spec_style_of, style_wf, PaletteStyle, StyleModel};
use crate::text::str_eq;
use vstd::prelude::*;
use vstd::string::StringExecFns;

verus! {

/// The final artifact: background, foreground, the sixteen terminal
/// slots and the UI accent roles, each as a hex string.
#[derive(Clone, Debug)]
pub struct ColorScheme {
    pub background: String,
    pub foreground: String,
    pub colors: Vec<String>,
    pub accent: String,
    pub secondary: String,
    pub surface: String,
    pub error: String,
}

/// The mathematical shape of a color scheme.
pub ghost struct SchemeModel {
    pub background: Seq<char>,
    pub foreground: Seq<char>,
    pub colors: Seq<Seq<char>>,
    pub accent: Seq<char>,
    pub secondary: Seq<char>,
    pub surface: Seq<char>,
    pub error: Seq<char>,
}

impl View for ColorScheme {
    type V = SchemeModel;

    open spec fn view(&self) -> SchemeModel {
        SchemeModel {
            background: self.background@,
            foreground: self.foreground@,
            colors: self.colors@.map_values(|s: String| s@),
            accent: self.accent@,
            secondary: self.secondary@,
            surface: self.surface@,
            error: self.error@,
        }
    }
}

/// The mode's fixed default background rendering.
pub open spec fn spec_default_bg_hex(is_light: bool) -> Seq<char> {
    if is_light {
        "#eff1f5"@
    } else {
        "#1e1e2e"@
    }
}

pub open spec fn spec_default_bg_rgb(is_light: bool) -> Rgb {
    if is_light {
        Rgb { r: 239, g: 241, b: 245 }
    } else {
        Rgb { r: 30, g: 30, b: 46 }
    }
}

/// The fixed surface color used when the background fails to parse.
pub open spec fn spec_fallback_surface(is_light: bool) -> Rgb {
    if is_light {
        Rgb { r: 230, g: 233, b: 239 }
    } else {
        Rgb { r: 49, g: 50, b: 68 }
    }
}

fn default_bg_hex(is_light: bool) -> (r: String)
    ensures
        r@ == spec_default_bg_hex(is_light),
{
    if is_light {
        String::from_str("#eff1f5")
    } else {
        String::from_str("#1e1e2e")
    }
}

/// The background hex string a theme configuration selects: the
/// extracted rendering, the custom string, or the mode default.
pub open spec fn spec_background_hex(
    enhanced: Seq<Rgb>,
    sm: StyleModel,
    tm: ThemeConfigModel,
    is_light: bool,
) -> Seq<char> {
    let bgsty = if is_light {
        tm.light_background_style
    } else {
        tm.dark_background_style
    };
    let custom = if is_light {
        tm.light_background_custom
    } else {
        tm.dark_background_custom
    };
    if bgsty == "extracted"@ {
        spec_hex_color(spec_generate_background(enhanced, sm.bg_tint_strength, is_light))
    } else if bgsty == "custom"@ {
        match custom {
            Some(s) => s,
            None => spec_default_bg_hex(is_light),
        }
    } else {
        spec_default_bg_hex(is_light)
    }
}

/// The scheme a dominant palette yields under a style and theme, with
/// every stage of the pipeline applied in order.
pub open spec fn spec_scheme_from_palette(
    dominant: Seq<Rgb>,
    sm: StyleModel,
    tm: ThemeConfigModel,
    is_light: bool,
) -> SchemeModel {
    let hsls = dominant.map_values(|c: Rgb| spec_rgb_to_hsl(c));
    let dom = spec_dominant_hue(hsls, true);
    let harmonized = spec_harmonize(hsls, sm.harmony, dom);
    let boosted = spec_boost_palette(harmonized, sm.hue_boosts);
    let shifted = spec_shift_palette(boosted, sm.target_hues);
    let covered = spec_ensure_coverage(shifted, is_light);
    let adjusted = spec_adjust_palette(covered, sm, is_light);
    let enhanced = adjusted.map_values(|c: Hsl| spec_hsl_to_rgb(c));
    let bg_hex = spec_background_hex(enhanced, sm, tm, is_light);
    let parsed = spec_parse_hex_color(bg_hex);
    let bg_rgb = match parsed {
        Some(c) => c,
        None => spec_default_bg_rgb(is_light),
    };
    let fg_rgb = spec_generate_foreground(bg_rgb, is_light);
    let fg_hex = spec_hex_color(fg_rgb);
    SchemeModel {
        background: bg_hex,
        foreground: fg_hex,
        colors: spec_slots(adjusted, sm, is_light, bg_hex, bg_rgb, fg_hex, fg_rgb),
        accent: spec_hex_color(spec_accent(enhanced)),
        secondary: spec_hex_color(spec_secondary(enhanced)),
        surface: match parsed {
            Some(c) => spec_hex_color(
                spec_adjust_brightness(
                    c,
                    if is_light {
                        920
                    } else {
                        1200
                    },
                ),
            ),
            None => spec_hex_color(spec_fallback_surface(is_light)),
        },
        error: if is_light {
            "#d20f39"@
        } else {
            "#f38ba8"@
        },
    }
}

/// The whole run as one function of pixels, configuration and theme.
pub open spec fn spec_extract_colors(
    pixels: Seq<Rgb>,
    cfg: IroConfigModel,
    theme: Seq<char>,
) -> SchemeModel {
    let is_light = theme == "light"@;
    spec_scheme_from_palette(
        spec_extract_palette(pixels, cfg.palette.diversity_threshold, cfg.palette.color_count),
        spec_style_of(cfg.palette.style),
        cfg.theme,
        is_light,
    )
}

/// Determinism: the scheme model is a function of the pixel buffer,
/// the configuration and the theme alone, so two runs over the same
/// inputs yield identical output.
pub proof fn lemma_scheme_determinism(
    pixels: Seq<Rgb>,
    cfg: IroConfigModel,
    theme: Seq<char>,
    a: SchemeModel,
    b: SchemeModel,
)
    requires
        a == spec_extract_colors(pixels, cfg, theme),
        b == spec_extract_colors(pixels, cfg, theme),
    ensures
        a == b,
{
}

fn rgbs_to_hsls(colors: &Vec<Rgb>) -> (r: Vec<Hsl>)
    ensures
        r@ == colors@.map_values(|c: Rgb| spec_rgb_to_hsl(c)),
        palette_wf(r@),
        r@.len() == colors@.len(),
{
    let mut r: Vec<Hsl> = Vec::new();
    let mut i: usize = 0;
    while i < colors.len()
        invariant
            0 <= i <= colors@.len(),
            r@.len() == i,
            forall|k: int|
                0 <= k < i ==> (#[trigger] r@[k]) == spec_rgb_to_hsl(colors@[k]) && crate::color::hsl_wf(
                    r@[k],
                ),
        decreases colors@.len() - i,
    {
        r.push(rgb_to_hsl(colors[i]));
        i = i + 1;
    }
    proof {
        assert(r@ =~= colors@.map_values(|c: Rgb| spec_rgb_to_hsl(c)));
    }
    r
}

fn hsls_to_rgbs(p: &Vec<Hsl>) -> (r: Vec<Rgb>)
    requires
        palette_wf(p@),
    ensures
        r@ == p@.map_values(|c: Hsl| spec_hsl_to_rgb(c)),
        r@.len() == p@.len(),
{
    let mut r: Vec<Rgb> = Vec::new();
    let mut i: usize = 0;
    while i < p.len()
        invariant
            0 <= i <= p@.len(),
            palette_wf(p@),
            r@.len() == i,
            forall|k: int| 0 <= k < i ==> (#[trigger] r@[k]) == spec_hsl_to_rgb(p@[k]),
        decreases p@.len() - i,
    {
        r.push(hsl_to_rgb(p[i]));
        i = i + 1;
    }
    proof {
        assert(r@ =~= p@.map_values(|c: Hsl| spec_hsl_to_rgb(c)));
    }
    r
}

/// Runs the pipeline under one loaded configuration.
pub struct ColorExtractor {
    pub config: IroConfig,
}

impl ColorExtractor {
    pub fn new(config: IroConfig) -> (r: ColorExtractor)
        ensures
            r.config == config,
    {
        ColorExtractor { config }
    }

    /// The stages after extraction; total even over an empty palette,
    /// which the coverage guarantor tops up with its six synthesized
    /// colors before any consuming stage runs.
    fn build_scheme(
        &self,
        dominant_colors: &Vec<Rgb>,
        palette_gen: &PaletteGenerator,
        is_light: bool,
    ) -> (r: ColorScheme)
        requires
            dominant_colors@.len() <= 1000,
            style_wf(&palette_gen.style),
        ensures
            r@ == spec_scheme_from_palette(
                dominant_colors@,
                palette_gen.style@,
                self.config.theme@,
                is_light,
            ),
    {
        let style = &palette_gen.style;
        let hsls = rgbs_to_hsls(dominant_colors);
        let dom = dominant_hue(&hsls, true);
        let harmonized = harmonize(&hsls, style.harmony, dom);
        let boosted = boost_hues(&harmonized, style);
        let shifted = shift_to_targets(&boosted, style);
        let covered = ensure_hue_coverage(shifted, is_light);
        proof {
            crate::pipeline::lemma_coverage_nonempty(shifted@, is_light);
        }
        let adjusted = adjust_palette(&covered, style, is_light);
        let enhanced = hsls_to_rgbs(&adjusted);
        let background_hex: String = {
            let bgsty = if is_light {
                &self.config.theme.light_background_style
            } else {
                &self.config.theme.dark_background_style
            };
            if str_eq(bgsty.as_str(), "extracted") {
                let bg = palette_gen.generate_background(&enhanced, is_light);
                rgb_to_hex(&bg)
            } else if str_eq(bgsty.as_str(), "custom") {
                let custom = if is_light {
                    &self.config.theme.light_background_custom
                } else {
                    &self.config.theme.dark_background_custom
                };
                match custom {
                    Some(s) => s.clone(),
                    None => default_bg_hex(is_light),
                }
            } else {
                default_bg_hex(is_light)
            }
        };
        let parsed = parse_hex_color(background_hex.as_str());
        let bg_rgb = match parsed {
            Some(c) => c,
            None => if is_light {
                Rgb { r: 239, g: 241, b: 245 }
            } else {
                Rgb { r: 30, g: 30, b: 46 }
            },
        };
        let fg_rgb = palette_gen.generate_foreground(&bg_rgb, is_light);
        let foreground_hex = rgb_to_hex(&fg_rgb);
        let colors = map_terminal_slots(
            &adjusted,
            style,
            is_light,
            &background_hex,
            bg_rgb,
            &foreground_hex,
            fg_rgb,
        );
        let (accent, secondary) = pick_accent_secondary(&enhanced);
        let surface_hex = match parsed {
            Some(c) => {
                let f: u32 = if is_light {
                    920
                } else {
                    1200
                };
                rgb_to_hex(&palette_gen.adjust_brightness(&c, f))
            },
            None => {
                let fallback = if is_light {
                    Rgb { r: 230, g: 233, b: 239 }
                } else {
                    Rgb { r: 49, g: 50, b: 68 }
                };
                rgb_to_hex(&fallback)
            },
        };
        let error_hex = if is_light {
            String::from_str("#d20f39")
        } else {
            String::from_str("#f38ba8")
        };
        let result = ColorScheme {
            background: background_hex,
            foreground: foreground_hex,
            colors,
            accent: rgb_to_hex(&accent),
            secondary: rgb_to_hex(&secondary),
            surface: surface_hex,
            error: error_hex,
        };
        proof {
            let m = spec_scheme_from_palette(
                dominant_colors@,
                palette_gen.style@,
                self.config.theme@,
                is_light,
            );
            assert(result@.colors =~= m.colors);
            assert(result@ == m);
        }
        result
    }

    /// Build the dark-mode scheme from extracted dominant colors.
    pub fn generate_dark_scheme(
        &self,
        dominant_colors: Vec<Rgb>,
        palette_gen: &PaletteGenerator,
    ) -> (r: ColorScheme)
        requires
            dominant_colors@.len() <= 1000,
            style_wf(&palette_gen.style),
        ensures
            r@ == spec_scheme_from_palette(
                dominant_colors@,
                palette_gen.style@,
                self.config.theme@,
                false,
            ),
    {
        self.build_scheme(&dominant_colors, palette_gen, false)
    }

    /// Build the light-mode scheme from extracted dominant colors.
    pub fn generate_light_scheme(
        &self,
        dominant_colors: Vec<Rgb>,
        palette_gen: &PaletteGenerator,
    ) -> (r: ColorScheme)
        requires
            dominant_colors@.len() <= 1000,
            style_wf(&palette_gen.style),
        ensures
            r@ == spec_scheme_from_palette(
                dominant_colors@,
                palette_gen.style@,
                self.config.theme@,
                true,
            ),
    {
        self.build_scheme(&dominant_colors, palette_gen, true)
    }

    /// Run the whole pipeline over a decoded pixel buffer: every theme
    /// but "light" renders the dark scheme.
    pub fn extract_colors(&self, pixels: &Vec<Rgb>, theme: &str) -> (r: ColorScheme)
        requires
            self.config.palette.color_count <= 1000,
        ensures
            r@ == spec_extract_colors(pixels@, self.config@, theme@),
            r@.colors.len() == 16,
    {
        let style = PaletteStyle::from_name(self.config.palette.style.as_str());
        let palette_gen = PaletteGenerator::new(self.config.palette.diversity_threshold, style);
        let dominant = palette_gen.extract_palette(pixels, self.config.palette.color_count);
        if str_eq(theme, "light") {
            self.generate_light_scheme(dominant, &palette_gen)
        } else {
            self.generate_dark_scheme(dominant, &palette_gen)
        }
    }
}

} // verus!

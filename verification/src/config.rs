//! Caller-facing configuration: which theme mode to produce, where the
//! background comes from, and the extraction tuning knobs.
//!
//! All factors are thousandths (1000 stands for 1.0); the diversity
//! threshold is in hundredths of the weighted channel metric, so the
//! customary threshold of 50.0 is the value 5000.

use vstd::prelude::*;
use vstd::string::StringExecFns;

verus! {

/// Theme-level choices: mode and background sources.
#[derive(Clone, Debug)]
pub struct ThemeConfig {
    /// "light", "dark" or "auto"; anything but "light" renders dark.
    pub mode: String,
    /// "extracted", "pure-dark" or "custom".
    pub dark_background_style: String,
    /// Hex string used when the dark background style is "custom".
    pub dark_background_custom: Option<String>,
    /// "extracted", "pure-light" or "custom".
    pub light_background_style: String,
    /// Hex string used when the light background style is "custom".
    pub light_background_custom: Option<String>,
}

/// Extraction tuning.
#[derive(Clone, Debug)]
pub struct PaletteConfig {
    /// Style preset name; unknown names resolve to the default preset.
    pub style: String,
    /// Minimum weighted channel distance between accepted colors, in
    /// hundredths.
    pub diversity_threshold: u32,
    /// Saturation factor for dark mode, in thousandths.
    pub dark_saturation: u32,
    /// Saturation factor for light mode, in thousandths.
    pub light_saturation: u32,
    /// Brightness factor for light mode, in thousandths.
    pub light_brightness: u32,
    /// How many colors extraction should deliver.
    pub color_count: usize,
}

/// The whole configuration record.
#[derive(Clone, Debug)]
pub struct IroConfig {
    pub theme: ThemeConfig,
    pub palette: PaletteConfig,
}

/// The mathematical shape of the theme choices.
pub ghost struct ThemeConfigModel {
    pub mode: Seq<char>,
    pub dark_background_style: Seq<char>,
    pub dark_background_custom: Option<Seq<char>>,
    pub light_background_style: Seq<char>,
    pub light_background_custom: Option<Seq<char>>,
}

impl View for ThemeConfig {
    type V = ThemeConfigModel;

    open spec fn view(&self) -> ThemeConfigModel {
        ThemeConfigModel {
            mode: self.mode@,
            dark_background_style: self.dark_background_style@,
            dark_background_custom: match self.dark_background_custom {
                Some(s) => Some(s@),
                None => None,
            },
            light_background_style: self.light_background_style@,
            light_background_custom: match self.light_background_custom {
                Some(s) => Some(s@),
                None => None,
            },
        }
    }
}

/// The mathematical shape of the extraction knobs.
pub ghost struct PaletteConfigModel {
    pub style: Seq<char>,
    pub diversity_threshold: int,
    pub dark_saturation: int,
    pub light_saturation: int,
    pub light_brightness: int,
    pub color_count: int,
}

impl View for PaletteConfig {
    type V = PaletteConfigModel;

    open spec fn view(&self) -> PaletteConfigModel {
        PaletteConfigModel {
            style: self.style@,
            diversity_threshold: self.diversity_threshold as int,
            dark_saturation: self.dark_saturation as int,
            light_saturation: self.light_saturation as int,
            light_brightness: self.light_brightness as int,
            color_count: self.color_count as int,
        }
    }
}

/// The mathematical shape of the whole configuration.
pub ghost struct IroConfigModel {
    pub theme: ThemeConfigModel,
    pub palette: PaletteConfigModel,
}

impl View for IroConfig {
    type V = IroConfigModel;

    open spec fn view(&self) -> IroConfigModel {
        IroConfigModel { theme: self.theme@, palette: self.palette@ }
    }
}

impl Default for IroConfig {
    /// Dark mode over an extracted background, the default preset and
    /// a threshold of 50.0 units over 16 colors.
    fn default() -> (r: IroConfig)
        ensures
            r.theme.mode@ == "dark"@,
            r.theme.dark_background_style@ == "extracted"@,
            r.theme.dark_background_custom is None,
            r.theme.light_background_style@ == "pure-light"@,
            r.theme.light_background_custom is None,
            r.palette.style@ == "lofi"@,
            r.palette.diversity_threshold == 5000,
            r.palette.dark_saturation == 420,
            r.palette.light_saturation == 370,
            r.palette.light_brightness == 880,
            r.palette.color_count == 16,
    {
        IroConfig {
            theme: ThemeConfig {
                mode: String::from_str("dark"),
                dark_background_style: String::from_str("extracted"),
                dark_background_custom: None,
                light_background_style: String::from_str("pure-light"),
                light_background_custom: None,
            },
            palette: PaletteConfig {
                style: String::from_str("lofi"),
                diversity_threshold: 5000,
                dark_saturation: 420,
                light_saturation: 370,
                light_brightness: 880,
                color_count: 16,
            },
        }
    }
}

} // verus!

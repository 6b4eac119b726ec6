//! The style catalog: named immutable presets steering every pipeline
//! stage, looked up once at the start of a run.
//!
//! Unknown names never fail: they resolve to the "balanced" default
//! preset, identically on every call.

use crate::text::str_eq;
use vstd::prelude::*;
use vstd::string::StringExecFns;

verus! {

/// Which harmonization transform runs on the extracted palette.
#[derive(Clone, Copy, Debug, PartialEq, Eq, Structural)]
pub enum ColorHarmony {
    Extracted,
    Analogous,
    Triadic,
    SplitComplementary,
    Complementary,
}

/// Raise saturation near `center`: within `range` degrees the boost
/// falls off linearly from `boost` thousandths to zero.
#[derive(Clone, Copy, Debug, PartialEq, Eq, Structural)]
pub struct HueBoost {
    pub center: u32,
    pub range: u32,
    pub boost: u32,
}

/// One terminal hue band: the arc from `lo` clockwise to `hi`
/// (wrapping past 360 when `lo > hi`) and its canonical target hue.
#[derive(Clone, Copy, Debug, PartialEq, Eq, Structural)]
pub struct HueBand {
    pub lo: u32,
    pub hi: u32,
    pub target: u32,
}

/// A named preset.  Factors are thousandths; `warmth_shift` spans
/// `[-1000, 1000]` and turns into a rotation of up to 30 degrees.
#[derive(Clone, Debug)]
pub struct PaletteStyle {
    pub description: String,
    pub dark_saturation: u32,
    pub light_saturation: u32,
    pub dark_brightness: u32,
    pub light_brightness: u32,
    pub contrast: u32,
    pub warmth_shift: i32,
    pub hue_boosts: Vec<HueBoost>,
    pub target_hues: Vec<u32>,
    pub bg_tint_strength: u32,
    pub harmony: ColorHarmony,
    /// Six custom terminal bands, or empty for the generic
    /// warmth-shifted table.
    pub slot_bands: Vec<HueBand>,
}

/// The mathematical shape of a preset.
pub ghost struct StyleModel {
    pub description: Seq<char>,
    pub dark_saturation: int,
    pub light_saturation: int,
    pub dark_brightness: int,
    pub light_brightness: int,
    pub contrast: int,
    pub warmth_shift: int,
    pub hue_boosts: Seq<HueBoost>,
    pub target_hues: Seq<u32>,
    pub bg_tint_strength: int,
    pub harmony: ColorHarmony,
    pub slot_bands: Seq<HueBand>,
}

impl View for PaletteStyle {
    type V = StyleModel;

    open spec fn view(&self) -> StyleModel {
        StyleModel {
            description: self.description@,
            dark_saturation: self.dark_saturation as int,
            light_saturation: self.light_saturation as int,
            dark_brightness: self.dark_brightness as int,
            light_brightness: self.light_brightness as int,
            contrast: self.contrast as int,
            warmth_shift: self.warmth_shift as int,
            hue_boosts: self.hue_boosts@,
            target_hues: self.target_hues@,
            bg_tint_strength: self.bg_tint_strength as int,
            harmony: self.harmony,
            slot_bands: self.slot_bands@,
        }
    }
}

/// The bounds every preset keeps and every stage relies on.
pub open spec fn style_wf(s: &PaletteStyle) -> bool {
    &&& s.dark_saturation <= 2000
    &&& s.light_saturation <= 2000
    &&& s.dark_brightness <= 2000
    &&& s.light_brightness <= 2000
    &&& s.contrast <= 2000
    &&& -1000 <= s.warmth_shift <= 1000
    &&& s.bg_tint_strength <= 2000
    &&& s.hue_boosts@.len() <= 16
    &&& forall|i: int|
        0 <= i < s.hue_boosts@.len() ==> (#[trigger] s.hue_boosts@[i]).center < 360
            && 1 <= s.hue_boosts@[i].range <= 180 && s.hue_boosts@[i].boost <= 1000
    &&& forall|i: int| 0 <= i < s.target_hues@.len() ==> #[trigger] s.target_hues@[i] < 360
    &&& (s.slot_bands@.len() == 0 || s.slot_bands@.len() == 6)
    &&& forall|i: int|
        0 <= i < s.slot_bands@.len() ==> (#[trigger] s.slot_bands@[i]).lo < 360
            && s.slot_bands@[i].hi < 360 && s.slot_bands@[i].target < 360
}

fn no_boosts() -> (r: Vec<HueBoost>)
    ensures
        r@ == Seq::<HueBoost>::empty(),
{
    Vec::new()
}

fn boosts1(a: HueBoost) -> (r: Vec<HueBoost>)
    ensures
        r@ == seq![a],
{
    let mut v: Vec<HueBoost> = Vec::new();
    v.push(a);
    proof {
        assert(v@ =~= seq![a]);
    }
    v
}

fn boosts2(a: HueBoost, b: HueBoost) -> (r: Vec<HueBoost>)
    ensures
        r@ == seq![a, b],
{
    let mut v: Vec<HueBoost> = Vec::new();
    v.push(a);
    v.push(b);
    proof {
        assert(v@ =~= seq![a, b]);
    }
    v
}

fn no_targets() -> (r: Vec<u32>)
    ensures
        r@ == Seq::<u32>::empty(),
{
    Vec::new()
}

fn targets2(a: u32, b: u32) -> (r: Vec<u32>)
    ensures
        r@ == seq![a, b],
{
    let mut v: Vec<u32> = Vec::new();
    v.push(a);
    v.push(b);
    proof {
        assert(v@ =~= seq![a, b]);
    }
    v
}

fn targets3(a: u32, b: u32, c: u32) -> (r: Vec<u32>)
    ensures
        r@ == seq![a, b, c],
{
    let mut v: Vec<u32> = Vec::new();
    v.push(a);
    v.push(b);
    v.push(c);
    proof {
        assert(v@ =~= seq![a, b, c]);
    }
    v
}

fn targets6(a: u32, b: u32, c: u32, d: u32, e: u32, f: u32) -> (r: Vec<u32>)
    ensures
        r@ == seq![a, b, c, d, e, f],
{
    let mut v: Vec<u32> = Vec::new();
    v.push(a);
    v.push(b);
    v.push(c);
    v.push(d);
    v.push(e);
    v.push(f);
    proof {
        assert(v@ =~= seq![a, b, c, d, e, f]);
    }
    v
}

fn no_bands() -> (r: Vec<HueBand>)
    ensures
        r@ == Seq::<HueBand>::empty(),
{
    Vec::new()
}

fn bands6(a: HueBand, b: HueBand, c: HueBand, d: HueBand, e: HueBand, f: HueBand) -> (r: Vec<
    HueBand,
>)
    ensures
        r@ == seq![a, b, c, d, e, f],
{
    let mut v: Vec<HueBand> = Vec::new();
    v.push(a);
    v.push(b);
    v.push(c);
    v.push(d);
    v.push(e);
    v.push(f);
    proof {
        assert(v@ =~= seq![a, b, c, d, e, f]);
    }
    v
}

/// The calm default preset; "balanced" and "lofi" both name it, and
/// every unknown name resolves to it.
pub open spec fn balanced_model() -> StyleModel {
    StyleModel {
        description: "Calm balanced aesthetic"@,
        dark_saturation: 420,
        light_saturation: 370,
        dark_brightness: 850,
        light_brightness: 880,
        contrast: 700,
        warmth_shift: 50,
        hue_boosts: Seq::empty(),
        target_hues: Seq::empty(),
        bg_tint_strength: 1000,
        harmony: ColorHarmony::Extracted,
        slot_bands: Seq::empty(),
    }
}

pub open spec fn nord_model() -> StyleModel {
    StyleModel {
        description: "Cool nordic minimal"@,
        dark_saturation: 350,
        light_saturation: 300,
        dark_brightness: 820,
        light_brightness: 880,
        contrast: 650,
        warmth_shift: -120,
        hue_boosts: seq![HueBoost { center: 210, range: 60, boost: 150 }],
        target_hues: seq![213u32, 179u32],
        bg_tint_strength: 900,
        harmony: ColorHarmony::Analogous,
        slot_bands: Seq::empty(),
    }
}

pub open spec fn warm_model() -> StyleModel {
    StyleModel {
        description: "Cozy warm tones"@,
        dark_saturation: 400,
        light_saturation: 350,
        dark_brightness: 850,
        light_brightness: 880,
        contrast: 680,
        warmth_shift: 150,
        hue_boosts: seq![HueBoost { center: 30, range: 45, boost: 120 }],
        target_hues: Seq::empty(),
        bg_tint_strength: 1100,
        harmony: ColorHarmony::Extracted,
        slot_bands: Seq::empty(),
    }
}

pub open spec fn muted_model() -> StyleModel {
    StyleModel {
        description: "Soft neutral palette"@,
        dark_saturation: 380,
        light_saturation: 330,
        dark_brightness: 840,
        light_brightness: 880,
        contrast: 670,
        warmth_shift: 20,
        hue_boosts: Seq::empty(),
        target_hues: Seq::empty(),
        bg_tint_strength: 700,
        harmony: ColorHarmony::Extracted,
        slot_bands: Seq::empty(),
    }
}

pub open spec fn dracula_model() -> StyleModel {
    StyleModel {
        description: "Dark vivid contrast"@,
        dark_saturation: 550,
        light_saturation: 450,
        dark_brightness: 900,
        light_brightness: 850,
        contrast: 750,
        warmth_shift: -80,
        hue_boosts: seq![
            HueBoost { center: 265, range: 50, boost: 200 },
            HueBoost { center: 326, range: 40, boost: 150 },
        ],
        target_hues: seq![265u32, 326u32, 135u32, 191u32, 65u32, 0u32],
        bg_tint_strength: 1300,
        harmony: ColorHarmony::SplitComplementary,
        slot_bands: seq![
            HueBand { lo: 330, hi: 30, target: 0 },
            HueBand { lo: 30, hi: 100, target: 65 },
            HueBand { lo: 100, hi: 160, target: 135 },
            HueBand { lo: 160, hi: 220, target: 191 },
            HueBand { lo: 220, hi: 290, target: 265 },
            HueBand { lo: 290, hi: 330, target: 326 },
        ],
    }
}

pub open spec fn kawaii_model() -> StyleModel {
    StyleModel {
        description: "Playful pink pastels"@,
        dark_saturation: 650,
        light_saturation: 550,
        dark_brightness: 900,
        light_brightness: 900,
        contrast: 800,
        warmth_shift: 100,
        hue_boosts: seq![
            HueBoost { center: 320, range: 60, boost: 250 },
            HueBoost { center: 180, range: 40, boost: 120 },
        ],
        target_hues: seq![325u32, 200u32, 50u32],
        bg_tint_strength: 1500,
        harmony: ColorHarmony::Extracted,
        slot_bands: seq![
            HueBand { lo: 330, hi: 30, target: 355 },
            HueBand { lo: 30, hi: 100, target: 55 },
            HueBand { lo: 100, hi: 160, target: 130 },
            HueBand { lo: 160, hi: 220, target: 185 },
            HueBand { lo: 220, hi: 290, target: 250 },
            HueBand { lo: 290, hi: 330, target: 320 },
        ],
    }
}

pub open spec fn vibrant_model() -> StyleModel {
    StyleModel {
        description: "Bold saturated hues"@,
        dark_saturation: 800,
        light_saturation: 650,
        dark_brightness: 950,
        light_brightness: 900,
        contrast: 900,
        warmth_shift: 0,
        hue_boosts: Seq::empty(),
        target_hues: Seq::empty(),
        bg_tint_strength: 1200,
        harmony: ColorHarmony::Triadic,
        slot_bands: Seq::empty(),
    }
}

pub open spec fn pastel_model() -> StyleModel {
    StyleModel {
        description: "Gentle washed pastels"@,
        dark_saturation: 300,
        light_saturation: 280,
        dark_brightness: 950,
        light_brightness: 950,
        contrast: 600,
        warmth_shift: 30,
        hue_boosts: Seq::empty(),
        target_hues: Seq::empty(),
        bg_tint_strength: 600,
        harmony: ColorHarmony::Complementary,
        slot_bands: Seq::empty(),
    }
}

/// The preset a name resolves to; "balanced", "lofi" and every
/// unknown name give the calm default.
pub open spec fn spec_style_of(name: Seq<char>) -> StyleModel {
    if name == "nord"@ {
        nord_model()
    } else if name == "warm"@ {
        warm_model()
    } else if name == "muted"@ {
        muted_model()
    } else if name == "dracula"@ {
        dracula_model()
    } else if name == "kawaii"@ {
        kawaii_model()
    } else if name == "vibrant"@ {
        vibrant_model()
    } else if name == "pastel"@ {
        pastel_model()
    } else {
        balanced_model()
    }
}

/// A name the catalog knows.
pub open spec fn spec_known_style(name: Seq<char>) -> bool {
    name == "balanced"@ || name == "lofi"@ || name == "nord"@ || name == "warm"@ || name
        == "muted"@ || name == "dracula"@ || name == "kawaii"@ || name == "vibrant"@ || name
        == "pastel"@
}

/// Unknown style names always resolve to the same default preset, and
/// never to an error: looking one up twice gives the same result.
pub proof fn lemma_unknown_style_defaults(name: Seq<char>)
    requires
        !spec_known_style(name),
    ensures
        spec_style_of(name) == balanced_model(),
{
}

impl PaletteStyle {
    /// Look a preset up by name; unknown names give the balanced
    /// default, identically on every call.
    pub fn from_name(name: &str) -> (r: PaletteStyle)
        ensures
            r@ == spec_style_of(name@),
            style_wf(&r),
    {
        if str_eq(name, "nord") {
            PaletteStyle {
                description: String::from_str("Cool nordic minimal"),
                dark_saturation: 350,
                light_saturation: 300,
                dark_brightness: 820,
                light_brightness: 880,
                contrast: 650,
                warmth_shift: -120,
                hue_boosts: boosts1(HueBoost { center: 210, range: 60, boost: 150 }),
                target_hues: targets2(213, 179),
                bg_tint_strength: 900,
                harmony: ColorHarmony::Analogous,
                slot_bands: no_bands(),
            }
        } else if str_eq(name, "warm") {
            PaletteStyle {
                description: String::from_str("Cozy warm tones"),
                dark_saturation: 400,
                light_saturation: 350,
                dark_brightness: 850,
                light_brightness: 880,
                contrast: 680,
                warmth_shift: 150,
                hue_boosts: boosts1(HueBoost { center: 30, range: 45, boost: 120 }),
                target_hues: no_targets(),
                bg_tint_strength: 1100,
                harmony: ColorHarmony::Extracted,
                slot_bands: no_bands(),
            }
        } else if str_eq(name, "muted") {
            PaletteStyle {
                description: String::from_str("Soft neutral palette"),
                dark_saturation: 380,
                light_saturation: 330,
                dark_brightness: 840,
                light_brightness: 880,
                contrast: 670,
                warmth_shift: 20,
                hue_boosts: no_boosts(),
                target_hues: no_targets(),
                bg_tint_strength: 700,
                harmony: ColorHarmony::Extracted,
                slot_bands: no_bands(),
            }
        } else if str_eq(name, "dracula") {
            PaletteStyle {
                description: String::from_str("Dark vivid contrast"),
                dark_saturation: 550,
                light_saturation: 450,
                dark_brightness: 900,
                light_brightness: 850,
                contrast: 750,
                warmth_shift: -80,
                hue_boosts: boosts2(
                    HueBoost { center: 265, range: 50, boost: 200 },
                    HueBoost { center: 326, range: 40, boost: 150 },
                ),
                target_hues: targets6(265, 326, 135, 191, 65, 0),
                bg_tint_strength: 1300,
                harmony: ColorHarmony::SplitComplementary,
                slot_bands: bands6(
                    HueBand { lo: 330, hi: 30, target: 0 },
                    HueBand { lo: 30, hi: 100, target: 65 },
                    HueBand { lo: 100, hi: 160, target: 135 },
                    HueBand { lo: 160, hi: 220, target: 191 },
                    HueBand { lo: 220, hi: 290, target: 265 },
                    HueBand { lo: 290, hi: 330, target: 326 },
                ),
            }
        } else if str_eq(name, "kawaii") {
            PaletteStyle {
                description: String::from_str("Playful pink pastels"),
                dark_saturation: 650,
                light_saturation: 550,
                dark_brightness: 900,
                light_brightness: 900,
                contrast: 800,
                warmth_shift: 100,
                hue_boosts: boosts2(
                    HueBoost { center: 320, range: 60, boost: 250 },
                    HueBoost { center: 180, range: 40, boost: 120 },
                ),
                target_hues: targets3(325, 200, 50),
                bg_tint_strength: 1500,
                harmony: ColorHarmony::Extracted,
                slot_bands: bands6(
                    HueBand { lo: 330, hi: 30, target: 355 },
                    HueBand { lo: 30, hi: 100, target: 55 },
                    HueBand { lo: 100, hi: 160, target: 130 },
                    HueBand { lo: 160, hi: 220, target: 185 },
                    HueBand { lo: 220, hi: 290, target: 250 },
                    HueBand { lo: 290, hi: 330, target: 320 },
                ),
            }
        } else if str_eq(name, "vibrant") {
            PaletteStyle {
                description: String::from_str("Bold saturated hues"),
                dark_saturation: 800,
                light_saturation: 650,
                dark_brightness: 950,
                light_brightness: 900,
                contrast: 900,
                warmth_shift: 0,
                hue_boosts: no_boosts(),
                target_hues: no_targets(),
                bg_tint_strength: 1200,
                harmony: ColorHarmony::Triadic,
                slot_bands: no_bands(),
            }
        } else if str_eq(name, "pastel") {
            PaletteStyle {
                description: String::from_str("Gentle washed pastels"),
                dark_saturation: 300,
                light_saturation: 280,
                dark_brightness: 950,
                light_brightness: 950,
                contrast: 600,
                warmth_shift: 30,
                hue_boosts: no_boosts(),
                target_hues: no_targets(),
                bg_tint_strength: 600,
                harmony: ColorHarmony::Complementary,
                slot_bands: no_bands(),
            }
        } else {
            // "balanced", "lofi" and every unrecognized name
            PaletteStyle {
                description: String::from_str("Calm balanced aesthetic"),
                dark_saturation: 420,
                light_saturation: 370,
                dark_brightness: 850,
                light_brightness: 880,
                contrast: 700,
                warmth_shift: 50,
                hue_boosts: no_boosts(),
                target_hues: no_targets(),
                bg_tint_strength: 1000,
                harmony: ColorHarmony::Extracted,
                slot_bands: no_bands(),
            }
        }
    }

    /// Every name the catalog knows, the default first.
    pub fn all_styles() -> (r: Vec<&'static str>)
        ensures
            r@.len() == 9,
            r@[0]@ == "balanced"@,
            r@[1]@ == "lofi"@,
            r@[2]@ == "nord"@,
            r@[3]@ == "warm"@,
            r@[4]@ == "muted"@,
            r@[5]@ == "dracula"@,
            r@[6]@ == "kawaii"@,
            r@[7]@ == "vibrant"@,
            r@[8]@ == "pastel"@,
    {
        let mut v: Vec<&'static str> = Vec::new();
        v.push("balanced");
        v.push("lofi");
        v.push("nord");
        v.push("warm");
        v.push("muted");
        v.push("dracula");
        v.push("kawaii");
        v.push("vibrant");
        v.push("pastel");
        v
    }
}

} // verus!

use iro::color::Rgb;
use iro::extract::{fill_complementary, select_diverse};
use iro::palette::PaletteGenerator;
use iro::style::PaletteStyle;

fn gen(threshold: u32) -> PaletteGenerator {
    PaletteGenerator::new(threshold, PaletteStyle::from_name("balanced"))
}

#[test]
fn ninety_percent_red_ten_percent_blue() {
    // 90 pure-red pixels against 10 pure-blue ones, threshold 50.0
    let mut pixels = Vec::new();
    for _ in 0..90 {
        pixels.push(Rgb { r: 255, g: 0, b: 0 });
    }
    for _ in 0..10 {
        pixels.push(Rgb { r: 0, g: 0, b: 255 });
    }
    let palette = gen(5000).extract_palette(&pixels, 16);
    assert_eq!(palette.len(), 16);
    // red quantizes to (240,0,0) and wins on frequency; blue follows
    assert_eq!(palette[0], Rgb { r: 240, g: 0, b: 0 });
    assert_eq!(palette[1], Rgb { r: 0, g: 0, b: 240 });
    // fourteen complementary fills alternate between yellow and blue
    assert_eq!(palette[2], Rgb { r: 255, g: 255, b: 0 });
    assert_eq!(palette[3], Rgb { r: 0, g: 0, b: 255 });
    assert_eq!(palette[4], Rgb { r: 255, g: 255, b: 0 });
    assert_eq!(palette[5], Rgb { r: 0, g: 0, b: 255 });
}

#[test]
fn near_black_and_near_white_pixels_are_ignored() {
    let mut pixels = Vec::new();
    for _ in 0..50 {
        pixels.push(Rgb { r: 5, g: 5, b: 5 });
        pixels.push(Rgb { r: 250, g: 250, b: 250 });
    }
    pixels.push(Rgb { r: 128, g: 64, b: 64 });
    let palette = gen(5000).extract_palette(&pixels, 2);
    // only the mid-tone pixel counts; the second slot is its complement
    assert_eq!(palette[0], Rgb { r: 128, g: 64, b: 64 });
    assert_eq!(palette.len(), 2);
}

#[test]
fn frequency_order_breaks_ties_by_ascending_key() {
    // two equally frequent quantized colors: the lower key wins
    let pixels = vec![
        Rgb { r: 160, g: 32, b: 32 },
        Rgb { r: 32, g: 32, b: 160 },
        Rgb { r: 160, g: 32, b: 32 },
        Rgb { r: 32, g: 32, b: 160 },
    ];
    let palette = gen(100).extract_palette(&pixels, 2);
    assert_eq!(palette[0], Rgb { r: 32, g: 32, b: 160 });
    assert_eq!(palette[1], Rgb { r: 160, g: 32, b: 32 });
}

#[test]
fn diversity_filter_rejects_close_colors() {
    let cands = vec![
        Rgb { r: 0, g: 0, b: 0 },
        Rgb { r: 10, g: 0, b: 0 },
        Rgb { r: 200, g: 0, b: 0 },
    ];
    let picked = select_diverse(&cands, 2000, 16);
    assert_eq!(picked, vec![Rgb { r: 0, g: 0, b: 0 }, Rgb { r: 200, g: 0, b: 0 }]);
}

#[test]
fn fallback_fills_reach_the_requested_count() {
    let filled = fill_complementary(Vec::new(), 3);
    assert_eq!(filled.len(), 3);
    // the first fill over an empty palette is the fixed mid gray
    assert_eq!(filled[0], Rgb { r: 128, g: 128, b: 128 });
}

#[test]
fn empty_input_still_yields_the_requested_count() {
    let palette = gen(5000).extract_palette(&Vec::new(), 4);
    assert_eq!(palette.len(), 4);
}

use iro::color::{
    color_distance, color_distance_sq, hsl_to_rgb, rgb_to_hsl, vibrance, Hsl, Rgb,
};

#[test]
fn primaries_convert_to_expected_hsl() {
    let red = rgb_to_hsl(Rgb { r: 255, g: 0, b: 0 });
    assert_eq!((red.h, red.s, red.l), (0, 1000, 500));
    let blue = rgb_to_hsl(Rgb { r: 0, g: 0, b: 240 });
    assert_eq!((blue.h, blue.s, blue.l), (240, 1000, 470));
    let white = rgb_to_hsl(Rgb { r: 255, g: 255, b: 255 });
    assert_eq!((white.h, white.s, white.l), (0, 0, 1000));
}

#[test]
fn grays_have_zero_saturation_and_hue() {
    for v in [0u8, 32, 128, 224, 255] {
        let x = rgb_to_hsl(Rgb { r: v, g: v, b: v });
        assert_eq!(x.h, 0);
        assert_eq!(x.s, 0);
    }
}

#[test]
fn hsl_renders_back_to_primary_corners() {
    assert_eq!(hsl_to_rgb(Hsl { h: 0, s: 1000, l: 500 }), Rgb { r: 255, g: 0, b: 0 });
    assert_eq!(hsl_to_rgb(Hsl { h: 120, s: 1000, l: 500 }), Rgb { r: 0, g: 255, b: 0 });
    assert_eq!(hsl_to_rgb(Hsl { h: 240, s: 1000, l: 500 }), Rgb { r: 0, g: 0, b: 255 });
    assert_eq!(hsl_to_rgb(Hsl { h: 60, s: 1000, l: 500 }), Rgb { r: 255, g: 255, b: 0 });
    assert_eq!(hsl_to_rgb(Hsl { h: 0, s: 0, l: 0 }), Rgb { r: 0, g: 0, b: 0 });
}

#[test]
fn vibrance_is_spread_over_maximum() {
    assert_eq!(vibrance(Rgb { r: 255, g: 0, b: 0 }), 1000);
    assert_eq!(vibrance(Rgb { r: 0, g: 0, b: 0 }), 0);
    assert_eq!(vibrance(Rgb { r: 128, g: 128, b: 128 }), 0);
    // (200 - 100) * 1000 / 200
    assert_eq!(vibrance(Rgb { r: 200, g: 100, b: 150 }), 500);
}

#[test]
fn weighted_distance_formula() {
    let a = Rgb { r: 255, g: 0, b: 0 };
    let b = Rgb { r: 0, g: 0, b: 255 };
    // 255*30 + 0*59 + 255*11
    assert_eq!(color_distance(&a, &b), 255 * 41);
    assert_eq!(color_distance(&a, &a), 0);
}

#[test]
fn squared_distance_formula() {
    let a = Rgb { r: 10, g: 20, b: 30 };
    let b = Rgb { r: 13, g: 16, b: 30 };
    assert_eq!(color_distance_sq(&a, &b), 9 + 16);
}

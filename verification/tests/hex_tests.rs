use iro::color::Rgb;
use iro::hex::{parse_hex_color, rgb_to_hex};

#[test]
fn renders_lowercase_hex() {
    assert_eq!(rgb_to_hex(&Rgb { r: 255, g: 0, b: 10 }), "#ff000a");
    assert_eq!(rgb_to_hex(&Rgb { r: 30, g: 30, b: 46 }), "#1e1e2e");
    assert_eq!(rgb_to_hex(&Rgb { r: 0, g: 0, b: 0 }), "#000000");
}

#[test]
fn parses_what_it_renders() {
    for c in [
        Rgb { r: 0, g: 0, b: 0 },
        Rgb { r: 255, g: 255, b: 255 },
        Rgb { r: 30, g: 30, b: 46 },
        Rgb { r: 243, g: 139, b: 168 },
    ] {
        assert_eq!(parse_hex_color(&rgb_to_hex(&c)), Some(c));
    }
}

#[test]
fn parses_uppercase_and_bare_digits() {
    assert_eq!(parse_hex_color("#FF000A"), Some(Rgb { r: 255, g: 0, b: 10 }));
    assert_eq!(parse_hex_color("1e1e2e"), Some(Rgb { r: 30, g: 30, b: 46 }));
    assert_eq!(parse_hex_color("##1e1e2e"), Some(Rgb { r: 30, g: 30, b: 46 }));
}

#[test]
fn reads_only_the_first_six_digits() {
    assert_eq!(parse_hex_color("#aabbccdd"), Some(Rgb { r: 170, g: 187, b: 204 }));
}

#[test]
fn malformed_strings_give_none() {
    assert_eq!(parse_hex_color(""), None);
    assert_eq!(parse_hex_color("#"), None);
    assert_eq!(parse_hex_color("#12345"), None);
    assert_eq!(parse_hex_color("not-a-color"), None);
    assert_eq!(parse_hex_color("#gg0000"), None);
}

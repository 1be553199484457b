use sphere_vectors::color::{default_gray, hex_digit, parse_color, parse_color_or_gray, Rgb};

#[test]
fn upper_case_red_parses() {
    assert_eq!(parse_color("#FF0000"), Some(Rgb { r: 255, g: 0, b: 0 }));
}

#[test]
fn lower_case_red_parses_the_same() {
    assert_eq!(parse_color("#ff0000"), parse_color("#FF0000"));
}

#[test]
fn mixed_digits_parse_to_exact_bytes() {
    assert_eq!(parse_color("#1a2B3c"), Some(Rgb { r: 0x1a, g: 0x2b, b: 0x3c }));
    assert_eq!(parse_color("#808080"), Some(Rgb { r: 128, g: 128, b: 128 }));
}

#[test]
fn color_name_fails_to_gray() {
    assert_eq!(parse_color("red"), None);
    assert_eq!(parse_color_or_gray("red"), default_gray());
}

#[test]
fn short_form_fails_to_gray() {
    assert_eq!(parse_color("#FFF"), None);
    assert_eq!(parse_color_or_gray("#FFF"), default_gray());
}

#[test]
fn non_hex_digits_fail_to_gray() {
    assert_eq!(parse_color("#GGGGGG"), None);
    assert_eq!(parse_color_or_gray("#GGGGGG"), default_gray());
}

#[test]
fn other_malformed_texts_fail() {
    assert_eq!(parse_color(""), None);
    assert_eq!(parse_color("FF00000"), None);
    assert_eq!(parse_color("#FF00000"), None);
    assert_eq!(parse_color("#+F+F+F"), None);
    assert_eq!(parse_color("#FF 000"), None);
    assert_eq!(parse_color("#ééé000"), None);
}

#[test]
fn gray_is_mid_level() {
    assert_eq!(default_gray(), Rgb { r: 128, g: 128, b: 128 });
    assert_eq!(parse_color_or_gray("#00FF7f"), Rgb { r: 0, g: 255, b: 127 });
}

#[test]
fn hex_digit_values() {
    assert_eq!(hex_digit('0'), Some(0));
    assert_eq!(hex_digit('9'), Some(9));
    assert_eq!(hex_digit('a'), Some(10));
    assert_eq!(hex_digit('F'), Some(15));
    assert_eq!(hex_digit('g'), None);
    assert_eq!(hex_digit('#'), None);
}

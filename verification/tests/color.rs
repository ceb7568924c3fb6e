use planner_core::color::{
    color_function, color_parts, css_color_name, digit_uint, hex_color, hex_color_text, is_decimal_literal,
    sig_bytes, HexColor,
};

#[test]
fn css_names() {
    assert_eq!(css_color_name("red"), Some(0xff0000));
    assert_eq!(css_color_name("rebeccapurple"), Some(0x663399));
    assert_eq!(css_color_name("aliceblue"), Some(0xf0f8ff));
    assert_eq!(css_color_name("yellowgreen"), Some(0x9acd32));
    assert_eq!(css_color_name("transparent"), None);
    assert_eq!(css_color_name("Red"), None);
}

#[test]
fn colour_functions() {
    assert_eq!(
        color_function("rgb(74,156,104)"),
        Some(("rgb".to_string(), "74,156,104".to_string()))
    );
    assert_eq!(
        color_function("rgba(74,156,104,0.5) tail"),
        Some(("rgba".to_string(), "74,156,104,0.5".to_string()))
    );
    assert_eq!(color_function("(1,2,3)"), None);
    assert_eq!(color_function("rg-b(1,2,3)"), None);
    assert_eq!(color_function("rgb(1,2,3"), None);
    assert_eq!(color_function("red"), None);
}

#[test]
fn colour_parts() {
    let parts = |s: &str| color_parts(s).map(|v| v.into_iter().collect::<Vec<String>>());
    assert_eq!(
        parts(" 74 , 156,104 "),
        Some(vec!["74".to_string(), "156".to_string(), "104".to_string()])
    );
    assert_eq!(parts("1,2,3,0.5").map(|v| v.len()), Some(4));
    assert_eq!(parts("1,2"), None);
    assert_eq!(parts("1,2,3,4,5"), None);
    assert_eq!(parts("1,,3"), None);
    assert_eq!(parts("1,2,3,x"), None);
    assert_eq!(parts("1,2,3,1."), None);
}

#[test]
fn numbers() {
    assert_eq!(digit_uint("255"), Some(255));
    assert_eq!(digit_uint("4294967295"), Some(4294967295));
    assert_eq!(digit_uint("4294967296"), None);
    assert_eq!(digit_uint(""), None);
    assert_eq!(digit_uint("+1"), None);
    assert_eq!(digit_uint("12a"), None);
    assert!(is_decimal_literal("0.5"));
    assert!(is_decimal_literal(".5"));
    assert!(is_decimal_literal("10"));
    assert!(!is_decimal_literal("5."));
    assert!(!is_decimal_literal("1.2.3"));
    assert!(!is_decimal_literal("."));
    assert!(!is_decimal_literal(""));
    assert!(!is_decimal_literal("-1"));
}

#[test]
fn signature_is_fnv1a() {
    let mut seed = 14695981039346656037u64;
    sig_bytes(&mut seed, b"a");
    assert_eq!(seed, 0xaf63dc4c8601ec8c);
    let mut whole = 14695981039346656037u64;
    sig_bytes(&mut whole, b"hello world");
    let mut parts = 14695981039346656037u64;
    sig_bytes(&mut parts, b"hello");
    sig_bytes(&mut parts, b" world");
    assert_eq!(whole, parts);
    let mut empty = 7u64;
    sig_bytes(&mut empty, b"");
    assert_eq!(empty, 7);
}

#[test]
fn hex_colour_notation() {
    assert_eq!(hex_color("#4a9c68"), HexColor::Full(0x4a9c68));
    assert_eq!(hex_color("#A1B2C3"), HexColor::Full(0xa1b2c3));
    assert_eq!(hex_color("#abc"), HexColor::Short(10, 11, 12));
    assert_eq!(hex_color("#aabbccdd"), HexColor::Invalid);
    assert_eq!(hex_color("#12g"), HexColor::Invalid);
    assert_eq!(hex_color("#"), HexColor::Invalid);
    assert_eq!(hex_color("4a9c68"), HexColor::NotHex);
    assert_eq!(hex_color("0x4a9c68"), HexColor::NotHex);
    assert_eq!(hex_color(""), HexColor::NotHex);
}

#[test]
fn hex_colour_text() {
    assert_eq!(hex_color_text(0xff0000), "#ff0000");
    assert_eq!(hex_color_text(0x00a1b2), "#00a1b2");
    assert_eq!(hex_color_text(0), "#000000");
    assert_eq!(hex_color_text(0xffffff), "#ffffff");
    for value in [0u32, 1, 0x58a6ff, 0xabcdef, 0xffffff] {
        assert_eq!(hex_color(&hex_color_text(value)), HexColor::Full(value));
    }
}

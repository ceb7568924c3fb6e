use planner_core::sim::expr::{is_ident_char, is_ident_start, js_decimal_valid, to_digit, ExprParser};
use planner_core::sim::runtime::json_string;

fn parser(text: &str) -> ExprParser {
    ExprParser { src: text.chars().collect(), pos: 0 }
}

fn scan(text: &str) -> Option<(u32, String, usize)> {
    let mut p = parser(text);
    p.scan_number().map(|n| (n.radix, n.text, p.pos))
}

#[test]
fn numeric_literals_match_strict_mode() {
    assert_eq!(scan("010"), None);
    assert_eq!(scan("00"), None);
    assert_eq!(scan("08"), None);
    assert_eq!(scan("0_1"), None);
    assert_eq!(scan("1_000"), Some((10, "1000".to_string(), 5)));
    assert_eq!(scan("1_000.5"), Some((10, "1000.5".to_string(), 7)));
    assert_eq!(scan("1_000e2"), Some((10, "1000e2".to_string(), 7)));
    assert_eq!(scan("0b1_0"), Some((2, "10".to_string(), 5)));
    assert_eq!(scan("0o1_7"), Some((8, "17".to_string(), 5)));
    assert_eq!(scan("0xFF"), Some((16, "FF".to_string(), 4)));
    assert_eq!(scan("1__0"), None);
    assert_eq!(scan("0"), Some((10, "0".to_string(), 1)));
    assert_eq!(scan("0.5"), Some((10, "0.5".to_string(), 3)));
    assert_eq!(scan("0e1"), Some((10, "0e1".to_string(), 3)));
}

#[test]
fn exponent_without_digits_is_left_out() {
    assert_eq!(scan("5e"), Some((10, "5".to_string(), 1)));
    assert_eq!(scan("5e+"), Some((10, "5".to_string(), 1)));
    assert_eq!(scan("1E-3x"), Some((10, "1e-3".to_string(), 4)));
    assert_eq!(scan(".5"), Some((10, ".5".to_string(), 2)));
    assert_eq!(scan("1_"), None);
    assert_eq!(scan("0x"), None);
}

#[test]
fn decimal_validity() {
    assert!(js_decimal_valid("1.5e3"));
    assert!(js_decimal_valid("10"));
    assert!(js_decimal_valid(".5"));
    assert!(js_decimal_valid("5."));
    assert!(js_decimal_valid("1e-7"));
    assert!(!js_decimal_valid("1e"));
    assert!(!js_decimal_valid("."));
    assert!(!js_decimal_valid(""));
    assert!(!js_decimal_valid("1_000"));
    assert!(!js_decimal_valid("inf"));
    assert!(!js_decimal_valid("1.5é"));
}

#[test]
fn string_literals_and_escapes() {
    let read = |text: &str| {
        let mut p = parser(text);
        let quote = text.chars().next().unwrap();
        p.parse_string(quote).map(|s| (s, p.pos))
    };
    assert_eq!(read("'a\\nb'"), Some(("a\nb".to_string(), 6)));
    assert_eq!(read("\"\\u{41}\""), Some(("A".to_string(), 8)));
    assert_eq!(read("\"\\u0041\""), Some(("A".to_string(), 8)));
    assert_eq!(read("\"\\x41z\""), Some(("Az".to_string(), 7)));
    assert_eq!(read("\"a\\\nb\""), Some(("ab".to_string(), 6)));
    assert_eq!(read("\"\\q\""), Some(("q".to_string(), 4)));
    assert_eq!(read("\"abc"), None);
    assert_eq!(read("\"\\u{110000}\""), None);
    assert_eq!(read("\"\\u{}\""), None);
    assert_eq!(read("\"\\xZZ\""), None);
    assert_eq!(read("\"\\ud800\""), None);
}

#[test]
fn json_strings_read_back() {
    for text in ["plain", "a\"b\\c\n", "\u{1}\u{1f}tab\there", "$&'", ""] {
        let literal = json_string(text);
        let mut p = parser(&format!("{literal} == 1"));
        assert_eq!(p.parse_string('"'), Some(text.to_string()));
        assert_eq!(p.pos, literal.chars().count());
    }
}

#[test]
fn digits_identifiers_and_whitespace() {
    let mut p = parser("12_3_4x");
    assert_eq!(p.read_digits(10), ("1234".to_string(), true));
    assert_eq!(p.pos, 6);
    let mut p = parser("1_");
    assert_eq!(p.read_digits(10), ("1".to_string(), false));
    let mut p = parser("  \t foo_1$ bar");
    p.skip_ws();
    assert_eq!(p.pos, 4);
    assert_eq!(p.parse_ident(), "foo_1$");
    assert_eq!(p.peek(), Some(' '));
    assert_eq!(p.peek_at(1), Some('b'));
    assert_eq!(p.peek_at(100), None);
    assert!(is_ident_start('a'));
    assert!(is_ident_start('_'));
    assert!(is_ident_start('$'));
    assert!(!is_ident_start('1'));
    assert!(is_ident_char('1'));
    assert!(!is_ident_char('-'));
    assert_eq!(to_digit('f', 16), Some(15));
    assert_eq!(to_digit('F', 16), Some(15));
    assert_eq!(to_digit('g', 16), None);
    assert_eq!(to_digit('7', 8), Some(7));
    assert_eq!(to_digit('8', 8), None);
}

#[test]
fn escape_codes() {
    let mut p = parser("{1F600}x");
    assert_eq!(p.parse_unicode_escape(), Some('\u{1F600}'));
    assert_eq!(p.pos, 7);
    let mut p = parser("00e9");
    assert_eq!(p.parse_hex_escape(4), Some('é'));
    assert_eq!(p.pos, 4);
    let mut p = parser("0g");
    assert_eq!(p.parse_hex_escape(2), None);
    assert_eq!(p.pos, 1);
    let mut p = parser("{41");
    assert_eq!(p.parse_unicode_escape(), Some('A'));
    assert_eq!(p.pos, 3);
}

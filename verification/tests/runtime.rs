use planner_core::sim::runtime::{get_back_color, get_front_color, json_string, replace_vars};

fn vars_of(pairs: &[(&str, &str)]) -> Vec<(String, String)> {
    pairs.iter().map(|(k, v)| (k.to_string(), v.to_string())).collect()
}

#[test]
fn replace_single_var() {
    let vars = vars_of(&[("x", "3")]);
    assert_eq!(replace_vars("x > 4", &vars), "3 > 4");
}

#[test]
fn replace_prefers_longer_names() {
    let vars = vars_of(&[("ab", "1"), ("a", "2")]);
    assert_eq!(replace_vars("ab", &vars), "1");
    assert_eq!(replace_vars("a + ab", &vars), "2 + 1");
}

#[test]
fn replace_word_boundaries() {
    let vars = vars_of(&[("x", "3")]);
    assert_eq!(replace_vars("x1 + xy + x", &vars), "x1 + xy + 3");
}

#[test]
fn replace_with_json_string_values() {
    let vars = vec![("s".to_string(), json_string("green"))];
    assert_eq!(replace_vars("s == green", &vars), "\"green\" == green");
}

#[test]
fn replace_escapes_strings() {
    let vars = vec![("s".to_string(), json_string("a\"b\\c\n"))];
    assert_eq!(replace_vars("s", &vars), "\"a\\\"b\\\\c\\n\"");
}

#[test]
fn replace_vars_interprets_replacement_patterns() {
    let vars = vec![("s".to_string(), json_string("$&"))];
    assert_eq!(replace_vars("s == \"$&\"", &vars), "\"s\" == \"$&\"");
    let vars = vec![("s".to_string(), json_string("$$"))];
    assert_eq!(replace_vars("s == \"$$\"", &vars), "\"$\" == \"$$\"");
    let vars = vec![("s".to_string(), json_string("$`"))];
    assert_eq!(replace_vars("s == \"$`\"", &vars), "\"\" == \"$`\"");
}

#[test]
fn replace_vars_treats_name_as_regex() {
    let vars = vars_of(&[("a.b", "5"), ("axb", "9")]);
    assert_eq!(replace_vars("axb == 5", &vars), "5 == 5");
}

#[test]
fn sensor_stubs_match_js() {
    assert_eq!(get_front_color(), "green");
    assert_eq!(get_back_color(), "blue");
}

#[test]
fn replace_with_no_vars_keeps_text() {
    assert_eq!(replace_vars("a + b * 2", &Vec::new()), "a + b * 2");
}

#[test]
fn replace_invalid_name_pattern_gives_empty() {
    let vars = vars_of(&[("(", "1")]);
    assert_eq!(replace_vars("x + 1", &vars), "");
}

#[test]
fn replace_order_ignores_input_order() {
    let vars = vars_of(&[("a", "2"), ("ab", "1")]);
    assert_eq!(replace_vars("a + ab", &vars), "2 + 1");
}

#[test]
fn replace_equal_length_names_in_byte_order() {
    let vars = vars_of(&[("b", "a"), ("a", "X")]);
    assert_eq!(replace_vars("a b", &vars), "X a");
}

#[test]
fn replace_dollar_quote_patterns() {
    let vars = vars_of(&[("x", "[$`|$'|$x]")]);
    assert_eq!(replace_vars("1 x 2", &vars), "1 [1 | 2|$x] 2");
}

#[test]
fn json_string_escapes_control_characters() {
    assert_eq!(json_string("a\u{1}b"), "\"a\\u0001b\"");
    assert_eq!(json_string("\u{1f}"), "\"\\u001f\"");
    assert_eq!(json_string("\t\r\u{8}\u{c}"), "\"\\t\\r\\b\\f\"");
    assert_eq!(json_string(""), "\"\"");
    assert_eq!(json_string("é\u{7f}"), "\"é\u{7f}\"");
}

#[test]
fn json_string_is_a_json_string_literal() {
    for text in ["", "plain", "a\"b\\c\n", "\u{1}\u{1f}\t\u{8}\u{c}\r", "é/€ 𝄞", "</script>"] {
        let literal = json_string(text);
        assert!(literal.starts_with('"') && literal.ends_with('"') && literal.len() >= 2);
        assert!(literal.chars().all(|c| (c as u32) >= 0x20));
        assert_eq!(serde_json::from_str::<String>(&literal).ok(), Some(text.to_string()));
    }
}

#[test]
fn replace_ignores_the_order_of_the_bindings() {
    let a = vars_of(&[("x", "1"), ("xy", "2"), ("b", "\"s\""), ("é", "3")]);
    let b = vars_of(&[("é", "3"), ("b", "\"s\""), ("xy", "2"), ("x", "1")]);
    for expr in ["x + xy * b - é", "xy==x", "b[x]"] {
        assert_eq!(replace_vars(expr, &a), replace_vars(expr, &b));
    }
    assert_eq!(replace_vars("x + xy", &a), "1 + 2");
}

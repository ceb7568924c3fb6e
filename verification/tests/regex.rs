use planner_core::sim::regex::{compile_regex, re_match, regex_replace_global};

fn chars(s: &str) -> Vec<char> {
    s.chars().collect()
}

fn replace(pattern: &str, text: &str, repl: &str) -> Option<String> {
    let re = compile_regex(pattern)?;
    Some(regex_replace_global(&re, &chars(text), &chars(repl)).into_iter().collect())
}

#[test]
fn patterns_that_do_not_parse() {
    assert!(compile_regex("(").is_none());
    assert!(compile_regex("a)").is_none());
    assert!(compile_regex("[a").is_none());
    assert!(compile_regex("a{2").is_some());
    assert!(compile_regex("*a").is_none());
}

#[test]
fn global_replacement() {
    assert_eq!(replace("a", "banana", "o"), Some("bonono".to_string()));
    assert_eq!(replace("\\bx\\b", "x1 x", "y"), Some("x1 y".to_string()));
    assert_eq!(replace("a|ab", "ab", "X"), Some("Xb".to_string()));
    assert_eq!(replace("x*", "ab", "-"), Some("---".to_string()));
    assert_eq!(replace("\\b", "ab cd", "|"), Some("|b||d|".to_string()));
    assert_eq!(replace("[0-9]+", "a12b3", "#"), Some("a#b#".to_string()));
    assert_eq!(replace("\\d{2,}", "1 22 333", "N"), Some("1 N N".to_string()));
    assert_eq!(replace("^a", "aa", "b"), Some("ba".to_string()));
    assert_eq!(replace("a$", "aa", "b"), Some("ab".to_string()));
    assert_eq!(replace("[^a]", "abc", "."), Some("a..".to_string()));
    assert_eq!(replace("a+?", "aaa", "b"), Some("bbb".to_string()));
    assert_eq!(replace("(a)(b)?", "ac", "[$&]"), Some("[a]c".to_string()));
}

#[test]
fn match_ends() {
    let re = compile_regex("a+").unwrap();
    assert_eq!(re_match(&re, &chars("aaab"), 0), vec![3, 2, 1]);
    let lazy = compile_regex("a+?").unwrap();
    assert_eq!(re_match(&lazy, &chars("aaab"), 0), vec![1, 2, 3]);
    assert!(re_match(&re, &chars("b"), 0).is_empty());
}

#[test]
fn identifier_matches_only_whole_words() {
    let re = compile_regex("\\bab\\b").unwrap();
    let text = chars("ab abc xab ab");
    assert_eq!(re_match(&re, &text, 0), vec![2]);
    assert!(re_match(&re, &text, 3).is_empty());
    assert!(re_match(&re, &text, 8).is_empty());
    assert_eq!(re_match(&re, &text, 11), vec![13]);
}

#[test]
fn text_without_a_match_is_unchanged() {
    assert_eq!(replace("zz", "abc", "x"), Some("abc".to_string()));
    assert_eq!(replace("q+", "", "x"), Some("".to_string()));
}

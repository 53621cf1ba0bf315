use mimium_plugin_core::text::{
    chars_of, concat_strings, decimal_string, default_knob_name_string, eq_ignore_ascii_case_str,
    insert_sorted, join_strings, parse_usize_chars, str_eq, string_of, text_less, trim_str,
};

#[test]
fn trim_matches_std() {
    for s in ["", "  a b  ", "\t\nx\r", "\u{2003}y\u{205F}", "no-trim", "   "] {
        assert_eq!(trim_str(s), s.trim());
    }
}

#[test]
fn decimal_matches_format() {
    for n in [0usize, 1, 9, 10, 42, 1000, 123456789, usize::MAX] {
        assert_eq!(decimal_string(n), format!("{n}"));
    }
}

#[test]
fn parse_usize_matches_std() {
    for s in ["0", "12", "+7", "", "+", "-1", "1a", "007", "18446744073709551615", "18446744073709551616"] {
        let v = chars_of(s);
        assert_eq!(parse_usize_chars(&v), s.parse::<usize>().ok(), "input {s:?}");
    }
}

#[test]
fn ascii_case_comparison() {
    assert!(eq_ignore_ascii_case_str("Left Freq", "left FREQ"));
    assert!(!eq_ignore_ascii_case_str("Gain", "Gains"));
    assert!(!eq_ignore_ascii_case_str("é", "É"));
}

#[test]
fn ordering_matches_string_order() {
    let words = ["", "a", "ab", "b", "B", "é", "z"];
    for a in words {
        for b in words {
            assert_eq!(text_less(&chars_of(a), &chars_of(b)), a < b, "{a:?} {b:?}");
        }
    }
}

#[test]
fn sorted_insert_keeps_order_and_uniqueness() {
    let mut v: Vec<String> = Vec::new();
    for w in ["pear", "apple", "fig", "apple", "banana"] {
        v = insert_sorted(&v, w.to_string());
    }
    assert_eq!(v, vec!["apple", "banana", "fig", "pear"]);
}

#[test]
fn join_concat_and_equality() {
    let list = vec!["a".to_string(), "b".to_string(), "c".to_string()];
    assert_eq!(join_strings(&list, ", "), "a, b, c");
    assert_eq!(join_strings(&Vec::new(), ", "), "");
    assert_eq!(concat_strings("ab", "cd"), "abcd");
    assert!(str_eq("x", "x"));
    assert!(!str_eq("x", "y"));
    assert_eq!(string_of(&vec!['h', 'i']), "hi");
    assert_eq!(default_knob_name_string(11), "Knob 12");
}

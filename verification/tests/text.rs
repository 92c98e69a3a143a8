use dr_metrix::text::{chars_of, str_equals, string_of_range, trim_range};

#[test]
fn trim_matches_std() {
    for s in ["", "  ", " a ", "\t\r\nx y\u{3000}", "\u{a0}z\u{85}", "abc"] {
        let v = chars_of(s);
        let (a, b) = trim_range(&v, 0, v.len());
        let t: String = string_of_range(&v, a, b);
        assert_eq!(t, s.trim());
    }
}

#[test]
fn string_equality() {
    assert!(str_equals("abc", "abc"));
    assert!(!str_equals("abc", "abd"));
    assert!(!str_equals("ab", "abc"));
    assert!(str_equals("", ""));
}

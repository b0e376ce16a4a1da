use doxygen2man::text::{split_lines, str_eq, str_lt, to_upper, trim_end};

#[test]
fn trims_trailing_white_space() {
    assert_eq!(trim_end("abc \t\n\u{3000}"), "abc");
    assert_eq!(trim_end("  a b  "), "  a b");
    assert_eq!(trim_end(""), "");
}

#[test]
fn raises_ascii_letters() {
    assert_eq!(to_upper("foo_Bar1é"), "FOO_BAR1é");
}

#[test]
fn splits_lines_like_str_lines() {
    for s in ["", "a", "a\n", "a\r\nb", "\n\nx", "a\rb\n", "x\n\n"] {
        let expected: Vec<String> = s.lines().map(|l| l.to_string()).collect();
        assert_eq!(split_lines(s), expected);
    }
}

#[test]
fn compares_like_str() {
    assert!(str_lt("abc", "abd"));
    assert!(str_lt("ab", "abc"));
    assert!(!str_lt("b", "abc"));
    assert!(!str_lt("a", "a"));
    assert!(str_eq("x", "x") && !str_eq("x", "y"));
}

use unify::text::{
    chars_of, decimal_string, is_whitespace, line_count, replace_text, same_text, split_lines,
    string_of, trim_chars, trim_start_chars,
};

#[test]
fn whitespace_matches_std_for_every_char() {
    for u in 0u32..=0x10FFFF {
        if let Some(c) = char::from_u32(u) {
            assert_eq!(is_whitespace(c), c.is_whitespace(), "char {:#x}", u);
        }
    }
}

#[test]
fn trimming_matches_std() {
    for s in ["  a b  ", "\t\n x", "x\u{3000}", "", "   ", "\u{85}y\u{a0}"] {
        let cs = chars_of(s);
        assert_eq!(string_of(&trim_chars(&cs)), s.trim());
        assert_eq!(string_of(&trim_start_chars(&cs)), s.trim_start());
    }
}

#[test]
fn line_count_matches_std_lines() {
    for s in ["", "a", "a\n", "a\nb", "a\r\nb\r\n", "\n\n", "a\r", "x\ry\n\r", "\r\n"] {
        assert_eq!(line_count(s), s.lines().count(), "{:?}", s);
        let ls = split_lines(&chars_of(s));
        let expected: Vec<&str> = s.lines().collect();
        let got: Vec<String> = ls.iter().map(|l| string_of(l)).collect();
        assert_eq!(got, expected, "{:?}", s);
    }
}

#[test]
fn replace_matches_std() {
    let cases = [
        ("aaa", "aa", "b"),
        ("x]]>y]]>", "]]>", "]]]]><![CDATA[>"),
        ("{a}{a}", "{a}", "{a}{a}"),
        ("abc", "d", "e"),
        ("", "x", "y"),
    ];
    for (s, p, r) in cases {
        assert_eq!(replace_text(s, p, r), s.replace(p, r));
    }
}

#[test]
fn decimal_rendering() {
    assert_eq!(decimal_string(0), "0");
    assert_eq!(decimal_string(7), "7");
    assert_eq!(decimal_string(142), "142");
    assert_eq!(decimal_string(u64::MAX), u64::MAX.to_string());
}

#[test]
fn text_equality() {
    assert!(same_text("abc", "abc"));
    assert!(!same_text("abc", "abd"));
    assert!(!same_text("ab", "abc"));
}

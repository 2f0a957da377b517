use macro_gen::text::{
    contains_str, has_char, is_blank, is_whitespace, skip_chars, split_whitespace, starts_with,
    str_eq, str_lt,
};

#[test]
fn whitespace_matches_the_unicode_property() {
    for c in [
        '\t', '\n', '\u{0B}', '\u{0C}', '\r', ' ', '\u{85}', '\u{A0}', '\u{1680}', '\u{2000}',
        '\u{200A}', '\u{2028}', '\u{2029}', '\u{202F}', '\u{205F}', '\u{3000}',
    ] {
        assert!(is_whitespace(c), "{:?}", c);
        assert_eq!(is_whitespace(c), c.is_whitespace());
    }
    for c in ['a', '0', '_', '\u{200B}', '\u{180E}', '\u{FEFF}', '\u{8}', '\u{E}'] {
        assert!(!is_whitespace(c), "{:?}", c);
        assert_eq!(is_whitespace(c), c.is_whitespace());
    }
}

#[test]
fn blank_means_nothing_left_after_trimming() {
    assert!(is_blank(""));
    assert!(is_blank(" \t\n"));
    assert!(!is_blank(" x "));
}

#[test]
fn splitting_yields_maximal_runs() {
    assert_eq!(split_whitespace("  vsat   236293 "), vec!["vsat", "236293"]);
    assert_eq!(split_whitespace(""), Vec::<String>::new());
    assert_eq!(split_whitespace("a\u{3000}b\tc"), vec!["a", "b", "c"]);
    let s = " BSIM4v5: Berkeley Short Channel IGFET Model-4";
    let expected: Vec<String> = s.split_whitespace().map(|t| t.to_string()).collect();
    assert_eq!(split_whitespace(s), expected);
}

#[test]
fn substring_search() {
    assert!(contains_str("abc{{w}}", "{{w}}"));
    assert!(contains_str("abc", ""));
    assert!(!contains_str("{{w}", "{{w}}"));
    assert!(!contains_str("", "a"));
    assert!(contains_str("aab", "ab"));
}

#[test]
fn prefixes_equality_and_order() {
    assert!(starts_with("stdout x", "stdout "));
    assert!(!starts_with("std", "stdout "));
    assert!(str_eq("tt", "tt"));
    assert!(!str_eq("tt", "t"));
    assert!(str_lt("a", "b"));
    assert!(str_lt("nmos.cox", "nmos.vth"));
    assert!(str_lt("ab", "abc"));
    assert!(!str_lt("abc", "ab"));
    assert!(!str_lt("x", "x"));
    assert!(str_lt("Z", "a"));
    assert_eq!(skip_chars("stdout vsat", 7), "vsat");
    assert!(has_char("a\0b", '\0'));
    assert!(!has_char("ab", '\0'));
}

#[test]
fn whitespace_agrees_with_std_on_every_char() {
    for n in 0u32..=0x10FFFF {
        if let Some(c) = char::from_u32(n) {
            assert_eq!(is_whitespace(c), c.is_whitespace(), "U+{:04X}", n);
        }
    }
}

#[test]
fn blank_agrees_with_trim() {
    for s in ["", " ", "\u{2003}x", "x\u{2003}", "\u{3000}\u{205F}", "\u{200B}"] {
        assert_eq!(is_blank(s), s.trim().is_empty(), "{:?}", s);
    }
}

use clipboard_history::text::{
    chars_of, contains_chars, is_whitespace, join_strings, push_decimal, string_of, trim,
    truncate_chars,
};

#[test]
fn trim_strips_unicode_white_space() {
    assert_eq!(trim("  hello world \t\n"), "hello world");
    assert_eq!(trim("\u{3000}x\u{a0}"), "x");
    assert_eq!(trim("   "), "");
    assert_eq!(trim(""), "");
    assert_eq!(trim("a b"), "a b");
}

#[test]
fn whitespace_matches_std() {
    for c in ['\t', '\n', '\u{b}', '\u{c}', '\r', ' ', '\u{85}', '\u{a0}', '\u{1680}', '\u{2000}',
        '\u{200a}', '\u{2028}', '\u{2029}', '\u{202f}', '\u{205f}', '\u{3000}']
    {
        assert!(is_whitespace(c), "{c:?}");
        assert!(c.is_whitespace());
    }
    for c in ['a', '0', '\u{200b}', '\u{180e}', '\u{feff}', '_'] {
        assert!(!is_whitespace(c), "{c:?}");
        assert_eq!(is_whitespace(c), c.is_whitespace());
    }
    for u in 0u32..=0x10FFFF {
        if let Some(c) = char::from_u32(u) {
            assert_eq!(is_whitespace(c), c.is_whitespace(), "{u:#x}");
        }
    }
}

#[test]
fn truncate_keeps_short_text() {
    assert_eq!(truncate_chars("abc", 5), "abc");
    assert_eq!(truncate_chars("abc", 3), "abc");
    assert_eq!(truncate_chars("", 0), "");
}

#[test]
fn truncate_counts_characters_not_bytes() {
    assert_eq!(truncate_chars("héllo wörld", 4), "héll");
    assert_eq!(truncate_chars("日本語テキスト", 3), "日本語");
    assert_eq!(truncate_chars("abc", 0), "");
}

#[test]
fn contains_finds_runs() {
    let hay = chars_of("clipboard history");
    assert!(contains_chars(&hay, &chars_of("board")));
    assert!(contains_chars(&hay, &chars_of("")));
    assert!(contains_chars(&hay, &chars_of("clipboard history")));
    assert!(!contains_chars(&hay, &chars_of("boards")));
    assert!(!contains_chars(&chars_of(""), &chars_of("a")));
}

#[test]
fn decimal_notation() {
    let mut s = String::from("n=");
    push_decimal(&mut s, 0);
    assert_eq!(s, "n=0");
    let mut s = String::new();
    push_decimal(&mut s, u64::MAX);
    assert_eq!(s, u64::MAX.to_string());
    let mut s = String::new();
    push_decimal(&mut s, 1_000_007);
    assert_eq!(s, "1000007");
}

#[test]
fn join_with_newlines() {
    let parts = vec!["/a".to_string(), "/b c".to_string(), "/d".to_string()];
    assert_eq!(join_strings(&parts, '\n'), "/a\n/b c\n/d");
    assert_eq!(join_strings(&[], '\n'), "");
    assert_eq!(join_strings(&["x".to_string()], '\n'), "x");
}

#[test]
fn chars_round_trip() {
    let cs = chars_of("añb");
    assert_eq!(cs, vec!['a', 'ñ', 'b']);
    assert_eq!(string_of(&cs, 1, 3), "ñb");
}

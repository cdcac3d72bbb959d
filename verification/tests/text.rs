use entangle::text::{
    char_is_whitespace, chars_of, contains, parse_usize, rsplit_once, split, str_eq, to_decimal,
    to_lowercase, trim,
};

#[test]
fn trimming_follows_unicode_white_space() {
    assert_eq!(trim("  a b \t\n"), "a b");
    assert_eq!(trim("\u{3000}x\u{a0}"), "x");
    assert_eq!(trim("   "), "");
    assert_eq!(trim(""), "");
    assert!(char_is_whitespace('\u{2003}'));
    assert!(!char_is_whitespace('x'));
}

#[test]
fn splitting_keeps_empty_pieces() {
    assert_eq!(split(",a,,b,", ','), vec!["", "a", "", "b", ""]);
    assert_eq!(split("", ','), vec![""]);
    assert_eq!(split("abc", ','), vec!["abc"]);
}

#[test]
fn substring_search() {
    assert!(contains("hello", "ell"));
    assert!(contains("hello", ""));
    assert!(contains("", ""));
    assert!(!contains("hel", "hello"));
    assert!(!contains("hello", "lol"));
    assert!(contains("héllo", "éll"));
}

#[test]
fn lower_casing() {
    assert_eq!(to_lowercase("AbC"), "abc");
    assert_eq!(to_lowercase("ÄÖ"), "äö");
}

#[test]
fn decimal_numbers() {
    assert_eq!(to_decimal(0), "0");
    assert_eq!(to_decimal(907), "907");
    assert_eq!(to_decimal(usize::MAX), usize::MAX.to_string());
    assert_eq!(parse_usize("007"), Some(7));
    assert_eq!(parse_usize("+12"), Some(12));
    assert_eq!(parse_usize(""), None);
    assert_eq!(parse_usize("+"), None);
    assert_eq!(parse_usize("-1"), None);
    assert_eq!(parse_usize("1 "), None);
    assert_eq!(parse_usize(&usize::MAX.to_string()), Some(usize::MAX));
    let too_big = format!("{}0", usize::MAX);
    assert_eq!(parse_usize(&too_big), None);
    for s in ["0", "+0", "42", "x", "", "+", "18446744073709551615", "18446744073709551616"] {
        assert_eq!(parse_usize(s), s.parse::<usize>().ok(), "{s}");
    }
}

#[test]
fn last_separator_split() {
    assert_eq!(rsplit_once("a:b:c", ':'), Some(("a:b".to_string(), "c".to_string())));
    assert_eq!(rsplit_once("abc", ':'), None);
    assert_eq!(rsplit_once(":", ':'), Some((String::new(), String::new())));
}

#[test]
fn characters_and_equality() {
    assert_eq!(chars_of("añb"), vec!['a', 'ñ', 'b']);
    assert!(str_eq("abc", "abc"));
    assert!(!str_eq("abc", "abd"));
}

#[test]
fn white_space_agrees_with_std_on_every_char() {
    for u in 0..=0x10FFFFu32 {
        if let Some(c) = char::from_u32(u) {
            assert_eq!(char_is_whitespace(c), c.is_whitespace(), "U+{u:04X}");
        }
    }
}

#[test]
fn ascii_lower_casing_only_changes_letters() {
    let all_ascii: String = (0u8..128).map(char::from).collect();
    assert_eq!(to_lowercase(&all_ascii), all_ascii.to_ascii_lowercase());
}

use hbbs::text::{has_char, parse_i32, parse_usize, split_text, text_eq, trim_text, white_space};

#[test]
fn parse_signed_numbers() {
    assert_eq!(parse_i32("42"), Some(42));
    assert_eq!(parse_i32("+42"), Some(42));
    assert_eq!(parse_i32("-42"), Some(-42));
    assert_eq!(parse_i32("-2147483648"), Some(i32::MIN));
    assert_eq!(parse_i32("2147483647"), Some(i32::MAX));
    assert_eq!(parse_i32("2147483648"), None);
    assert_eq!(parse_i32("-2147483649"), None);
    assert_eq!(parse_i32("99999999999999999999"), None);
    assert_eq!(parse_i32(""), None);
    assert_eq!(parse_i32("-"), None);
    assert_eq!(parse_i32("1.5"), None);
    assert_eq!(parse_i32(" 1"), None);
    for s in ["0", "-0", "+7", "12a", "007", "-1000000"].iter() {
        assert_eq!(parse_i32(s), s.parse::<i32>().ok());
    }
}

#[test]
fn parse_unsigned_numbers() {
    assert_eq!(parse_usize("4"), Some(4));
    assert_eq!(parse_usize("+4"), Some(4));
    assert_eq!(parse_usize("-0"), None);
    assert_eq!(parse_usize(""), None);
    assert_eq!(parse_usize("x"), None);
    assert_eq!(parse_usize(&usize::MAX.to_string()), Some(usize::MAX));
    assert_eq!(parse_usize("184467440737095516150"), None);
    for s in ["18446744073709551616", "10", "1e3"].iter() {
        assert_eq!(parse_usize(s), s.parse::<usize>().ok());
    }
}

#[test]
fn splitting() {
    assert_eq!(split_text("a b  c", ' '), vec!["a", "b", "", "c"]);
    assert_eq!(split_text("", ' '), vec![""]);
    assert_eq!(split_text(",", ','), vec!["", ""]);
}

#[test]
fn small_text_helpers() {
    assert!(has_char("a:b", ':'));
    assert!(!has_char("ab", ':'));
    assert!(text_eq("ab", "ab"));
    assert!(!text_eq("ab", "abc"));
}

#[test]
fn trimming_matches_std() {
    assert_eq!(trim_text("  ib 3 \n"), "ib 3");
    assert_eq!(trim_text(""), "");
    assert_eq!(trim_text(" \t\r\n "), "");
    assert_eq!(trim_text("\u{3000}a b\u{a0}"), "a b");
    assert_eq!(trim_text("x\u{200b}"), "x\u{200b}");
    for s in ["\u{85}k\u{2028}", "\u{1680}\u{2000}\u{200a}q", "\u{202f}\u{205f}", "é ü"].iter() {
        assert_eq!(trim_text(s), s.trim());
    }
    for c in (0u32..0x3100).filter_map(char::from_u32) {
        assert_eq!(white_space(c), c.is_whitespace(), "{:?}", c);
    }
}

use boston_drone_school::text::{
    char_is_whitespace, chars_of, fold_char, is_blank, str_eq_ignore_ascii_case, str_le,
};

const SAMPLES: [&str; 16] = [
    "",
    "a",
    "A",
    "ab",
    "aB",
    "Ab",
    "b",
    "Zebra",
    "zebra",
    "\u{e9}",
    "\u{c9}",
    "e\u{301}",
    "a\u{1F600}",
    "@[`{",
    " ",
    "\u{10FFFF}",
];

#[test]
fn chars_of_lists_the_characters() {
    assert_eq!(chars_of(""), Vec::<char>::new());
    assert_eq!(chars_of("a\u{e9}\u{1F600}"), vec!['a', '\u{e9}', '\u{1F600}']);
    for s in SAMPLES {
        assert_eq!(chars_of(s), s.chars().collect::<Vec<char>>());
    }
}

#[test]
fn fold_char_lowers_ascii_letters_only() {
    assert_eq!(fold_char('A'), 'a' as u32);
    assert_eq!(fold_char('Z'), 'z' as u32);
    assert_eq!(fold_char('a'), 'a' as u32);
    assert_eq!(fold_char('@'), '@' as u32);
    assert_eq!(fold_char('['), '[' as u32);
    assert_eq!(fold_char('\u{c9}'), 0xc9);
    for code in 0u32..0x3000 {
        if let Some(c) = char::from_u32(code) {
            assert_eq!(fold_char(c), c.to_ascii_lowercase() as u32);
        }
    }
}

#[test]
fn equality_up_to_ascii_case_agrees_with_std() {
    assert!(str_eq_ignore_ascii_case("Ada@Example.com", "aDA@eXAMPLE.COM"));
    assert!(!str_eq_ignore_ascii_case("\u{e9}", "\u{c9}"));
    assert!(!str_eq_ignore_ascii_case("ab", "abc"));
    assert!(!str_eq_ignore_ascii_case("@", "`"));
    for a in SAMPLES {
        for b in SAMPLES {
            assert_eq!(str_eq_ignore_ascii_case(a, b), a.eq_ignore_ascii_case(b), "{:?} {:?}", a, b);
        }
    }
}

#[test]
fn white_space_agrees_with_std() {
    assert!(char_is_whitespace(' '));
    assert!(char_is_whitespace('\u{3000}'));
    assert!(!char_is_whitespace('\u{200B}'));
    assert!(!char_is_whitespace('a'));
    for code in 0u32..=0x10FFFF {
        if let Some(c) = char::from_u32(code) {
            assert_eq!(char_is_whitespace(c), c.is_whitespace(), "{:x}", code);
        }
    }
}

#[test]
fn blank_agrees_with_trim() {
    for s in ["", " ", "\t\r\n", "\u{2003}\u{85}", " a ", "\u{200B}", "a"] {
        assert_eq!(is_blank(s), s.trim().is_empty(), "{:?}", s);
    }
    for s in SAMPLES {
        assert_eq!(is_blank(s), s.trim().is_empty(), "{:?}", s);
    }
}

#[test]
fn order_agrees_with_std() {
    assert!(str_le("", ""));
    assert!(str_le("", "a"));
    assert!(!str_le("a", ""));
    assert!(str_le("Alpha", "Delta"));
    assert!(!str_le("b", "Zebra"));
    assert!(str_le("ab", "abc"));
    for a in SAMPLES {
        for b in SAMPLES {
            assert_eq!(str_le(a, b), a <= b, "{:?} {:?}", a, b);
        }
    }
}

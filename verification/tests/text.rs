use scrap_wayland::text::{
    char_is_control, char_is_white_space, chars_of, contains, push_decimal, push_signed_decimal,
    same_text, starts_with, string_of, trim,
};

#[test]
fn characters_are_classified_as_in_std() {
    for c in (0..=0x10ffffu32).filter_map(char::from_u32) {
        assert_eq!(char_is_control(c), c.is_control());
        assert_eq!(char_is_white_space(c), c.is_whitespace());
    }
}

#[test]
fn numbers_are_written_in_decimal() {
    for n in [0u64, 7, 10, 99, 100, 4294967296, u64::MAX] {
        let mut s = String::from("x");
        push_decimal(&mut s, n);
        assert_eq!(s, format!("x{n}"));
    }
    for i in [0i32, -1, 5, -10, i32::MAX, i32::MIN] {
        let mut s = String::from("-");
        push_signed_decimal(&mut s, i);
        assert_eq!(s, format!("-{i}"));
    }
}

#[test]
fn texts_are_searched() {
    let hay = "a\u{e4}bab";
    for needle in ["", "a", "ab", "\u{e4}b", "bab", "babb", "a\u{e4}bab", "x"] {
        assert_eq!(contains(hay, needle), hay.contains(needle));
        assert_eq!(starts_with(hay, needle), hay.starts_with(needle));
    }
    assert!(contains("", ""));
    assert!(!contains("", "a"));
}

#[test]
fn texts_are_compared_and_cut() {
    assert!(same_text("ab", "ab"));
    assert!(!same_text("ab", "abc"));
    assert!(!same_text("ab", "AB"));
    let v = chars_of("h\u{e9}llo");
    assert_eq!(v, vec!['h', '\u{e9}', 'l', 'l', 'o']);
    assert_eq!(string_of(&v, 1, 3), "\u{e9}l");
    assert_eq!(string_of(&v, 5, 5), "");
    for s in ["", "  ", " a ", "a\u{2003}", "\u{85}a b\u{3000}\n"] {
        assert_eq!(trim(&chars_of(s)), s.trim());
    }
}

use freewrite_tui::event::parse_custom_minutes;
use freewrite_tui::text::{
    char_is_ascii_digit, char_is_control, char_is_whitespace, count_words, decimal_len,
    is_all_digits, parse_decimal, push_decimal, push_zero_padded,
};

#[test]
fn words_are_runs_without_whitespace() {
    assert_eq!(count_words(""), 0);
    assert_eq!(count_words(" "), 0);
    assert_eq!(count_words(" \t\n  "), 0);
    assert_eq!(count_words("a"), 1);
    assert_eq!(count_words("hi there"), 2);
    assert_eq!(count_words("  hi   there  "), 2);
    assert_eq!(count_words("one\ntwo\tthree four"), 4);
    assert_eq!(count_words("a-b,c.d"), 1);
    assert_eq!(count_words("é ü  ñ"), 3);
}

#[test]
fn words_are_parted_by_unicode_whitespace() {
    assert_eq!(count_words("a\u{a0}b"), 2);
    assert_eq!(count_words("a\u{2003}b\u{3000}c"), 3);
    assert_eq!(count_words("a\u{85}b\u{1680}c\u{2028}d\u{2029}e\u{202f}f\u{205f}g"), 7);
    assert_eq!(count_words("a\u{200b}b"), 1);
    assert_eq!(count_words("a\u{feff}b"), 1);
}

#[test]
fn word_count_agrees_with_std() {
    let samples = [
        "",
        "x",
        " x",
        "x ",
        "the quick  brown\tfox\n\njumps",
        "\u{2000}\u{2001}a\u{200a}",
        "tab\u{b}vertical\u{c}feed",
        "\u{1c}\u{1d}\u{1e}\u{1f}",
    ];
    for s in samples {
        assert_eq!(count_words(s), s.split_whitespace().count(), "{:?}", s);
    }
}

#[test]
fn character_classes_agree_with_std() {
    let mut c = 0u32;
    while c <= 0x10FFFF {
        if let Some(ch) = char::from_u32(c) {
            assert_eq!(char_is_whitespace(ch), ch.is_whitespace(), "{:x}", c);
            assert_eq!(char_is_control(ch), ch.is_control(), "{:x}", c);
            assert_eq!(char_is_ascii_digit(ch), ch.is_ascii_digit(), "{:x}", c);
        }
        c += 1;
    }
}

#[test]
fn decimal_numbers_are_read() {
    assert_eq!(parse_decimal(""), None);
    assert_eq!(parse_decimal("0"), Some(0));
    assert_eq!(parse_decimal("7"), Some(7));
    assert_eq!(parse_decimal("123"), Some(123));
    assert_eq!(parse_decimal("000123"), Some(123));
    assert_eq!(parse_decimal("18446744073709551615"), Some(u64::MAX));
    assert_eq!(parse_decimal("18446744073709551616"), None);
    assert_eq!(parse_decimal("99999999999999999999999"), None);
    assert_eq!(parse_decimal("00000000000000000000000000000000000001"), Some(1));
    assert_eq!(parse_decimal("12a3"), None);
    assert_eq!(parse_decimal("a"), None);
    assert_eq!(parse_decimal(" 12"), None);
    assert_eq!(parse_decimal("12 "), None);
    assert_eq!(parse_decimal("+12"), None);
    assert_eq!(parse_decimal("-12"), None);
    assert_eq!(parse_decimal("\u{0661}"), None);
    assert_eq!(parse_decimal("99999999999999999999999x"), None);
}

#[test]
fn digit_strings_are_told_apart() {
    assert!(is_all_digits(""));
    assert!(is_all_digits("0123456789"));
    assert!(!is_all_digits("12a"));
    assert!(!is_all_digits(" "));
    assert!(!is_all_digits("\u{0661}"));
}

#[test]
fn typed_lengths_fall_back_to_the_default() {
    assert_eq!(parse_custom_minutes(""), 5);
    assert_eq!(parse_custom_minutes("0"), 5);
    assert_eq!(parse_custom_minutes("0000"), 5);
    assert_eq!(parse_custom_minutes("1"), 1);
    assert_eq!(parse_custom_minutes("007"), 7);
    assert_eq!(parse_custom_minutes("45"), 45);
    assert_eq!(parse_custom_minutes("307445734561825860"), 307445734561825860);
    assert_eq!(parse_custom_minutes("307445734561825861"), 5);
    assert_eq!(parse_custom_minutes("18446744073709551615"), 5);
    assert_eq!(parse_custom_minutes("18446744073709551616"), 5);
    assert_eq!(parse_custom_minutes("4x"), 5);
}

#[test]
fn numbers_are_written_in_decimal() {
    for n in [0u128, 1, 9, 10, 11, 99, 100, 101, 12345, 1000000, u64::MAX as u128, u128::MAX] {
        let mut out = String::from("n=");
        push_decimal(&mut out, n);
        assert_eq!(out, format!("n={}", n));
        assert_eq!(decimal_len(n), n.to_string().len());
    }
}

#[test]
fn numbers_are_padded_with_zeros() {
    for n in [0u128, 1, 9, 10, 59, 99, 100, 2024, 9999, 10000, 262142, u128::MAX] {
        let mut two = String::new();
        push_zero_padded(&mut two, n, 2);
        assert_eq!(two, format!("{:02}", n));
        let mut four = String::from("x");
        push_zero_padded(&mut four, n, 4);
        assert_eq!(four, format!("x{:04}", n));
        let mut none = String::new();
        push_zero_padded(&mut none, n, 0);
        assert_eq!(none, format!("{}", n));
        let mut wide = String::new();
        push_zero_padded(&mut wide, n, 45);
        assert_eq!(wide, format!("{:045}", n));
    }
}

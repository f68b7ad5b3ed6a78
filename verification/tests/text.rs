use langfront::text::{parse_decimal, str_eq, substring};

#[test]
fn equal_texts_are_equal() {
    assert!(str_eq("", ""));
    assert!(str_eq("fcn", "fcn"));
    assert!(str_eq("h\u{e9}llo \u{4e16}\u{754c}", "h\u{e9}llo \u{4e16}\u{754c}"));
}

#[test]
fn different_texts_are_different() {
    assert!(!str_eq("", " "));
    assert!(!str_eq("fcn", "fcm"));
    assert!(!str_eq("fcn", "fc"));
    assert!(!str_eq("fc", "fcn"));
    assert!(!str_eq("Fcn", "fcn"));
    assert!(!str_eq("\u{e9}", "e"));
    assert!(!str_eq("\u{e9}", "\u{e8}"));
}

#[test]
fn substring_is_the_text_between_two_offsets() {
    assert_eq!(substring("var x", 0, 3), "var");
    assert_eq!(substring("var x", 4, 5), "x");
    assert_eq!(substring("var x", 0, 5), "var x");
    assert_eq!(substring("var x", 2, 2), "");
    assert_eq!(substring("", 0, 0), "");
    assert_eq!(substring("a\u{e9}b", 1, 3), "\u{e9}");
    assert_eq!(substring("a\u{e9}b", 3, 4), "b");
    assert_eq!(substring("\u{4e16}\u{754c}", 3, 6), "\u{754c}");
}

#[test]
fn digits_are_read_as_a_number() {
    assert_eq!(parse_decimal("0"), Some(0));
    assert_eq!(parse_decimal("7"), Some(7));
    assert_eq!(parse_decimal("42"), Some(42));
    assert_eq!(parse_decimal("000123"), Some(123));
    assert_eq!(parse_decimal("1234567890"), Some(1234567890));
    assert_eq!(parse_decimal(&usize::MAX.to_string()), Some(usize::MAX));
}

#[test]
fn other_texts_are_no_numbers() {
    assert_eq!(parse_decimal(""), None);
    assert_eq!(parse_decimal("a"), None);
    assert_eq!(parse_decimal("4a"), None);
    assert_eq!(parse_decimal("a4"), None);
    assert_eq!(parse_decimal("+5"), None);
    assert_eq!(parse_decimal("-5"), None);
    assert_eq!(parse_decimal(" 5"), None);
    assert_eq!(parse_decimal("5 "), None);
    assert_eq!(parse_decimal("1.5"), None);
    assert_eq!(parse_decimal("1_000"), None);
    assert_eq!(parse_decimal("\u{664}\u{662}"), None);
    assert_eq!(parse_decimal("4\u{e9}"), None);
    assert_eq!(parse_decimal("/"), None);
    assert_eq!(parse_decimal(":"), None);
}

#[test]
fn numbers_beyond_the_machine_word_are_not_read() {
    let mut digits = usize::MAX.to_string().into_bytes();
    let last = digits.len() - 1;
    assert!(digits[last] < b'9');
    digits[last] += 1;
    assert_eq!(parse_decimal(&String::from_utf8(digits).unwrap()), None);
    assert_eq!(parse_decimal(&format!("{}0", usize::MAX)), None);
    assert_eq!(parse_decimal("99999999999999999999999999999999999999999"), None);
    assert_eq!(parse_decimal(&format!("0{}", usize::MAX)), Some(usize::MAX));
}

use hdt::text::{
    decimal_text, hexadecimal_text, parse_unsigned, same_text, text_standing, ParseIntError, Standing,
};

#[test]
fn numbers_in_decimal() {
    assert_eq!(decimal_text(0), "0");
    assert_eq!(decimal_text(9), "9");
    assert_eq!(decimal_text(10), "10");
    assert_eq!(decimal_text(u64::MAX), "18446744073709551615");
}

#[test]
fn numbers_in_hexadecimal() {
    assert_eq!(hexadecimal_text(0, 16), "0000000000000000");
    assert_eq!(hexadecimal_text(0xdead_beef, 16), "00000000deadbeef");
    assert_eq!(hexadecimal_text(u64::MAX, 16), "ffffffffffffffff");
    assert_eq!(hexadecimal_text(0x123, 2), "23");
}

#[test]
fn numbers_are_read_back() {
    for n in [0, 1, 255, 256, 4294967296, u64::MAX] {
        assert_eq!(parse_unsigned(&decimal_text(n), u64::MAX).ok(), Some(n));
    }
}

#[test]
fn numbers_are_parsed_as_std_does() {
    for text in [
        "", "+", "-", "0", "+7", "++7", "-0", "007", "12x", "x12", " 1", "1 ", "255", "256", "300x",
        "25x5", "99999999999999999999", "99999999999999999999x", "\u{664}",
    ] {
        let ours = match parse_unsigned(text, 255) {
            Ok(n) => Ok(n as u8),
            Err(e) => Err(e.message()),
        };
        assert_eq!(ours, text.parse::<u8>().map_err(|e| e.to_string()), "u8 {text:?}");
        let ours = parse_unsigned(text, u64::MAX).map_err(|e| e.message());
        assert_eq!(ours, text.parse::<u64>().map_err(|e| e.to_string()), "u64 {text:?}");
    }
}

#[test]
fn parse_errors() {
    assert!(matches!(parse_unsigned("", 9), Err(ParseIntError::Empty)));
    assert!(matches!(parse_unsigned("a", 9), Err(ParseIntError::InvalidDigit)));
    assert!(matches!(parse_unsigned("10", 9), Err(ParseIntError::PosOverflow)));
}

#[test]
fn texts_are_compared() {
    assert!(same_text("a\u{e9}", "a\u{e9}"));
    assert!(!same_text("a", "ab"));
    assert!(!same_text("a", "b"));
    assert_eq!(text_standing("a", "b"), Standing::Before);
    assert_eq!(text_standing("a", "ab"), Standing::Before);
    assert_eq!(text_standing("b", "ab"), Standing::After);
    assert_eq!(text_standing("", ""), Standing::Same);
    assert_eq!(text_standing("z", "\u{e9}"), Standing::Before);
}

use spacetaxi::text::{i64_to_decimal, parse_i64, parse_u16, parse_u32, parse_u64, str_equals, trim, u64_to_decimal};

#[test]
fn decimal_text_matches_std() {
    for n in [0u64, 9, 10, 99, 100, 12345, u64::MAX] {
        assert_eq!(u64_to_decimal(n), n.to_string());
        assert_eq!(parse_u64(&n.to_string()), Some(n));
    }
    for x in [0i64, -1, 42, i64::MIN, i64::MAX] {
        assert_eq!(i64_to_decimal(x), x.to_string());
        assert_eq!(parse_i64(&x.to_string()), Some(x));
    }
}

#[test]
fn integer_parsing_matches_std() {
    for s in ["", "+", "-", "+0", "-0", "007", "1_000", " 1", "18446744073709551615", "18446744073709551616", "4294967295", "4294967296", "65535", "65536", "+-1", "9223372036854775807", "9223372036854775808", "-9223372036854775808", "-9223372036854775809", "٣"] {
        assert_eq!(parse_u64(s), s.parse::<u64>().ok(), "u64 {:?}", s);
        assert_eq!(parse_u32(s), s.parse::<u32>().ok(), "u32 {:?}", s);
        assert_eq!(parse_u16(s), s.parse::<u16>().ok(), "u16 {:?}", s);
        assert_eq!(parse_i64(s), s.parse::<i64>().ok(), "i64 {:?}", s);
    }
}

#[test]
fn trimming_matches_std() {
    for s in ["", "  a b  ", "\u{3000}x\u{85}", "\t\n", "x"] {
        assert_eq!(trim(s), s.trim());
    }
    assert!(str_equals("abc", "abc"));
    assert!(!str_equals("abc", "abd"));
}

use client_backend::io::regexes::get_time;
use client_backend::text::{
    lines, parse_i64, parse_u32, parse_u64, parse_usize, split_char, split_double_colon,
    split_whitespace, starts_with, trim, u64_to_decimal,
};

#[test]
fn parse_unsigned_like_std() {
    assert_eq!(parse_u32("0"), Some(0));
    assert_eq!(parse_u32("+42"), Some(42));
    assert_eq!(parse_u32("4294967295"), Some(u32::MAX));
    assert_eq!(parse_u32("4294967296"), None);
    assert_eq!(parse_u32(""), None);
    assert_eq!(parse_u32("+"), None);
    assert_eq!(parse_u32("-1"), None);
    assert_eq!(parse_u32("1a"), None);
    assert_eq!(parse_usize("17"), Some(17));
    assert_eq!(parse_u64("18446744073709551615"), Some(u64::MAX));
    assert_eq!(parse_u64("18446744073709551616"), None);
    for s in ["0", "+7", "12x", "", "99999999999999999999"] {
        assert_eq!(parse_u64(s), s.parse::<u64>().ok());
        assert_eq!(parse_u32(s), s.parse::<u32>().ok());
    }
}

#[test]
fn parse_signed_like_std() {
    for s in ["0", "-0", "+5", "-5", "9223372036854775807", "-9223372036854775808", "9223372036854775808", "-", "--1", "1-"] {
        assert_eq!(parse_i64(s), s.parse::<i64>().ok(), "{s}");
    }
}

#[test]
fn decimal_round_trip() {
    for n in [0u64, 7, 10, 99, 100, 76561198071482715, u64::MAX] {
        let s = u64_to_decimal(n);
        assert_eq!(s, n.to_string());
        assert_eq!(parse_u64(&s), Some(n));
    }
}

#[test]
fn lines_like_std() {
    for s in ["", "a", "a\n", "a\r\nb", "\n\nx\r", "one\ntwo\nthree"] {
        let expected: Vec<String> = s.lines().map(|l| l.to_string()).collect();
        assert_eq!(lines(s), expected, "{s:?}");
    }
}

#[test]
fn trim_and_words_like_std() {
    for s in ["", "  ", " a b  ", "\tx\ny ", "word"] {
        assert_eq!(trim(s), s.trim());
        let expected: Vec<String> = s.split_whitespace().map(|w| w.to_string()).collect();
        assert_eq!(split_whitespace(s), expected);
    }
}

#[test]
fn split_like_std() {
    for s in ["", ":", "a:b", "1:14:46", "::x"] {
        let expected: Vec<String> = s.split(':').map(|p| p.to_string()).collect();
        assert_eq!(split_char(s, ':'), expected);
    }
    for s in ["76561198::to_sid3", "a::b::c", "none", "::"] {
        let expected: Vec<String> = s.split("::").map(|p| p.to_string()).collect();
        assert_eq!(split_double_colon(s), expected);
    }
    assert!(starts_with("765611980", "765611"));
    assert!(!starts_with("7656", "765611"));
}

#[test]
fn get_time_seconds() {
    assert_eq!(get_time("57:48"), Some(57 * 60 + 48));
    assert_eq!(get_time("1:14:46"), Some(3600 + 14 * 60 + 46));
    assert_eq!(get_time("5"), Some(5));
    assert_eq!(get_time("1:x"), None);
    assert_eq!(get_time(""), None);
}

use ulgate::encoding::base64url_encode;
use ulgate::ratio::Ratio;
use ulgate::text::{
    clip, contains_str, find_str, i64_text, is_white_space, parse_i64, parse_u64, split_on,
    split_words, strip_prefix, strip_suffix, trim, trim_end_str, trim_start_str, u128_text, u64_text,
};

#[test]
fn white_space_is_that_of_unicode() {
    for n in 0..=0x10ffffu32 {
        if let Some(c) = char::from_u32(n) {
            assert_eq!(is_white_space(c), c.is_whitespace(), "{:x}", n);
        }
    }
}

#[test]
fn trimming_matches_std() {
    for s in ["", " ", " a ", "\t\u{3000}x y\n", "x", "\u{200b}x"] {
        assert_eq!(trim(s), s.trim());
        let words: Vec<&str> = s.split_whitespace().collect();
        assert_eq!(split_words(s), words);
    }
    assert_eq!(trim_end_str("5msms", "ms"), "5");
    assert_eq!(trim_start_str("ababc", "ab"), "c");
    assert_eq!(trim_end_str("x", ""), "x");
}

#[test]
fn splitting_matches_std() {
    for s in ["", ",", "a", "a,b", ",a,,b,", "\u{e9},\u{4e2d}"] {
        let want: Vec<&str> = s.split(',').collect();
        assert_eq!(split_on(s, ','), want);
    }
}

#[test]
fn searching_matches_std() {
    assert_eq!(find_str("ab\r\n\r\ncd", "\r\n\r\n"), Some(2));
    assert_eq!(find_str("ab", "abc"), None);
    assert_eq!(find_str("", ""), Some(0));
    assert!(contains_str("capability denied: x", "capability denied"));
    assert!(!contains_str("capability", "capability denied"));
    assert_eq!(strip_prefix("tool:x", "tool:"), Some("x"));
    assert_eq!(strip_prefix("x", "tool:"), None);
    assert_eq!(strip_suffix("/a/message", "/message"), Some("/a"));
    assert_eq!(strip_suffix("a", "/message"), None);
}

#[test]
fn numerals_match_std() {
    for n in [0u64, 1, 9, 10, 12345, u64::MAX] {
        assert_eq!(u64_text(n), n.to_string());
        assert_eq!(parse_u64(&n.to_string(), u64::MAX), Some(n));
    }
    for n in [0i64, -1, 42, i64::MIN, i64::MAX] {
        assert_eq!(i64_text(n), n.to_string());
        assert_eq!(parse_i64(&n.to_string()), Some(n));
    }
    assert_eq!(u128_text(u128::MAX), u128::MAX.to_string());
    for s in ["", "+", "-", "+5", "-0", "007", "1 ", "a", "18446744073709551616", "--1", "9223372036854775808", "-9223372036854775809", "\u{663}"] {
        assert_eq!(parse_u64(s, u64::MAX), s.parse::<u64>().ok(), "{}", s);
        assert_eq!(parse_i64(s), s.parse::<i64>().ok(), "{}", s);
    }
    assert_eq!(parse_u64("256", 255), None);
    assert_eq!(parse_u64("255", 255), Some(255));
}

#[test]
fn clipping_counts_bytes() {
    assert_eq!(clip("abc", 5), "abc");
    assert_eq!(clip("abc", 2), "ab");
    assert_eq!(clip("a\u{e9}b", 3), "a\u{e9}");
}

#[test]
fn percentages_are_rounded_to_even() {
    assert_eq!(Ratio { part: 1, whole: 3 }.percent_one(), "33.3");
    assert_eq!(Ratio { part: 2, whole: 3 }.percent_one(), "66.7");
    assert_eq!(Ratio { part: 1, whole: 1 }.percent_one(), "100.0");
    assert_eq!(Ratio { part: 1, whole: 16 }.percent_one(), "6.2");
    assert_eq!(Ratio { part: 3, whole: 16 }.percent_one(), "18.8");
    assert_eq!(Ratio { part: 1, whole: 3 }.percent_three(), "33.333");
    assert_eq!(Ratio { part: 1, whole: 100_000 }.percent_three(), "0.001");
    assert_eq!(Ratio { part: 0, whole: 7 }.percent_three(), "0.000");
}

#[test]
fn encoded_text_is_plain() {
    assert!(base64url_encode(&[255; 40]).chars().all(|c| c.is_ascii_alphanumeric() || c == '_'));
}

use octane::decimal::{i64_text, parse_i64_text, u32_text};
use octane::text::{contains, eq_ignore_ascii_case, replace, split_chars, to_ascii_lowercase, trim};
use octane::wide::{wide, wide_to_string};

#[test]
fn trim_unicode_space() {
    assert_eq!(trim("  a b \n"), "a b");
    assert_eq!(trim("\u{3000}\u{a0}x\u{2009}\u{85}"), "x");
    assert_eq!(trim(" \t\r\n"), "");
    assert_eq!(trim(""), "");
    assert_eq!(trim("\u{200b}x"), "\u{200b}x");
    for s in ["  a b \n", "\u{3000}x", "", " ", "abc"] {
        assert_eq!(trim(s), s.trim());
        assert_eq!(trim(&trim(s)), trim(s));
    }
}

#[test]
fn ascii_case() {
    assert_eq!(to_ascii_lowercase("AbC-\u{c9}Z"), "abc-\u{c9}z");
    assert!(eq_ignore_ascii_case("HeLLo", "hello"));
    assert!(!eq_ignore_ascii_case("\u{c9}", "\u{e9}"));
    assert!(!eq_ignore_ascii_case("ab", "abc"));
}

#[test]
fn replace_and_contains() {
    assert_eq!(replace("aXbXX", "X", "yy"), "ayybyyyy");
    assert_eq!(replace("aaaa", "aa", "b"), "bb");
    assert_eq!(replace("aaa", "aa", "b"), "ba");
    assert_eq!(replace("none", "zz", "y"), "none");
    assert!(contains("Roblox Studio - Place", "Studio"));
    assert!(contains("abc", ""));
    assert!(!contains("ab", "abc"));
}

#[test]
fn split_like_str_split() {
    for s in ["a+b", "", "+", "a++b+", "abc"] {
        let cs: Vec<char> = s.chars().collect();
        let pieces: Vec<String> = split_chars(&cs, '+').iter().map(|p| p.iter().collect()).collect();
        let expected: Vec<String> = s.split('+').map(|p| p.to_string()).collect();
        assert_eq!(pieces, expected);
    }
}

#[test]
fn decimal_text() {
    assert_eq!(u32_text(0), "0");
    assert_eq!(u32_text(4294967295), "4294967295");
    assert_eq!(i64_text(-9223372036854775808), "-9223372036854775808");
    assert_eq!(i64_text(9223372036854775807), "9223372036854775807");
    assert_eq!(i64_text(-7), "-7");
    assert_eq!(i64_text(120), "120");
}

#[test]
fn decimal_parse_like_std() {
    for s in [
        "0", "+5", "-5", "-", "+", "", "12a", " 1", "007", "9223372036854775807", "9223372036854775808",
        "-9223372036854775808", "-9223372036854775809", "99999999999999999999999", "--1", "+-1", "\u{661}",
    ] {
        assert_eq!(parse_i64_text(s), s.parse::<i64>().ok(), "{s:?}");
    }
    for v in [0i64, 1, -1, 9999, i64::MIN, i64::MAX] {
        assert_eq!(parse_i64_text(&i64_text(v)), Some(v));
    }
}

#[test]
fn wide_strings() {
    assert_eq!(wide("Ab"), vec![0x41, 0x62, 0]);
    assert_eq!(wide("\u{1F600}"), vec![0xD83D, 0xDE00, 0]);
    assert_eq!(wide(""), vec![0]);
    for s in ["Octane FPS", "\u{1F600}x\u{e9}", ""] {
        let expected: Vec<u16> = s.encode_utf16().chain([0]).collect();
        assert_eq!(wide(s), expected);
        assert_eq!(wide_to_string(&wide(s)), s);
    }
}

#[test]
fn wide_to_string_stops_at_zero() {
    assert_eq!(wide_to_string(&[0x61, 0x62, 0, 0x63]), "ab");
    assert_eq!(wide_to_string(&[0x61, 0x62]), "ab");
    assert_eq!(wide_to_string(&[]), "");
    assert_eq!(wide_to_string(&[0xD800, 0x61, 0]), "\u{fffd}a");
    assert_eq!(wide_to_string(&[0x6f, 0x6b]), "ok");
}

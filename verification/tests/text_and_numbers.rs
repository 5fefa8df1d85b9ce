use update_downloader::decimal::{decimal_string, parse_u64};
use update_downloader::text::{joined, str_contains, str_count_char, str_ends_with};
use update_downloader::whitespace::trim;
use update_downloader::checksum::{md5_hex, to_lower_hex};

#[test]
fn decimal_text_of_numbers() {
    assert_eq!(decimal_string(0), "0");
    assert_eq!(decimal_string(7), "7");
    assert_eq!(decimal_string(12345), "12345");
    assert_eq!(decimal_string(u64::MAX as u128), "18446744073709551615");
    assert_eq!(decimal_string(1_700_000_000_123), "1700000000123");
}

#[test]
fn parse_u64_accepts_digits_and_plus() {
    assert_eq!(parse_u64("0"), Some(0));
    assert_eq!(parse_u64("1048576"), Some(1_048_576));
    assert_eq!(parse_u64("+42"), Some(42));
    assert_eq!(parse_u64("007"), Some(7));
    assert_eq!(parse_u64("18446744073709551615"), Some(u64::MAX));
}

#[test]
fn parse_u64_refuses_what_str_parse_refuses() {
    for bad in ["", "+", "-1", "-0", "12a", " 1", "1 ", "18446744073709551616", "99999999999999999999", "1.5", "++1"] {
        assert_eq!(parse_u64(bad), None, "{bad}");
        assert_eq!(parse_u64(bad), bad.parse::<u64>().ok(), "{bad}");
    }
}

#[test]
fn parse_reads_back_decimal_text() {
    for n in [0u64, 1, 9, 10, 65535, 1_048_576, u64::MAX - 1, u64::MAX] {
        assert_eq!(parse_u64(&decimal_string(n as u128)), Some(n));
    }
}

#[test]
fn string_helpers() {
    assert!(str_ends_with("http://h/update.json", "update.json"));
    assert!(!str_ends_with("json", "update.json"));
    assert!(str_ends_with("abc", ""));
    assert!(str_contains("a.tmp.123", ".tmp."));
    assert!(!str_contains("a.tmp", ".tmp."));
    assert_eq!(str_count_char("a.b.c", '.'), 2);
    assert_eq!(str_count_char("", '.'), 0);
    assert_eq!(joined("ab", "cd"), "abcd");
}

#[test]
fn trim_removes_unicode_white_space() {
    assert_eq!(trim("  patch.zip \n"), "patch.zip");
    assert_eq!(trim("\u{3000}\u{a0}name\u{2028}"), "name");
    assert_eq!(trim(" \t "), "");
    assert_eq!(trim("a b"), "a b");
    for s in ["", " x ", "\u{85}y\u{85}", "\u{200b}z"] {
        assert_eq!(trim(s), s.trim());
    }
}

#[test]
fn lower_hex_two_digits_per_byte() {
    assert_eq!(to_lower_hex(&[0x0a, 0x14, 0x1e]), "0a141e");
    assert_eq!(to_lower_hex(&[0x00, 0xff, 0xab]), "00ffab");
    assert_eq!(to_lower_hex(&[]), "");
}

#[test]
fn md5_checksums_in_hex() {
    assert_eq!(md5_hex(b""), "d41d8cd98f00b204e9800998ecf8427e");
    assert_eq!(md5_hex(b"abc"), "900150983cd24fb0d6963f7d28e17f72");
    assert_eq!(md5_hex(b"The quick brown fox jumps over the lazy dog"), "9e107d9d372bb6826bd81d3542a419d6");
}

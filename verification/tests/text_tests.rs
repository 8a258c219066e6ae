//! Tests for the text-level helpers: UTF-8 validation, scanning and decimal
//! rendering.

use geoetl::scan::{find_pattern, rfind_pattern, scan_object_end, skip_json_ws};
use geoetl::textfmt::u64_to_string;
use geoetl::validate_utf8;

#[test]
fn utf8_accepts_ascii_and_multibyte() {
    assert!(validate_utf8(b""));
    assert!(validate_utf8(b"plain ascii"));
    assert!(validate_utf8("\u{e9}\u{4e16}\u{1f310}".as_bytes()));
}

#[test]
fn utf8_rejects_malformed_sequences() {
    assert!(!validate_utf8(&[0xff]));
    assert!(!validate_utf8(&[0x80]));
    // An overlong two-byte encoding of an ASCII value.
    assert!(!validate_utf8(&[0xc0, 0xaf]));
    // A surrogate encoded in three bytes.
    assert!(!validate_utf8(&[0xed, 0xa0, 0x80]));
    // A value above the Unicode range.
    assert!(!validate_utf8(&[0xf5, 0x80, 0x80, 0x80]));
    // A truncated multi-byte character at the end.
    let mut cut = "caf\u{e9}".as_bytes().to_vec();
    cut.pop();
    assert!(!validate_utf8(&cut));
}

#[test]
fn skip_json_ws_counts_exactly() {
    assert_eq!(skip_json_ws(b""), 0);
    assert_eq!(skip_json_ws(b"abc"), 0);
    assert_eq!(skip_json_ws(b" \t\r\n x"), 5);
    assert_eq!(skip_json_ws(b"   "), 3);
}

#[test]
fn find_pattern_first_occurrence() {
    assert_eq!(find_pattern(b"abcabc", b"bc"), Some(1));
    assert_eq!(find_pattern(b"abcabc", b"zz"), None);
    assert_eq!(find_pattern(b"ab", b"abc"), None);
}

#[test]
fn rfind_pattern_last_occurrence() {
    assert_eq!(rfind_pattern(b"abcabc", b"bc"), Some(4));
    assert_eq!(rfind_pattern(b"abcabc", b"zz"), None);
}

#[test]
fn scan_object_end_cases() {
    assert_eq!(scan_object_end(b"{}"), Some(2));
    assert_eq!(scan_object_end(br#"{"a":"{"}"#), Some(9));
    assert_eq!(scan_object_end(br#"{"a":"\"}"}"#), Some(11));
    assert_eq!(scan_object_end(b"{"), None);
    assert_eq!(scan_object_end(b"junk{}"), Some(6));
}

#[test]
fn u64_to_string_renders_decimal() {
    assert_eq!(u64_to_string(0), "0");
    assert_eq!(u64_to_string(7), "7");
    assert_eq!(u64_to_string(105), "105");
    assert_eq!(u64_to_string(u64::MAX), "18446744073709551615");
}

use pinentry_fprint::text::{decimal_string, lossy_string, string_from_chars};

#[test]
fn decimal_notation() {
    assert_eq!(decimal_string(0), "0");
    assert_eq!(decimal_string(7), "7");
    assert_eq!(decimal_string(10), "10");
    assert_eq!(decimal_string(83886179), "83886179");
    assert_eq!(decimal_string(u64::MAX), u64::MAX.to_string());
}

#[test]
fn lossy_decoding() {
    assert_eq!(lossy_string(b"abc"), "abc");
    assert_eq!(lossy_string("é".as_bytes()), "é");
    assert_eq!(lossy_string(&[0x61, 0xFF, 0x62]), "a\u{FFFD}b");
    assert_eq!(lossy_string(&[]), "");
}

#[test]
fn strings_from_chars() {
    assert_eq!(string_from_chars(&['h', 'é', '✓', '😀']), "hé✓😀");
    assert_eq!(string_from_chars(&[]), "");
}

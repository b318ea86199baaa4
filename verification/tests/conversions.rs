use asgore_core::convert::{
    decode_hex, decode_unicode, encode_hex, encode_unicode, text_to_hex, text_to_unicode, try_hex_to_text,
    try_unicode_to_text,
};

#[test]
fn hex_of_utf8_bytes() {
    assert_eq!(encode_hex("A"), "41");
    assert_eq!(encode_hex("\u{0628}"), "d8a8");
    assert_eq!(encode_hex(""), "");
}

#[test]
fn hex_read_back() {
    assert_eq!(decode_hex("d8a8"), "\u{0628}");
    assert_eq!(decode_hex("D8A8"), "\u{0628}");
    assert_eq!(decode_hex(&encode_hex("abc \u{0645}")), "abc \u{0645}");
}

#[test]
fn malformed_hex_reads_as_nothing() {
    assert_eq!(decode_hex("zz"), "");
    assert_eq!(decode_hex("414"), "");
    assert_eq!(decode_hex("ff"), "");
}

#[test]
fn code_units() {
    assert_eq!(encode_unicode("A\u{0628}"), "00410628");
    assert_eq!(decode_unicode("00410628"), "A\u{0628}");
    assert_eq!(decode_unicode(&encode_unicode("x\u{FEFB}")), "x\u{FEFB}");
}

#[test]
fn hex_forms() {
    assert_eq!(text_to_hex("A", "<byte> ", 1), "41 ");
    assert_eq!(text_to_hex("\u{0628}", "<byte> ", 2), "d8a8 ");
    assert_eq!(text_to_hex("\u{0628}", "[<byte>]", 3), "[00d8a8]");
    assert_eq!(text_to_hex("AB", "<byte>,", 1), "41,42,");
}

#[test]
fn unicode_forms() {
    assert_eq!(text_to_unicode("A", "\\u<unicode>"), "\\u0041");
    assert_eq!(text_to_unicode("A\u{0628}", "<unicode> "), "0041 0628 ");
}

#[test]
fn hex_forms_read_back() {
    assert_eq!(try_hex_to_text("41 42", "([0-9a-fA-F]+)"), Some("AB".to_string()));
    assert_eq!(try_hex_to_text("0041", "([0-9a-fA-F]+)"), Some("A".to_string()));
    assert_eq!(try_hex_to_text("41", "("), None);
    assert_eq!(try_hex_to_text("41", "[0-9]+"), None);
}

#[test]
fn unicode_forms_read_back() {
    assert_eq!(
        try_unicode_to_text("\\u0041\\u0628", "\\\\u([0-9A-F]{4})"),
        Some("A\u{0628}".to_string())
    );
    assert_eq!(try_unicode_to_text("x", "("), None);
}

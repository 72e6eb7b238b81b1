use pomp::css::{css_format, css_minify, CssError};
use pomp::json::{json_format, json_minify, JsonError};
use pomp::unicode::{unicode_escape_decode, unicode_escape_encode, UnicodeEscapeError};
use pomp::url::{url_decode, url_encode, UrlDecodeError};

#[test]
fn test_unicode_decode_simple_escape() {
    assert_eq!(unicode_escape_decode("\\u0041").unwrap(), "A");
}

#[test]
fn test_unicode_decode_mixed_text() {
    assert_eq!(
        unicode_escape_decode("caf\\u00e9 \\u2764").unwrap(),
        "caf\u{e9} \u{2764}"
    );
}

#[test]
fn test_unicode_decode_control_escapes() {
    assert_eq!(unicode_escape_decode("a\\nb\\tc\\rd\\\\e").unwrap(), "a\nb\tc\rd\\e");
}

#[test]
fn test_unicode_decode_keeps_unknown_escape() {
    assert_eq!(unicode_escape_decode("\\x41").unwrap(), "\\x41");
}

#[test]
fn test_unicode_decode_trailing_backslash() {
    assert_eq!(unicode_escape_decode("abc\\").unwrap(), "abc\\");
}

#[test]
fn test_unicode_decode_short_escape_is_error() {
    let err = unicode_escape_decode("\\u12").unwrap_err();
    match err {
        UnicodeEscapeError::InvalidEscapeSequence(s) => assert_eq!(s, "\\u12"),
        UnicodeEscapeError::InvalidCodePoint => panic!("wrong error variant"),
    }
}

#[test]
fn test_unicode_decode_bad_digit_is_error() {
    let err = unicode_escape_decode("\\u12zz after").unwrap_err();
    match &err {
        UnicodeEscapeError::InvalidEscapeSequence(s) => {
            assert_eq!(s, "\\u12zz");
            assert_eq!(err.message(), "invalid unicode escape sequence: \\u12zz");
        }
        UnicodeEscapeError::InvalidCodePoint => panic!("wrong error variant"),
    }
}

#[test]
fn test_unicode_decode_surrogate_is_error() {
    let err = unicode_escape_decode("\\ud800").unwrap_err();
    assert!(matches!(err, UnicodeEscapeError::InvalidCodePoint));
    assert_eq!(err.message(), "invalid unicode code point");
}

#[test]
fn test_unicode_encode_ascii_passthrough() {
    assert_eq!(unicode_escape_encode("Hello, World!"), "Hello, World!");
}

#[test]
fn test_unicode_encode_non_ascii() {
    assert_eq!(unicode_escape_encode("caf\u{e9}"), "caf\\u00e9");
}

#[test]
fn test_unicode_encode_control_char() {
    assert_eq!(unicode_escape_encode("a\tb"), "a\\u0009b");
}

#[test]
fn test_unicode_encode_beyond_bmp() {
    assert_eq!(unicode_escape_encode("\u{1f600}"), "\\u{1f600}");
}

#[test]
fn test_unicode_roundtrip_bmp() {
    // Only code points up to U+FFFF use the `\uXXXX` form that the decoder
    // understands; beyond-BMP characters encode as `\u{...}` one-way.
    let original = "caf\u{e9} \u{2764}\tdone";
    let encoded = unicode_escape_encode(original);
    let decoded = unicode_escape_decode(&encoded).unwrap();
    assert_eq!(decoded, original);
}

#[test]
fn test_url_encode_spaces() {
    assert_eq!(url_encode("hello world"), "hello%20world");
}

#[test]
fn test_url_encode_keeps_unreserved() {
    assert_eq!(url_encode("abc-_.~123"), "abc-_.~123");
}

#[test]
fn test_url_decode_simple() {
    assert_eq!(url_decode("hello%20world").unwrap(), "hello world");
}

#[test]
fn test_url_decode_invalid_utf8_is_error() {
    let err = url_decode("%ff").unwrap_err();
    assert!(matches!(err, UrlDecodeError::InvalidEncoding));
    assert_eq!(err.message(), "invalid URL encoding");
}

#[test]
fn test_url_roundtrip() {
    let original = "a b&c=d?e/f";
    assert_eq!(url_decode(&url_encode(original)).unwrap(), original);
}

#[test]
fn test_json_format_object() {
    let result = json_format("{\"a\":1}").unwrap();
    assert_eq!(result, "{\n  \"a\": 1\n}");
}

#[test]
fn test_json_minify_object() {
    let result = json_minify("{ \"a\" : 1, \"b\" : [ 1, 2 ] }").unwrap();
    assert_eq!(result, "{\"a\":1,\"b\":[1,2]}");
}

#[test]
fn test_json_format_invalid_is_parse_error() {
    let err = json_format("not json").unwrap_err();
    match err {
        JsonError::ParseError(msg) => assert!(!msg.is_empty()),
        JsonError::FormatError(..) => panic!("wrong error variant"),
    }
}

#[test]
fn test_json_minify_invalid_is_parse_error() {
    let err = json_minify("{broken").unwrap_err();
    assert!(matches!(err, JsonError::ParseError(..)));
}

#[test]
fn test_json_error_message() {
    let err = json_format("nope").unwrap_err();
    let msg = err.message();
    assert!(msg.starts_with("Invalid JSON - "));
}

#[test]
fn test_css_minify_rule() {
    let result = css_minify("a { color: red; }").unwrap();
    assert_eq!(result, "a{color:red}");
}

#[test]
fn test_css_format_rule() {
    let result = css_format("a{color:red}").unwrap();
    assert!(result.contains("color: red"));
}

#[test]
fn test_css_format_invalid_is_error() {
    let err = css_format("}}}").unwrap_err();
    match err {
        CssError::ParseError(msg) => assert!(!msg.is_empty()),
        _ => panic!("wrong error variant"),
    }
}

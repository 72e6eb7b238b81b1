use pomp::base64::{base64_decode, base64_encode, DecodeError};

#[test]
fn test_base64_decode_with_padding() {
    let input = "SGVsbG8gV29ybGQ=";
    let result = base64_decode(input).unwrap();
    assert_eq!(result, "Hello World");
}

#[test]
fn test_base64_decode_without_padding() {
    // "Hello World" in base64 is "SGVsbG8gV29ybGQ=" but we test without padding
    let input = "SGVsbG8gV29ybGQ";
    let result = base64_decode(input).unwrap();
    assert_eq!(result, "Hello World");
}

#[test]
fn test_base64_decode_missing_one_pad() {
    // "Hello!" in base64 is "SGVsbG8h" (no padding needed)
    // "Hello" in base64 is "SGVsbG8=" (1 padding needed)
    let input = "SGVsbG8";
    let result = base64_decode(input).unwrap();
    assert_eq!(result, "Hello");
}

#[test]
fn test_base64_decode_missing_two_pads() {
    // "Hi" in base64 is "SGk=" normally, test without padding
    let input = "SGk";
    let result = base64_decode(input).unwrap();
    assert_eq!(result, "Hi");
}

#[test]
fn test_base64_encode() {
    let input = "Hello World";
    let result = base64_encode(input);
    assert_eq!(result, "SGVsbG8gV29ybGQ=");
}

#[test]
fn test_base64_roundtrip() {
    let original = "Test string with special chars: !@#$%^&*()";
    let encoded = base64_encode(original);
    let decoded = base64_decode(&encoded).unwrap();
    assert_eq!(decoded, original);
}

#[test]
fn test_base64_decode_surrounding_whitespace() {
    let result = base64_decode("  SGVsbG8gV29ybGQ=\n").unwrap();
    assert_eq!(result, "Hello World");
}

#[test]
fn test_base64_decode_rejects_garbage() {
    let err = base64_decode("!!!!").unwrap_err();
    assert!(matches!(err, DecodeError::Base64DecodeError(..)));
    assert_eq!(err.message(), "invalid base64 input");
}

#[test]
fn test_base64_decode_rejects_non_utf8() {
    // "/w==" decodes to the single byte 0xFF, which is not valid UTF-8.
    let err = base64_decode("/w==").unwrap_err();
    assert!(matches!(err, DecodeError::FromUtf8Error(..)));
    assert_eq!(err.message(), "decoded base64 is not valid UTF-8");
}

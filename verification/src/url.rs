//! Percent-encoding and -decoding of the working buffer, through the
//! urlencoding crate.

use vstd::prelude::*;

verus! {

/// Why a buffer failed to decode: the percent-decoded bytes are not UTF-8.
#[derive(Debug)]
pub enum UrlDecodeError {
    InvalidEncoding,
}

impl UrlDecodeError {
    pub fn message(&self) -> (r: &'static str)
        ensures
            r@ == "invalid URL encoding"@,
    {
        match self {
            UrlDecodeError::InvalidEncoding => "invalid URL encoding",
        }
    }
}

/// What percent-encoding yields on this text: every byte percent-encoded
/// except ASCII alphanumerics and `-` `_` `.` `~`.
pub uninterp spec fn url_encode_of(s: Seq<char>) -> Seq<char>;

/// What percent-decoding yields on this text: `None` exactly when the
/// decoded bytes are not valid UTF-8 (malformed `%` sequences pass through
/// verbatim and are no error).
pub uninterp spec fn url_decode_of(s: Seq<char>) -> Option<Seq<char>>;

/// Relies on `urlencoding::encode`: a pure function of the input text.
#[verifier::external_body]
fn url_encode_raw(s: &str) -> (r: String)
    ensures
        r@ == url_encode_of(s@),
{
    urlencoding::encode(s).into_owned()
}

/// Relies on `urlencoding::decode`: a pure function of the input text,
/// failing exactly when the percent-decoded bytes are not UTF-8.
#[verifier::external_body]
fn url_decode_raw(s: &str) -> (r: Option<String>)
    ensures
        (r is Some) == (url_decode_of(s@) is Some),
        r matches Some(t) ==> url_decode_of(s@) == Some(t@),
{
    match urlencoding::decode(s) {
        Ok(t) => Some(t.into_owned()),
        Err(_) => None,
    }
}

/// Percent-decodes the buffer, requiring the decoded bytes to be UTF-8.
pub fn url_decode(buffer: &str) -> (r: Result<String, UrlDecodeError>)
    ensures
        (r is Ok) == (url_decode_of(buffer@) is Some),
        r matches Ok(t) ==> url_decode_of(buffer@) == Some(t@),
        r matches Err(e) ==> e is InvalidEncoding,
{
    match url_decode_raw(buffer) {
        Some(t) => Ok(t),
        None => Err(UrlDecodeError::InvalidEncoding),
    }
}

/// Percent-encodes the buffer.
pub fn url_encode(buffer: &str) -> (r: String)
    ensures
        r@ == url_encode_of(buffer@),
{
    url_encode_raw(buffer)
}

} // verus!

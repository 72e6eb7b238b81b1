//! Base64 encoding and decoding of the working buffer. Decoding is lenient
//! about missing `=` padding: the input is trimmed and padded to a multiple
//! of four bytes before the standard-alphabet decoder runs.

use vstd::prelude::*;
use vstd::utf8::{decode_utf8, encode_utf8, valid_utf8};
use crate::text::{trim_spec, trimmed_str};
use ::base64::Engine;

verus! {

broadcast use vstd::string::group_string_axioms;

/// Why a buffer failed to decode: not base64 at all, or base64 whose bytes
/// are not UTF-8.
#[derive(Debug)]
pub enum DecodeError {
    Base64DecodeError(()),
    FromUtf8Error(()),
}

impl DecodeError {
    pub fn message(&self) -> (r: &'static str)
        ensures
            r@ == (match self {
                DecodeError::Base64DecodeError(..) => "invalid base64 input"@,
                DecodeError::FromUtf8Error(..) => "decoded base64 is not valid UTF-8"@,
            }),
    {
        match self {
            DecodeError::Base64DecodeError(..) => "invalid base64 input",
            DecodeError::FromUtf8Error(..) => "decoded base64 is not valid UTF-8",
        }
    }
}

/// What the standard-alphabet base64 encoder produces for these bytes.
pub uninterp spec fn b64_encode_of(bytes: Seq<u8>) -> Seq<char>;

/// What the standard-alphabet base64 decoder produces for this text:
/// `None` exactly on inputs it rejects.
pub uninterp spec fn b64_decode_of(s: Seq<char>) -> Option<Seq<u8>>;

/// Relies on base64's `Engine::encode` with the `STANDARD` engine: the
/// encoding is a pure function of the input bytes.
#[verifier::external_body]
fn b64_encode_raw(s: &str) -> (r: String)
    ensures
        r@ == b64_encode_of(encode_utf8(s@)),
{
    ::base64::engine::general_purpose::STANDARD.encode(s.as_bytes())
}

/// Relies on base64's `Engine::decode` with the `STANDARD` engine: the
/// decoding is a pure function of the input text, rejecting exactly the
/// inputs that are not standard-alphabet base64 with canonical padding.
#[verifier::external_body]
fn b64_decode_raw(s: &str) -> (r: Option<Vec<u8>>)
    ensures
        (r is Some) == (b64_decode_of(s@) is Some),
        r matches Some(b) ==> b64_decode_of(s@) == Some(b@),
{
    ::base64::engine::general_purpose::STANDARD.decode(s).ok()
}

/// Relies on `String::from_utf8`: it succeeds exactly on valid UTF-8 and
/// yields the characters those bytes encode.
#[verifier::external_body]
fn utf8_to_string(bytes: Vec<u8>) -> (r: Option<String>)
    ensures
        (r is Some) == valid_utf8(bytes@),
        r matches Some(s) ==> s@ == decode_utf8(bytes@),
{
    String::from_utf8(bytes).ok()
}

/// How many `=` bytes bring the trimmed text to a multiple of four bytes.
pub open spec fn pad_count(t: Seq<char>) -> int {
    (4 - (encode_utf8(t).len() as int % 4)) % 4
}

/// The input trimmed and padded with `=` to a multiple of four bytes.
pub open spec fn padded_b64(s: Seq<char>) -> Seq<char> {
    let t = trim_spec(s);
    t + Seq::new(pad_count(t) as nat, |i: int| '=')
}

fn add_base64_padding(input: &str) -> (r: String)
    ensures
        r@ == padded_b64(input@),
{
    let trimmed = trimmed_str(input);
    let byte_len = trimmed.as_bytes().len();
    proof {
        assert(byte_len == encode_utf8(trim_spec(input@)).len());
    }
    let padding_needed: usize = (4 - (byte_len % 4)) % 4;
    let base = String::from_str(trimmed);
    proof {
        reveal_strlit("=");
        reveal_strlit("==");
        reveal_strlit("===");
    }
    let ghost t = trim_spec(input@);
    let ghost pad = Seq::new(pad_count(t) as nat, |i: int| '=');
    if padding_needed == 1 {
        let r = base.concat("=");
        proof {
            assert(pad =~= "="@);
            assert(r@ =~= t + pad);
        }
        r
    } else if padding_needed == 2 {
        let r = base.concat("==");
        proof {
            assert(pad =~= "=="@);
            assert(r@ =~= t + pad);
        }
        r
    } else if padding_needed == 3 {
        let r = base.concat("===");
        proof {
            assert(pad =~= "==="@);
            assert(r@ =~= t + pad);
        }
        r
    } else {
        proof {
            assert(base@ =~= t + pad);
        }
        base
    }
}

/// What decoding yields for a given buffer: the UTF-8 text of the decoded
/// bytes, or the error naming the step that rejected it.
pub open spec fn decode_outcome(s: Seq<char>) -> Result<Seq<char>, DecodeError> {
    match b64_decode_of(padded_b64(s)) {
        Option::None => Err(DecodeError::Base64DecodeError(())),
        Option::Some(bytes) => if valid_utf8(bytes) {
            Ok(decode_utf8(bytes))
        } else {
            Err(DecodeError::FromUtf8Error(()))
        },
    }
}

/// Decodes the buffer from base64 (after trimming and re-padding it),
/// requiring the decoded bytes to be UTF-8.
pub fn base64_decode(buffer: &str) -> (r: Result<String, DecodeError>)
    ensures
        match (r, decode_outcome(buffer@)) {
            (Ok(s), Ok(t)) => s@ == t,
            (Err(DecodeError::Base64DecodeError(..)), Err(DecodeError::Base64DecodeError(..))) =>
                true,
            (Err(DecodeError::FromUtf8Error(..)), Err(DecodeError::FromUtf8Error(..))) => true,
            _ => false,
        },
{
    let padded = add_base64_padding(buffer);
    match b64_decode_raw(padded.as_str()) {
        Option::None => Err(DecodeError::Base64DecodeError(())),
        Option::Some(bytes) => match utf8_to_string(bytes) {
            Option::Some(s) => Ok(s),
            Option::None => Err(DecodeError::FromUtf8Error(())),
        },
    }
}

/// Encodes the buffer's UTF-8 bytes as base64 with the standard alphabet
/// and padding.
pub fn base64_encode(buffer: &str) -> (r: String)
    ensures
        r@ == b64_encode_of(encode_utf8(buffer@)),
{
    b64_encode_raw(buffer)
}

} // verus!

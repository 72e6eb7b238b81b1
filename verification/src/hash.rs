//! Hashing the working buffer: a SHA-256 digest rendered as lowercase hex.
//! The digest itself comes from the sha2 crate; the hex rendering is the
//! crate's own, verified against its spec.

use vstd::prelude::*;
use vstd::utf8::encode_utf8;
use crate::text::chars_to_string;
use crate::unicode::hexdig;
use sha2::Digest;

verus! {

/// What the SHA-256 function yields on these bytes: a 32-byte digest.
pub uninterp spec fn sha256_of(bytes: Seq<u8>) -> Seq<u8>;

/// Relies on sha2's `Sha256` (`new`, `update`, `finalize`): a pure 32-byte
/// digest of the input bytes.
#[verifier::external_body]
fn sha256_raw(s: &str) -> (r: Vec<u8>)
    ensures
        r@ == sha256_of(encode_utf8(s@)),
        r@.len() == 32,
{
    let mut hasher = sha2::Sha256::new();
    hasher.update(s.as_bytes());
    hasher.finalize().to_vec()
}

/// One byte as two lowercase hex digits, high nibble first.
pub open spec fn byte_hex(b: u8) -> Seq<char> {
    seq![hexdig(b as int / 16), hexdig(b as int % 16)]
}

/// A byte sequence as lowercase hex, two digits per byte.
pub open spec fn hex_of_bytes(bytes: Seq<u8>) -> Seq<char>
    decreases bytes.len(),
{
    if bytes.len() == 0 {
        Seq::empty()
    } else {
        byte_hex(bytes[0]) + hex_of_bytes(bytes.skip(1))
    }
}

pub proof fn lemma_hex_of_bytes_len(bytes: Seq<u8>)
    ensures
        hex_of_bytes(bytes).len() == 2 * bytes.len(),
    decreases bytes.len(),
{
    if bytes.len() > 0 {
        lemma_hex_of_bytes_len(bytes.skip(1));
    }
}

fn bytes_to_hex(v: &Vec<u8>) -> (r: Vec<char>)
    ensures
        r@ == hex_of_bytes(v@),
{
    let n = v.len();
    let mut out: Vec<char> = Vec::new();
    proof {
        assert(v@.skip(0) =~= v@);
        assert(out@ + hex_of_bytes(v@) =~= hex_of_bytes(v@));
    }
    let mut i: usize = 0;
    while i < n
        invariant
            0 <= i <= n,
            n == v@.len(),
            hex_of_bytes(v@) == out@ + hex_of_bytes(v@.skip(i as int)),
        decreases n - i,
    {
        let ghost out0 = out@;
        let ghost suf = v@.skip(i as int);
        proof {
            assert(suf[0] == v@[i as int]);
            assert(suf.skip(1) =~= v@.skip(i + 1));
        }
        let b = v[i];
        out.push(crate::unicode::hex_digit_char((b / 16) as u32));
        out.push(crate::unicode::hex_digit_char((b % 16) as u32));
        i = i + 1;
        proof {
            assert(out@ =~= out0 + byte_hex(b));
            assert(hex_of_bytes(suf) == byte_hex(b) + hex_of_bytes(v@.skip(i as int)));
            assert(out0 + (byte_hex(b) + hex_of_bytes(v@.skip(i as int))) =~= (out0 + byte_hex(b))
                + hex_of_bytes(v@.skip(i as int)));
        }
    }
    proof {
        assert(v@.skip(n as int) =~= Seq::<u8>::empty());
        assert(out@ + hex_of_bytes(v@.skip(n as int)) =~= out@);
    }
    out
}

/// The SHA-256 digest of the buffer's UTF-8 bytes as 64 lowercase hex
/// digits.
pub fn sha256_hex(buffer: &str) -> (r: String)
    ensures
        r@ == hex_of_bytes(sha256_of(encode_utf8(buffer@))),
        r@.len() == 64,
{
    let digest = sha256_raw(buffer);
    let hex = bytes_to_hex(&digest);
    proof {
        lemma_hex_of_bytes_len(digest@);
    }
    chars_to_string(&hex)
}

} // verus!

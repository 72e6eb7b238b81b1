//! Unicode escaping: decoding `\uXXXX` escape sequences (plus the common
//! backslash escapes) into characters, and encoding non-ASCII or control
//! characters back into escape sequences.

use vstd::prelude::*;
use vstd::utf8::is_scalar;
use crate::text::{chars_to_string, str_to_chars};

verus! {

broadcast use vstd::utf8::char_u32_cast;

/// Why a buffer failed to unescape: a malformed `\u` sequence (carrying the
/// offending text) or a code point that is no Unicode scalar value.
#[derive(Debug)]
pub enum UnicodeEscapeError {
    InvalidEscapeSequence(String),
    InvalidCodePoint,
}

impl UnicodeEscapeError {
    pub fn message(&self) -> (r: String)
        ensures
            match self {
                UnicodeEscapeError::InvalidEscapeSequence(seq) => r@ == (
                "invalid unicode escape sequence: "@ + seq@),
                UnicodeEscapeError::InvalidCodePoint => r@ == "invalid unicode code point"@,
            },
    {
        match self {
            UnicodeEscapeError::InvalidEscapeSequence(seq) => {
                let r = String::from_str("invalid unicode escape sequence: ").concat(seq.as_str());
                r
            },
            UnicodeEscapeError::InvalidCodePoint => String::from_str("invalid unicode code point"),
        }
    }
}

/// The ghost counterpart of `UnicodeEscapeError`, with the message as a
/// character sequence.
pub enum UeErr {
    InvalidEscape(Seq<char>),
    InvalidCodePoint,
}

pub open spec fn is_hex_digit_char(c: char) -> bool {
    ||| ('0' as u32) <= (c as u32) <= ('9' as u32)
    ||| ('a' as u32) <= (c as u32) <= ('f' as u32)
    ||| ('A' as u32) <= (c as u32) <= ('F' as u32)
}

pub open spec fn hex_val(c: char) -> int {
    if ('0' as u32) <= (c as u32) <= ('9' as u32) {
        (c as u32) - ('0' as u32)
    } else if ('a' as u32) <= (c as u32) <= ('f' as u32) {
        (c as u32) - ('a' as u32) + 10
    } else {
        (c as u32) - ('A' as u32) + 10
    }
}

/// The numeric value of four hex digits, most significant first.
pub open spec fn hex4_val(a: char, b: char, c: char, d: char) -> int {
    hex_val(a) * 4096 + hex_val(b) * 256 + hex_val(c) * 16 + hex_val(d)
}

fn hex_digit_value(c: char) -> (r: Option<u32>)
    ensures
        (r is Some) == is_hex_digit_char(c),
        r matches Some(v) ==> v == hex_val(c) && v < 16,
{
    let u = c as u32;
    if 48 <= u && u <= 57 {
        Some(u - 48)
    } else if 97 <= u && u <= 102 {
        Some(u - 87)
    } else if 65 <= u && u <= 70 {
        Some(u - 55)
    } else {
        None
    }
}

/// A decode result extended on the left with already-decoded output.
pub open spec fn appended(prefix: Seq<char>, r: Result<Seq<char>, UeErr>) -> Result<
    Seq<char>,
    UeErr,
> {
    match r {
        Ok(t) => Ok(prefix + t),
        Err(e) => Err(e),
    }
}

/// What unescaping yields on `s`: `\uXXXX` becomes the character with code
/// point XXXX, `\n` `\r` `\t` `\\` become their control characters, any
/// other escaped character is kept verbatim with its backslash, and a lone
/// trailing backslash is kept. A `\u` with fewer than four following
/// characters or with non-hex digits is an error carrying the offending
/// text; a surrogate code point is an error of its own.
pub open spec fn ue_decode(s: Seq<char>) -> Result<Seq<char>, UeErr>
    decreases s.len(),
{
    if s.len() == 0 {
        Ok(Seq::empty())
    } else if s[0] != '\\' {
        appended(seq![s[0]], ue_decode(s.skip(1)))
    } else if s.len() == 1 {
        Ok(seq!['\\'])
    } else if s[1] == 'u' {
        if s.len() < 6 {
            Err(UeErr::InvalidEscape(seq!['\\', 'u'] + s.skip(2)))
        } else if !(is_hex_digit_char(s[2]) && is_hex_digit_char(s[3]) && is_hex_digit_char(s[4])
            && is_hex_digit_char(s[5])) {
            Err(UeErr::InvalidEscape(seq!['\\', 'u'] + s.subrange(2, 6)))
        } else {
            let cp = hex4_val(s[2], s[3], s[4], s[5]) as u32;
            if is_scalar(cp) {
                appended(seq![cp as char], ue_decode(s.skip(6)))
            } else {
                Err(UeErr::InvalidCodePoint)
            }
        }
    } else if s[1] == 'n' {
        appended(seq!['\n'], ue_decode(s.skip(2)))
    } else if s[1] == 'r' {
        appended(seq!['\r'], ue_decode(s.skip(2)))
    } else if s[1] == 't' {
        appended(seq!['\t'], ue_decode(s.skip(2)))
    } else if s[1] == '\\' {
        appended(seq!['\\'], ue_decode(s.skip(2)))
    } else {
        appended(seq!['\\', s[1]], ue_decode(s.skip(2)))
    }
}

/// Relies on `char::from_u32`: `Some` exactly on Unicode scalar values,
/// yielding the character with that code point.
#[verifier::external_body]
fn char_from_u32(v: u32) -> (r: Option<char>)
    ensures
        (r is Some) == is_scalar(v),
        r matches Some(c) ==> c as u32 == v,
{
    char::from_u32(v)
}

/// Decodes `\uXXXX` (and `\n` `\r` `\t` `\\`) escape sequences in the
/// buffer into the characters they denote.
#[verifier::rlimit(100)]
pub fn unicode_escape_decode(buffer: &str) -> (r: Result<String, UnicodeEscapeError>)
    ensures
        match (r, ue_decode(buffer@)) {
            (Ok(out), Ok(t)) => out@ == t,
            (
                Err(UnicodeEscapeError::InvalidEscapeSequence(m)),
                Err(UeErr::InvalidEscape(t)),
            ) => m@ == t,
            (Err(UnicodeEscapeError::InvalidCodePoint), Err(UeErr::InvalidCodePoint)) => true,
            _ => false,
        },
{
    let s = str_to_chars(buffer);
    let n = s.len();
    let mut out: Vec<char> = Vec::new();
    let mut i: usize = 0;
    proof {
        assert(s@.skip(0) =~= s@);
        if ue_decode(s@) is Ok {
            assert(out@ + ue_decode(s@)->Ok_0 =~= ue_decode(s@)->Ok_0);
        }
    }
    while i < n
        invariant
            0 <= i <= n,
            n == s@.len(),
            s@ == buffer@,
            ue_decode(buffer@) == appended(out@, ue_decode(s@.skip(i as int))),
        decreases n - i,
    {
        let ghost suf = s@.skip(i as int);
        let ghost out0 = out@;
        proof {
            assert(suf.len() == n - i);
            assert(suf[0] == s@[i as int]);
        }
        let c = s[i];
        if c != '\\' {
            out.push(c);
            i = i + 1;
            proof {
                assert(suf.skip(1) =~= s@.skip(i as int));
                lemma_appended_assoc(out0, seq![c], ue_decode(s@.skip(i as int)));
                assert(out0 + seq![c] =~= out@);
            }
        } else if i + 1 == n {
            out.push('\\');
            i = i + 1;
            proof {
                assert(suf.len() == 1);
                assert(ue_decode(suf) == Ok::<Seq<char>, UeErr>(seq!['\\']));
                assert(out0 + seq!['\\'] =~= out@);
                assert(s@.skip(i as int) =~= Seq::<char>::empty());
                assert(out@ + Seq::<char>::empty() =~= out@);
            }
        } else {
            proof {
                assert(suf[1] == s@[i + 1]);
            }
            let e = s[i + 1];
            if e == 'u' {
                if n - (i + 2) < 4 {
                    let mut msg: Vec<char> = Vec::new();
                    msg.push('\\');
                    msg.push('u');
                    let mut j: usize = i + 2;
                    while j < n
                        invariant
                            i + 2 <= j <= n,
                            n == s@.len(),
                            msg@ == seq!['\\', 'u'] + s@.subrange(i + 2, j as int),
                        decreases n - j,
                    {
                        msg.push(s[j]);
                        j = j + 1;
                        proof {
                            assert(msg@ =~= seq!['\\', 'u'] + s@.subrange(i + 2, j as int));
                        }
                    }
                    proof {
                        assert(s@.subrange(i + 2, n as int) =~= suf.skip(2));
                        assert(ue_decode(suf) == Err::<Seq<char>, UeErr>(
                            UeErr::InvalidEscape(seq!['\\', 'u'] + suf.skip(2)),
                        ));
                        assert(msg@ =~= seq!['\\', 'u'] + suf.skip(2));
                    }
                    return Err(
                        UnicodeEscapeError::InvalidEscapeSequence(chars_to_string(&msg)),
                    );
                }
                proof {
                    assert(suf.len() >= 6);
                    assert(suf[2] == s@[i + 2]);
                    assert(suf[3] == s@[i + 3]);
                    assert(suf[4] == s@[i + 4]);
                    assert(suf[5] == s@[i + 5]);
                }
                let d0 = hex_digit_value(s[i + 2]);
                let d1 = hex_digit_value(s[i + 3]);
                let d2 = hex_digit_value(s[i + 4]);
                let d3 = hex_digit_value(s[i + 5]);
                match (d0, d1, d2, d3) {
                    (Some(v0), Some(v1), Some(v2), Some(v3)) => {
                        let cp: u32 = v0 * 4096 + v1 * 256 + v2 * 16 + v3;
                        proof {
                            assert(cp == hex4_val(suf[2], suf[3], suf[4], suf[5]) as u32);
                        }
                        match char_from_u32(cp) {
                            Some(ch) => {
                                out.push(ch);
                                i = i + 6;
                                proof {
                                    assert(suf.skip(6) =~= s@.skip(i as int));
                                    assert(is_scalar(cp));
                                    vstd::utf8::char_u32_cast(ch, cp);
                                    assert((cp as char) == ch);
                                    assert(seq![cp as char] =~= seq![ch]);
                                    assert(ue_decode(suf) == appended(
                                        seq![ch],
                                        ue_decode(s@.skip(i as int)),
                                    ));
                                    lemma_appended_assoc(
                                        out0,
                                        seq![ch],
                                        ue_decode(s@.skip(i as int)),
                                    );
                                    assert(out0 + seq![ch] =~= out@);
                                }
                            },
                            None => {
                                proof {
                                    assert(ue_decode(suf) == Err::<Seq<char>, UeErr>(
                                        UeErr::InvalidCodePoint,
                                    ));
                                }
                                return Err(UnicodeEscapeError::InvalidCodePoint);
                            },
                        }
                    },
                    _ => {
                        let mut msg: Vec<char> = Vec::new();
                        msg.push('\\');
                        msg.push('u');
                        msg.push(s[i + 2]);
                        msg.push(s[i + 3]);
                        msg.push(s[i + 4]);
                        msg.push(s[i + 5]);
                        proof {
                            assert(msg@ =~= seq!['\\', 'u'] + suf.subrange(2, 6));
                            assert(ue_decode(suf) == Err::<Seq<char>, UeErr>(
                                UeErr::InvalidEscape(seq!['\\', 'u'] + suf.subrange(2, 6)),
                            ));
                        }
                        return Err(
                            UnicodeEscapeError::InvalidEscapeSequence(chars_to_string(&msg)),
                        );
                    },
                }
            } else {
                if e == 'n' {
                    out.push('\n');
                    proof {
                        assert(out0 + seq!['\n'] =~= out@);
                    }
                } else if e == 'r' {
                    out.push('\r');
                    proof {
                        assert(out0 + seq!['\r'] =~= out@);
                    }
                } else if e == 't' {
                    out.push('\t');
                    proof {
                        assert(out0 + seq!['\t'] =~= out@);
                    }
                } else if e == '\\' {
                    out.push('\\');
                    proof {
                        assert(out0 + seq!['\\'] =~= out@);
                    }
                } else {
                    out.push('\\');
                    out.push(e);
                    proof {
                        assert(out0 + seq!['\\', e] =~= out@);
                    }
                }
                i = i + 2;
                proof {
                    assert(suf.skip(2) =~= s@.skip(i as int));
                    if e == 'n' {
                        lemma_appended_assoc(out0, seq!['\n'], ue_decode(s@.skip(i as int)));
                    } else if e == 'r' {
                        lemma_appended_assoc(out0, seq!['\r'], ue_decode(s@.skip(i as int)));
                    } else if e == 't' {
                        lemma_appended_assoc(out0, seq!['\t'], ue_decode(s@.skip(i as int)));
                    } else if e == '\\' {
                        lemma_appended_assoc(out0, seq!['\\'], ue_decode(s@.skip(i as int)));
                    } else {
                        lemma_appended_assoc(out0, seq!['\\', e], ue_decode(s@.skip(i as int)));
                    }
                }
            }
        }
    }
    proof {
        assert(s@.skip(n as int) =~= Seq::<char>::empty());
        assert(ue_decode(s@.skip(n as int)) == Ok::<Seq<char>, UeErr>(Seq::empty()));
        assert(out@ + Seq::<char>::empty() =~= out@);
    }
    Ok(chars_to_string(&out))
}

proof fn lemma_appended_assoc(prefix: Seq<char>, mid: Seq<char>, r: Result<Seq<char>, UeErr>)
    ensures
        appended(prefix, appended(mid, r)) == appended(prefix + mid, r),
{
    if r is Ok {
        assert(prefix + (mid + r->Ok_0) =~= (prefix + mid) + r->Ok_0);
    }
}

/// True of the characters that escaping passes through unchanged: printable
/// ASCII (not an ASCII control character).
pub open spec fn plain_ascii(c: char) -> bool {
    (c as u32) < 128 && !((c as u32) < 32 || (c as u32) == 127)
}

pub open spec fn hexdig(d: int) -> char {
    if d == 0 {
        '0'
    } else if d == 1 {
        '1'
    } else if d == 2 {
        '2'
    } else if d == 3 {
        '3'
    } else if d == 4 {
        '4'
    } else if d == 5 {
        '5'
    } else if d == 6 {
        '6'
    } else if d == 7 {
        '7'
    } else if d == 8 {
        '8'
    } else if d == 9 {
        '9'
    } else if d == 10 {
        'a'
    } else if d == 11 {
        'b'
    } else if d == 12 {
        'c'
    } else if d == 13 {
        'd'
    } else if d == 14 {
        'e'
    } else {
        'f'
    }
}

pub(crate) fn hex_digit_char(d: u32) -> (r: char)
    requires
        d < 16,
    ensures
        r == hexdig(d as int),
{
    if d == 0 {
        '0'
    } else if d == 1 {
        '1'
    } else if d == 2 {
        '2'
    } else if d == 3 {
        '3'
    } else if d == 4 {
        '4'
    } else if d == 5 {
        '5'
    } else if d == 6 {
        '6'
    } else if d == 7 {
        '7'
    } else if d == 8 {
        '8'
    } else if d == 9 {
        '9'
    } else if d == 10 {
        'a'
    } else if d == 11 {
        'b'
    } else if d == 12 {
        'c'
    } else if d == 13 {
        'd'
    } else if d == 14 {
        'e'
    } else {
        'f'
    }
}

/// The code point as exactly four lowercase hex digits, zero-padded.
pub open spec fn hex4_digits(v: int) -> Seq<char> {
    seq![
        hexdig(v / 4096 % 16),
        hexdig(v / 256 % 16),
        hexdig(v / 16 % 16),
        hexdig(v % 16),
    ]
}

/// The code point as lowercase hex digits without leading zeros (at least
/// one digit), as `char::escape_unicode` writes between its braces.
pub open spec fn hex_digits(v: int) -> Seq<char>
    decreases v,
{
    if v < 16 {
        seq![hexdig(v)]
    } else {
        hex_digits(v / 16).push(hexdig(v % 16))
    }
}

/// The escaped form of one character: printable ASCII stays itself, a code
/// point up to 0xFFFF becomes `\uXXXX`, and anything beyond becomes
/// `\u{...}` as `char::escape_unicode` writes it.
pub open spec fn ue_encode_char(c: char) -> Seq<char> {
    if plain_ascii(c) {
        seq![c]
    } else if (c as u32) <= 0xFFFF {
        seq!['\\', 'u'] + hex4_digits((c as u32) as int)
    } else {
        seq!['\\', 'u', '{'] + hex_digits((c as u32) as int) + seq!['}']
    }
}

/// The escaped form of a whole text: each character escaped in order.
pub open spec fn ue_encode(s: Seq<char>) -> Seq<char>
    decreases s.len(),
{
    if s.len() == 0 {
        Seq::empty()
    } else {
        ue_encode_char(s[0]) + ue_encode(s.skip(1))
    }
}

fn push_hex_digits(out: &mut Vec<char>, v: u32)
    ensures
        final(out)@ == old(out)@ + hex_digits(v as int),
    decreases v,
{
    if v < 16 {
        out.push(hex_digit_char(v));
        proof {
            assert(final(out)@ =~= old(out)@ + hex_digits(v as int));
        }
    } else {
        let ghost mid = old(out)@ + hex_digits((v / 16) as int);
        push_hex_digits(out, v / 16);
        out.push(hex_digit_char(v % 16));
        proof {
            assert(final(out)@ =~= old(out)@ + hex_digits(v as int));
        }
    }
}

/// Escapes every non-printable-ASCII character of the buffer as a `\uXXXX`
/// or `\u{...}` sequence.
pub fn unicode_escape_encode(buffer: &str) -> (r: String)
    ensures
        r@ == ue_encode(buffer@),
{
    let s = str_to_chars(buffer);
    let n = s.len();
    let mut out: Vec<char> = Vec::new();
    proof {
        assert(s@.skip(0) =~= s@);
        assert(out@ + ue_encode(s@) =~= ue_encode(s@));
    }
    let mut i: usize = 0;
    while i < n
        invariant
            0 <= i <= n,
            n == s@.len(),
            s@ == buffer@,
            ue_encode(buffer@) == out@ + ue_encode(s@.skip(i as int)),
        decreases n - i,
    {
        let ghost suf = s@.skip(i as int);
        let ghost out0 = out@;
        proof {
            assert(suf[0] == s@[i as int]);
            assert(suf.skip(1) =~= s@.skip(i + 1));
        }
        let c = s[i];
        let u = c as u32;
        if u < 128 && !(u < 32 || u == 127) {
            out.push(c);
            proof {
                assert(out@ =~= out0 + ue_encode_char(c));
            }
        } else if u <= 0xFFFF {
            out.push('\\');
            out.push('u');
            out.push(hex_digit_char((u / 4096) % 16));
            out.push(hex_digit_char((u / 256) % 16));
            out.push(hex_digit_char((u / 16) % 16));
            out.push(hex_digit_char(u % 16));
            proof {
                assert(out@ =~= out0 + ue_encode_char(c));
            }
        } else {
            out.push('\\');
            out.push('u');
            out.push('{');
            push_hex_digits(&mut out, u);
            out.push('}');
            proof {
                assert(out@ =~= out0 + ue_encode_char(c));
            }
        }
        i = i + 1;
        proof {
            assert(ue_encode(suf) == ue_encode_char(c) + ue_encode(s@.skip(i as int)));
            assert(out0 + (ue_encode_char(c) + ue_encode(s@.skip(i as int))) =~= (out0
                + ue_encode_char(c)) + ue_encode(s@.skip(i as int)));
        }
    }
    proof {
        assert(s@.skip(n as int) =~= Seq::<char>::empty());
        assert(out@ + ue_encode(s@.skip(n as int)) =~= out@);
    }
    chars_to_string(&out)
}

} // verus!

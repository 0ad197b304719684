//! The text codec: URL-safe Base64 without padding or line breaks.
//!
//! Encoding and decoding are done by the `base64` crate's
//! `URL_SAFE_NO_PAD` engine. This module states what that engine computes,
//! as spec functions over bytes and characters, and proves that the mapping
//! is a bijection between byte strings and the texts it produces.
use base64::Engine;
use vstd::prelude::*;

verus! {

/// The character that stands for the six-bit value `d` (`0 <= d < 64`).
pub open spec fn b64_char(d: int) -> char {
    if d < 26 {
        (65 + d) as u8 as char
    } else if d < 52 {
        (97 + (d - 26)) as u8 as char
    } else if d < 62 {
        (48 + (d - 52)) as u8 as char
    } else if d == 62 {
        '-'
    } else {
        '_'
    }
}

/// Whether `c` belongs to the URL-safe alphabet `A-Z a-z 0-9 - _`.
pub open spec fn is_b64_char(c: char) -> bool {
    ('A' <= c && c <= 'Z') || ('a' <= c && c <= 'z') || ('0' <= c && c <= '9') || c == '-' || c
        == '_'
}

/// The six-bit value of an alphabet character.
pub open spec fn b64_value(c: char) -> int {
    let n = c as u32 as int;
    if 65 <= n && n <= 90 {
        n - 65
    } else if 97 <= n && n <= 122 {
        n - 97 + 26
    } else if 48 <= n && n <= 57 {
        n - 48 + 52
    } else if c == '-' {
        62
    } else {
        63
    }
}

/// Four characters for three whole bytes.
pub open spec fn encode_triple(b0: int, b1: int, b2: int) -> Seq<char> {
    seq![
        b64_char(b0 / 4),
        b64_char((b0 % 4) * 16 + b1 / 16),
        b64_char((b1 % 16) * 4 + b2 / 64),
        b64_char(b2 % 64),
    ]
}

/// The unpadded URL-safe Base64 text of `b`: each group of three bytes
/// becomes four characters, a last single byte two, a last pair three.
pub open spec fn b64_text(b: Seq<u8>) -> Seq<char>
    decreases b.len(),
{
    if b.len() == 0 {
        seq![]
    } else if b.len() == 1 {
        encode_triple(b[0] as int, 0, 0).subrange(0, 2)
    } else if b.len() == 2 {
        encode_triple(b[0] as int, b[1] as int, 0).subrange(0, 3)
    } else {
        encode_triple(b[0] as int, b[1] as int, b[2] as int) + b64_text(
            b.subrange(3, b.len() as int),
        )
    }
}

/// The bytes that a text of alphabet characters stands for, read back four
/// characters at a time.
pub open spec fn b64_bytes(s: Seq<char>) -> Seq<u8>
    decreases s.len(),
{
    if s.len() < 2 {
        seq![]
    } else if s.len() == 2 {
        seq![(b64_value(s[0]) * 4 + b64_value(s[1]) / 16) as u8]
    } else if s.len() == 3 {
        seq![
            (b64_value(s[0]) * 4 + b64_value(s[1]) / 16) as u8,
            ((b64_value(s[1]) % 16) * 16 + b64_value(s[2]) / 4) as u8,
        ]
    } else {
        seq![
            (b64_value(s[0]) * 4 + b64_value(s[1]) / 16) as u8,
            ((b64_value(s[1]) % 16) * 16 + b64_value(s[2]) / 4) as u8,
            ((b64_value(s[2]) % 4) * 64 + b64_value(s[3])) as u8,
        ] + b64_bytes(s.subrange(4, s.len() as int))
    }
}

/// Whether `s` is the Base64 text of some byte string.
pub open spec fn is_b64_text(s: Seq<char>) -> bool {
    exists|b: Seq<u8>| b64_text(b) == s
}

/// Whether `s` is the Base64 text of some 16-byte string.
pub open spec fn is_b64_text16(s: Seq<char>) -> bool {
    exists|b: Seq<u8>| b.len() == 16 && b64_text(b) == s
}

proof fn lemma_char_value(d: int)
    requires
        0 <= d < 64,
    ensures
        b64_value(b64_char(d)) == d,
        is_b64_char(b64_char(d)),
{
}

/// The four characters of a group are alphabet characters whose values
/// give the three bytes back.
proof fn lemma_triple(b0: int, b1: int, b2: int)
    requires
        0 <= b0 < 256,
        0 <= b1 < 256,
        0 <= b2 < 256,
    ensures
        forall|i: int| 0 <= i < 4 ==> is_b64_char(#[trigger] encode_triple(b0, b1, b2)[i]),
        ({
            let t = encode_triple(b0, b1, b2);
            &&& b64_value(t[0]) * 4 + b64_value(t[1]) / 16 == b0
            &&& (b64_value(t[1]) % 16) * 16 + b64_value(t[2]) / 4 == b1
            &&& (b64_value(t[2]) % 4) * 64 + b64_value(t[3]) == b2
        }),
{
    lemma_char_value(b0 / 4);
    lemma_char_value((b0 % 4) * 16 + b1 / 16);
    lemma_char_value((b1 % 16) * 4 + b2 / 64);
    lemma_char_value(b2 % 64);
}

/// Reading the text of `b` back gives `b`.
pub proof fn lemma_b64_inverse(b: Seq<u8>)
    ensures
        b64_bytes(b64_text(b)) == b,
    decreases b.len(),
{
    if b.len() == 0 {
        assert(b64_bytes(b64_text(b)) =~= b);
    } else if b.len() == 1 {
        lemma_triple(b[0] as int, 0, 0);
        assert(b64_bytes(b64_text(b)) =~= b);
    } else if b.len() == 2 {
        lemma_triple(b[0] as int, b[1] as int, 0);
        assert(b64_bytes(b64_text(b)) =~= b);
    } else {
        let rest = b.subrange(3, b.len() as int);
        let t = b64_text(b);
        lemma_triple(b[0] as int, b[1] as int, b[2] as int);
        lemma_b64_inverse(rest);
        lemma_b64_len(rest);
        assert(t.subrange(4, t.len() as int) =~= b64_text(rest));
        assert(b64_bytes(t) =~= b);
    }
}

/// The text of `n` bytes has `ceil(4n/3)` characters, all of the alphabet.
pub proof fn lemma_b64_len(b: Seq<u8>)
    ensures
        b64_text(b).len() == (4 * b.len() + 2) / 3,
        forall|i: int| 0 <= i < b64_text(b).len() ==> is_b64_char(#[trigger] b64_text(b)[i]),
    decreases b.len(),
{
    let t = b64_text(b);
    if b.len() == 0 {
    } else if b.len() == 1 {
        lemma_triple(b[0] as int, 0, 0);
        assert forall|i: int| 0 <= i < t.len() implies is_b64_char(#[trigger] t[i]) by {
            assert(t[i] == encode_triple(b[0] as int, 0, 0)[i]);
        }
    } else if b.len() == 2 {
        lemma_triple(b[0] as int, b[1] as int, 0);
        assert forall|i: int| 0 <= i < t.len() implies is_b64_char(#[trigger] t[i]) by {
            assert(t[i] == encode_triple(b[0] as int, b[1] as int, 0)[i]);
        }
    } else {
        let rest = b.subrange(3, b.len() as int);
        let h = encode_triple(b[0] as int, b[1] as int, b[2] as int);
        lemma_triple(b[0] as int, b[1] as int, b[2] as int);
        lemma_b64_len(rest);
        assert forall|i: int| 0 <= i < t.len() implies is_b64_char(#[trigger] t[i]) by {
            if i >= 4 {
                assert(t[i] == b64_text(rest)[i - 4]);
            } else {
                assert(t[i] == h[i]);
            }
        }
    }
}

/// Two byte strings with the same text are equal.
pub proof fn lemma_b64_injective(a: Seq<u8>, b: Seq<u8>)
    requires
        b64_text(a) == b64_text(b),
    ensures
        a == b,
{
    lemma_b64_inverse(a);
    lemma_b64_inverse(b);
}

/// Why a text is not the text form of 16 bytes.
#[derive(Clone, Copy, Debug, PartialEq, Eq, Structural)]
pub enum CodecError {
    /// A character outside the alphabet, padding, or a shape that no byte
    /// string encodes to.
    InvalidText,
    /// A well-formed text whose bytes are not 16 in number.
    WrongLength,
}

#[verifier::external_type_specification]
#[verifier::external_body]
pub struct ExB64DecodeError(base64::DecodeError);

/// Relies on `base64::Engine::encode` of the `URL_SAFE_NO_PAD` engine:
/// RFC 4648 Base64 with the URL-safe alphabet, no padding, no line breaks.
#[verifier::external_body]
fn b64_encode(bytes: &[u8]) -> (r: String)
    ensures
        r@ == b64_text(bytes@),
{
    base64::engine::general_purpose::URL_SAFE_NO_PAD.encode(bytes)
}

/// Relies on `base64::Engine::decode` of the `URL_SAFE_NO_PAD` engine, which
/// refuses padding and non-zero trailing bits: it accepts exactly the texts
/// that its `encode` produces, and returns the bytes they encode.
#[verifier::external_body]
fn b64_decode(text: &str) -> (r: Result<Vec<u8>, base64::DecodeError>)
    ensures
        r is Ok <==> is_b64_text(text@),
        r is Ok ==> b64_text(r->Ok_0@) == text@,
{
    base64::engine::general_purpose::URL_SAFE_NO_PAD.decode(text)
}

/// The text form of 16 bytes.
pub fn encode(bytes: &[u8]) -> (text: String)
    requires
        bytes@.len() == 16,
    ensures
        text@ == b64_text(bytes@),
        text@.len() == 22,
{
    proof {
        lemma_b64_len(bytes@);
    }
    b64_encode(bytes)
}

/// The 16 bytes whose text form is `text`.
pub fn decode(text: &str) -> (r: Result<Vec<u8>, CodecError>)
    ensures
        r is Ok <==> is_b64_text16(text@),
        r matches Ok(b) ==> b@.len() == 16 && b64_text(b@) == text@,
        r == Err::<Vec<u8>, CodecError>(CodecError::InvalidText) <==> !is_b64_text(text@),
        r == Err::<Vec<u8>, CodecError>(CodecError::WrongLength) <==> is_b64_text(text@)
            && !is_b64_text16(text@),
{
    match b64_decode(text) {
        Ok(bytes) => {
            if bytes.len() == 16 {
                Ok(bytes)
            } else {
                proof {
                    assert forall|b: Seq<u8>| b.len() == 16 implies b64_text(b) != text@ by {
                        if b64_text(b) == text@ {
                            lemma_b64_injective(b, bytes@);
                        }
                    }
                }
                Err(CodecError::WrongLength)
            }
        },
        Err(_) => Err(CodecError::InvalidText),
    }
}

} // verus!

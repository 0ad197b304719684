//! The identifier value: a raw 128-bit identifier shown as Base64 text.
use crate::codec::{b64_text, decode, encode, is_b64_char, is_b64_text, CodecError};
use crate::codec::{lemma_b64_injective, lemma_b64_len};
use crate::raw::{be_bytes, is_v4, lemma_be_bytes_injective, random_v4, uuid_bytes, uuid_from_slice};
use vstd::prelude::*;

verus! {

/// It's a raw 128-bit identifier that displays as Base64.
#[derive(Clone, Copy, PartialEq, Eq, Hash, Debug, Structural)]
pub struct UuidB64 {
    pub id: u128,
}

impl View for UuidB64 {
    type V = u128;

    open spec fn view(&self) -> u128 {
        self.id
    }
}

/// The text form of the raw identifier `v`: the Base64 text of its
/// big-endian bytes.
pub open spec fn text_of(v: u128) -> Seq<char> {
    b64_text(be_bytes(v))
}

/// The raw identifier whose text form is `s`, if there is one.
pub open spec fn id_of_text(s: Seq<char>) -> Option<u128> {
    if exists|v: u128| text_of(v) == s {
        Some(choose|v: u128| text_of(v) == s)
    } else {
        None
    }
}

/// A text that is not the text form of any identifier.
#[derive(Debug)]
pub struct ParseError {
    /// The text that was given.
    pub text: String,
    /// What the codec found wrong with it.
    pub cause: CodecError,
}

/// Two raw identifiers with the same text form are equal.
pub proof fn lemma_text_of_injective(x: u128, y: u128)
    requires
        text_of(x) == text_of(y),
    ensures
        x == y,
{
    lemma_b64_injective(be_bytes(x), be_bytes(y));
    lemma_be_bytes_injective(x, y);
}

/// Round trip: the text form of any raw identifier `v` parses back to `v`.
pub proof fn lemma_round_trip(v: u128)
    ensures
        id_of_text(text_of(v)) == Some(v),
{
    let s = text_of(v);
    assert(exists|w: u128| text_of(w) == s);
    let w = choose|w: u128| text_of(w) == s;
    lemma_text_of_injective(w, v);
}

/// Fixed length: every text form has 22 characters, all of `A-Z a-z 0-9 - _`,
/// so none is a padding `=`.
pub proof fn lemma_text_shape(x: UuidB64)
    ensures
        text_of(x@).len() == 22,
        forall|i: int| 0 <= i < 22 ==> is_b64_char(#[trigger] text_of(x@)[i]),
        !text_of(x@).contains('='),
{
    lemma_b64_len(be_bytes(x@));
}

/// Injectivity: distinct identifiers have distinct text forms.
pub proof fn lemma_text_injective(x: UuidB64, y: UuidB64)
    requires
        x != y,
    ensures
        text_of(x@) != text_of(y@),
{
    if text_of(x@) == text_of(y@) {
        lemma_text_of_injective(x@, y@);
    }
}

/// Determinism: equal identifiers have the same text form.
pub proof fn lemma_text_deterministic(x: UuidB64, y: UuidB64)
    requires
        x == y,
    ensures
        text_of(x@) == text_of(y@),
{
}

/// Malformed text is refused: a text with a character outside the alphabet
/// (such as `=` or `+`), or of a length other than 22, is the text form of
/// no identifier; one with a character outside the alphabet is not Base64
/// text at all.
pub proof fn lemma_malformed_rejected(s: Seq<char>)
    requires
        (exists|i: int| 0 <= i < s.len() && !is_b64_char(#[trigger] s[i])) || s.len() != 22,
    ensures
        id_of_text(s) is None,
        (exists|i: int| 0 <= i < s.len() && !is_b64_char(#[trigger] s[i])) ==> !is_b64_text(s),
{
    if exists|v: u128| text_of(v) == s {
        let v = choose|v: u128| text_of(v) == s;
        lemma_text_shape(UuidB64 { id: v });
    }
    if is_b64_text(s) {
        let b = choose|b: Seq<u8>| b64_text(b) == s;
        lemma_b64_len(b);
    }
}

/// Equality is over the bytes: two identifiers are equal exactly when their
/// 16 bytes are.
pub proof fn lemma_equal_iff_same_bytes(x: UuidB64, y: UuidB64)
    ensures
        x == y <==> be_bytes(x@) == be_bytes(y@),
{
    if be_bytes(x@) == be_bytes(y@) {
        lemma_be_bytes_injective(x@, y@);
    }
}

impl UuidB64 {
    /// Generate a new random (version 4) identifier.
    pub fn new() -> (r: UuidB64)
        ensures
            is_v4(r@),
    {
        UuidB64 { id: random_v4() }
    }

    /// Get the raw identifier out.
    pub fn uuid(&self) -> (r: u128)
        ensures
            r == self@,
    {
        self.id
    }

    /// The text form: 22 characters of URL-safe Base64.
    pub fn to_string(&self) -> (r: String)
        ensures
            r@ == text_of(self@),
    {
        let bytes = uuid_bytes(self.id);
        encode(bytes.as_slice())
    }

    /// The text form inside a label, as for debugging output.
    pub fn to_debug_string(&self) -> (r: String)
        ensures
            r@ == "UuidB64("@ + text_of(self@) + ")"@,
    {
        let text = self.to_string();
        let mut r = "UuidB64(".to_owned();
        r.append(text.as_str());
        r.append(")");
        r
    }

    /// The identifier whose text form is `s`.
    pub fn parse(s: &str) -> (r: Result<UuidB64, ParseError>)
        ensures
            r is Ok <==> id_of_text(s@) is Some,
            r matches Ok(x) ==> id_of_text(s@) == Some(x@),
            r matches Err(e) ==> e.text@ == s@ && (e.cause == CodecError::InvalidText
                <==> !is_b64_text(s@)),
    {
        match decode(s) {
            Ok(bytes) => {
                match uuid_from_slice(bytes.as_slice()) {
                    Ok(v) => {
                        proof {
                            lemma_round_trip(v);
                        }
                        Ok(UuidB64 { id: v })
                    },
                    // `decode` hands back 16 bytes, which `from_slice` always takes.
                    Err(_) => Err(
                        ParseError { text: s.to_owned(), cause: CodecError::WrongLength },
                    ),
                }
            },
            Err(cause) => {
                proof {
                    if exists|v: u128| text_of(v) == s@ {
                        let v = choose|v: u128| text_of(v) == s@;
                        assert(be_bytes(v).len() == 16);
                    }
                }
                Err(ParseError { text: s.to_owned(), cause })
            },
        }
    }
}

impl From<u128> for UuidB64 {
    fn from(id: u128) -> (r: UuidB64) {
        UuidB64 { id }
    }
}

impl vstd::std_specs::convert::FromSpecImpl<u128> for UuidB64 {
    open spec fn obeys_from_spec() -> bool {
        true
    }

    open spec fn from_spec(id: u128) -> UuidB64 {
        UuidB64 { id }
    }
}

impl std::str::FromStr for UuidB64 {
    type Err = ParseError;

    fn from_str(s: &str) -> (r: Result<UuidB64, ParseError>)
        ensures
            r is Ok <==> id_of_text(s@) is Some,
            r matches Ok(x) ==> id_of_text(s@) == Some(x@),
            r matches Err(e) ==> e.text@ == s@ && (e.cause == CodecError::InvalidText
                <==> !is_b64_text(s@)),
    {
        UuidB64::parse(s)
    }
}

} // verus!

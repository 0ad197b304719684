//! Raw 128-bit identifiers and their big-endian bytes.
//!
//! Conversions between a raw identifier and its bytes, and the generation
//! of random identifiers, are done by the `uuid` crate.
use vstd::prelude::*;

verus! {

/// The byte of `v` found `k` bits up from the least significant end.
pub open spec fn byte_at(v: u128, k: u128) -> u8 {
    ((v >> k) & 0xff) as u8
}

/// The 16 bytes of `v`, most significant first.
pub open spec fn be_bytes(v: u128) -> Seq<u8> {
    Seq::new(16, |i: int| byte_at(v, (120 - 8 * i) as u128))
}

/// Whether `v` has the layout of a random (version 4) identifier: version
/// field 4 and the RFC 4122 variant.
pub open spec fn is_v4(v: u128) -> bool {
    (v >> 76u128) & 0xf == 4 && (v >> 62u128) & 0x3 == 2
}

#[verifier::external_type_specification]
#[verifier::external_body]
pub struct ExUuidError(uuid::Error);

/// Relies on `uuid::Uuid::new_v4`, read out with `Uuid::as_u128`: random
/// bits with the version field set to 4 and the variant to RFC 4122.
#[verifier::external_body]
pub(crate) fn random_v4() -> (r: u128)
    ensures
        is_v4(r),
{
    uuid::Uuid::new_v4().as_u128()
}

/// Relies on `uuid::Uuid::from_u128` and `Uuid::as_bytes`: the bytes of the
/// value in big-endian order.
#[verifier::external_body]
pub(crate) fn uuid_bytes(v: u128) -> (r: Vec<u8>)
    ensures
        r@ == be_bytes(v),
{
    uuid::Uuid::from_u128(v).as_bytes().to_vec()
}

/// Relies on `uuid::Uuid::from_slice`, read out with `Uuid::as_u128`: it
/// fails exactly when the slice does not hold 16 bytes, and otherwise takes
/// them in big-endian order.
#[verifier::external_body]
pub(crate) fn uuid_from_slice(b: &[u8]) -> (r: Result<u128, uuid::Error>)
    ensures
        r is Ok <==> b@.len() == 16,
        r is Ok ==> be_bytes(r->Ok_0) == b@,
{
    match uuid::Uuid::from_slice(b) {
        Ok(u) => Ok(u.as_u128()),
        Err(e) => Err(e),
    }
}

proof fn lemma_bytes_determine(x: u128, y: u128)
    by (bit_vector)
    requires
        byte_at(x, 0) == byte_at(y, 0),
        byte_at(x, 8) == byte_at(y, 8),
        byte_at(x, 16) == byte_at(y, 16),
        byte_at(x, 24) == byte_at(y, 24),
        byte_at(x, 32) == byte_at(y, 32),
        byte_at(x, 40) == byte_at(y, 40),
        byte_at(x, 48) == byte_at(y, 48),
        byte_at(x, 56) == byte_at(y, 56),
        byte_at(x, 64) == byte_at(y, 64),
        byte_at(x, 72) == byte_at(y, 72),
        byte_at(x, 80) == byte_at(y, 80),
        byte_at(x, 88) == byte_at(y, 88),
        byte_at(x, 96) == byte_at(y, 96),
        byte_at(x, 104) == byte_at(y, 104),
        byte_at(x, 112) == byte_at(y, 112),
        byte_at(x, 120) == byte_at(y, 120),
    ensures
        x == y,
{
}

/// Two values with the same bytes are equal.
pub proof fn lemma_be_bytes_injective(x: u128, y: u128)
    requires
        be_bytes(x) == be_bytes(y),
    ensures
        x == y,
{
    let (bx, by) = (be_bytes(x), be_bytes(y));
    assert(bx[0] == by[0] && bx[0] == byte_at(x, 120) && by[0] == byte_at(y, 120));
    assert(bx[1] == by[1] && bx[1] == byte_at(x, 112) && by[1] == byte_at(y, 112));
    assert(bx[2] == by[2] && bx[2] == byte_at(x, 104) && by[2] == byte_at(y, 104));
    assert(bx[3] == by[3] && bx[3] == byte_at(x, 96) && by[3] == byte_at(y, 96));
    assert(bx[4] == by[4] && bx[4] == byte_at(x, 88) && by[4] == byte_at(y, 88));
    assert(bx[5] == by[5] && bx[5] == byte_at(x, 80) && by[5] == byte_at(y, 80));
    assert(bx[6] == by[6] && bx[6] == byte_at(x, 72) && by[6] == byte_at(y, 72));
    assert(bx[7] == by[7] && bx[7] == byte_at(x, 64) && by[7] == byte_at(y, 64));
    assert(bx[8] == by[8] && bx[8] == byte_at(x, 56) && by[8] == byte_at(y, 56));
    assert(bx[9] == by[9] && bx[9] == byte_at(x, 48) && by[9] == byte_at(y, 48));
    assert(bx[10] == by[10] && bx[10] == byte_at(x, 40) && by[10] == byte_at(y, 40));
    assert(bx[11] == by[11] && bx[11] == byte_at(x, 32) && by[11] == byte_at(y, 32));
    assert(bx[12] == by[12] && bx[12] == byte_at(x, 24) && by[12] == byte_at(y, 24));
    assert(bx[13] == by[13] && bx[13] == byte_at(x, 16) && by[13] == byte_at(y, 16));
    assert(bx[14] == by[14] && bx[14] == byte_at(x, 8) && by[14] == byte_at(y, 8));
    assert(bx[15] == by[15] && bx[15] == byte_at(x, 0) && by[15] == byte_at(y, 0));
    lemma_bytes_determine(x, y);
}

} // verus!

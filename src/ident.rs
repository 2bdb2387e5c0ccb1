//! Filesystem identifiers, held as their sixteen bytes.

use vstd::prelude::*;

verus! {

/// The nil identifier: sixteen zero bytes.
pub open spec fn nil_id() -> Seq<u8> {
    Seq::new(16, |i: int| 0u8)
}

/// Relies on `uuid::Uuid::new_v4`: random bytes, with the version nibble of
/// byte 6 set to 4 and the top bits of byte 8 to the RFC 4122 variant.
#[verifier::external_body]
fn new_v4_bytes() -> (r: [u8; 16])
    ensures
        r@[6] & 0xf0 == 0x40,
        r@[8] & 0xc0 == 0x80,
{
    uuid::Uuid::new_v4().into_bytes()
}

/// Relies on `uuid::Uuid::is_nil`: whether all sixteen bytes are zero.
#[verifier::external_body]
fn uuid_is_nil(b: &[u8; 16]) -> (r: bool)
    ensures
        r == (b@ == nil_id()),
{
    uuid::Uuid::from_bytes(*b).is_nil()
}

/// A fresh random identifier of version 4 and the RFC 4122 variant, which is
/// never nil.
pub fn fresh_id() -> (r: [u8; 16])
    ensures
        r@[6] & 0xf0 == 0x40,
        r@[8] & 0xc0 == 0x80,
        r@ != nil_id(),
        r@.len() == 16,
{
    let r = new_v4_bytes();
    assert(r@[6] != 0) by {
        assert(r@[6] & 0xf0 == 0x40);
        assert((0u8 & 0xf0u8) == 0u8) by (bit_vector);
    }
    assert(r@ != nil_id()) by {
        assert(nil_id()[6] == 0);
    }
    r
}

/// Whether `b` is the nil identifier.
pub fn is_nil(b: &[u8; 16]) -> (r: bool)
    ensures
        r == (b@ == nil_id()),
{
    uuid_is_nil(b)
}

} // verus!

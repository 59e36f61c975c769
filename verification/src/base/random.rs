//! Randomness from the operating system. Nothing is claimed of the values drawn.
use vstd::prelude::*;

verus! {

/// `getrandom::fill` on 32 bytes; `None` when the operating system's source fails.
#[verifier::external_body]
pub(crate) fn random_32() -> Option<[u8; 32]> {
    let mut b = [0u8; 32];
    match getrandom::fill(&mut b) {
        Ok(()) => Some(b),
        Err(_) => None,
    }
}

/// `getrandom::u32()`; `None` when the operating system's source fails.
#[verifier::external_body]
pub(crate) fn random_u32() -> Option<u32> {
    match getrandom::u32() {
        Ok(v) => Some(v),
        Err(_) => None,
    }
}

/// A version-4 UUID made of 16 random bytes: the high nibble of byte 6 set to 4 (the
/// version) and the top two bits of byte 8 set to `10` (the RFC 4122 variant).
pub open spec fn uuid_v4_bytes(b: Seq<u8>) -> Seq<u8> {
    b.update(6, (b[6] & 0x0F) | 0x40).update(8, (b[8] & 0x3F) | 0x80)
}

/// The version-4 UUID of 16 random bytes (see `uuid_v4_bytes`).
pub fn uuid_v4_from_bytes(b: [u8; 16]) -> (r: [u8; 16])
    ensures
        r@ == uuid_v4_bytes(b@),
{
    let mut r = b;
    r[6] = (b[6] & 0x0F) | 0x40;
    r[8] = (b[8] & 0x3F) | 0x80;
    assert(r@ =~= uuid_v4_bytes(b@));
    r
}

/// A fresh random version-4 UUID; `None` when the operating system's source fails.
pub fn new_uuid_v4() -> (r: Option<[u8; 16]>)
    ensures
        r matches Some(u) ==> exists|b: Seq<u8>| b.len() == 16 && u@ == uuid_v4_bytes(b),
{
    let bytes = match random_32() {
        Some(b) => b,
        None => {
            return None;
        },
    };
    let b: [u8; 16] = [
        bytes[0],
        bytes[1],
        bytes[2],
        bytes[3],
        bytes[4],
        bytes[5],
        bytes[6],
        bytes[7],
        bytes[8],
        bytes[9],
        bytes[10],
        bytes[11],
        bytes[12],
        bytes[13],
        bytes[14],
        bytes[15],
    ];
    let u = uuid_v4_from_bytes(b);
    assert(b@.len() == 16);
    Some(u)
}

} // verus!

//! Organisation identifiers of extension TLVs.
use vstd::prelude::*;

verus! {

pub const GPTP: [u8; 3] = [0x00, 0x80, 0xC2];

pub const APPLE: [u8; 3] = [0x00, 0x0D, 0x93];

} // verus!

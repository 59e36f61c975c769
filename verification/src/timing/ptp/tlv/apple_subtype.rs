//! Subtypes of Apple's organisation extension TLVs.
use vstd::prelude::*;

verus! {

pub const TYPE_01: [u8; 3] = [0x00, 0x00, 0x01];

pub const TYPE_05: [u8; 3] = [0x00, 0x00, 0x05];

} // verus!

//! Subtypes of the gPTP organisation extension TLVs.
use vstd::prelude::*;

verus! {

pub const FOLLOW_UP_INFO: [u8; 3] = [0x00, 0x00, 0x01];

pub const MESSAGE_INTERVAL_REQUEST: [u8; 3] = [0x00, 0x00, 0x02];

} // verus!

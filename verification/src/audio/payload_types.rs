//! RTP payload types of the retransmission exchange.
use vstd::prelude::*;

verus! {

pub const RETRANSMIT_REQUEST: u8 = 85;

pub const RETRANSMIT_RESPONSE: u8 = 86;

} // verus!

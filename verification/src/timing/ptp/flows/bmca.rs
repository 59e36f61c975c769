//! The decisions of the master negotiation (BMCA) with an AirPlay receiver.
use crate::timing::ptp::types::{ptp_type_of_byte, PtpHeader, PtpMessageType};
use vstd::prelude::*;

verus! {

/// We stay master only with a strictly better (lower) priority 1 than the peer's.
pub fn we_are_master(our_priority1: u8, remote_priority1: u8) -> (r: bool)
    ensures
        r == (our_priority1 < remote_priority1),
{
    our_priority1 < remote_priority1
}

/// The negotiation's outcome: we stay master only with a strictly better priority 1 than
/// the peer's Announce gave, a peer that sent none counting as the worst, 255.
pub fn bmca_decision(our_priority1: u8, remote_priority1: Option<u8>) -> (r: bool)
    ensures
        r == match remote_priority1 {
            Some(p) => our_priority1 < p,
            None => our_priority1 < 255,
        },
{
    match remote_priority1 {
        Some(p) => we_are_master(our_priority1, p),
        None => we_are_master(our_priority1, 255),
    }
}

/// The priority 1 and clock identity of a peer's Announce: a packet of 61 bytes or more
/// whose header parses as an Announce gives byte 47 and bytes 53-60.
pub fn parse_announce(data: &[u8]) -> (r: Option<(u8, [u8; 8])>)
    ensures
        (data@.len() >= 61 && ptp_type_of_byte(data@[0]) == Some(PtpMessageType::Announce)) ==> (r matches Some(
            (p1, id),
        ) && p1 == data@[47] && id@ == data@.subrange(53, 61)),
        !(data@.len() >= 61 && ptp_type_of_byte(data@[0]) == Some(PtpMessageType::Announce)) ==> r is None,
{
    let header = match PtpHeader::parse(data) {
        Ok(h) => h,
        Err(_) => {
            return None;
        },
    };
    if header.message_type != PtpMessageType::Announce || data.len() < 61 {
        return None;
    }
    let id: [u8; 8] = [data[53], data[54], data[55], data[56], data[57], data[58], data[59], data[60]];
    assert(id@ =~= data@.subrange(53, 61));
    Some((data[47], id))
}

} // verus!

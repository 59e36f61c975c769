//! The control channel: which datagrams are retransmission requests, and what answers
//! them.
use crate::audio::payload_types::RETRANSMIT_REQUEST;
use crate::audio::retransmit::{be16_at, RetransmitRequest};
use crate::audio::sender::retransmit_answers;
use crate::audio::streamer::AudioStreamer;
use crate::bytes::get_be16;
use crate::client::stats::{wrap_add, StreamStats};
use vstd::prelude::*;

verus! {

/// The request a control datagram carries: none under four bytes or with another payload
/// type than 85 (low seven bits of the second byte); the short form of exactly eight
/// bytes with the first sequence number and count in bytes 4-7; the full form of twelve
/// bytes or more with them in bytes 8-11; none for the lengths between.
pub open spec fn control_request(data: Seq<u8>) -> Option<(u16, u16)> {
    if data.len() < 4 || data[1] % 128 != 85 {
        None
    } else if data.len() == 8 {
        Some((be16_at(data, 4), be16_at(data, 6)))
    } else if data.len() >= 12 {
        Some((be16_at(data, 8), be16_at(data, 10)))
    } else {
        None
    }
}

pub fn parse_retransmit_request(data: &[u8]) -> (r: Option<RetransmitRequest>)
    ensures
        match control_request(data@) {
            Some((first, count)) => r matches Some(q) && q.first_sequence == first && q.count == count,
            None => r is None,
        },
{
    if data.len() < 4 {
        return None;
    }
    let b1 = data[1];
    let payload_type: u8 = b1 & 0x7F;
    assert(b1 & 0x7F == b1 % 128) by (bit_vector);
    if payload_type != RETRANSMIT_REQUEST {
        return None;
    }
    if data.len() == 8 {
        Some(RetransmitRequest { first_sequence: get_be16(data, 4), count: get_be16(data, 6) })
    } else if data.len() >= 12 {
        match RetransmitRequest::parse(data) {
            Ok(q) => Some(q),
            Err(_) => None,
        }
    } else {
        None
    }
}

/// Handles one control datagram from receiver `device_index` (`None` for a single
/// receiver, which is receiver 0): a retransmission request is counted, overall and for
/// the receiver, and answered with the packets still held for it. Other datagrams are
/// ignored.
pub fn answer_control_datagram(
    streamer: &AudioStreamer,
    stats: &mut StreamStats,
    device_index: Option<usize>,
    data: &[u8],
) -> (r: Vec<Vec<u8>>)
    requires
        streamer.wf(),
    ensures
        match control_request(data@) {
            None => r@.len() == 0 && *final(stats) == *old(stats),
            Some((first, count)) => {
                let index: int = match device_index {
                    Some(i) => i as int,
                    None => 0,
                };
                &&& r@.map_values(|v: Vec<u8>| v@) == (if index < streamer.senders().len() {
                    retransmit_answers(streamer.senders()[index].history(), first, count as nat)
                } else {
                    Seq::<Seq<u8>>::empty()
                })
                &&& final(stats).totals() == (
                    old(stats).totals().0,
                    wrap_add(old(stats).totals().1, count as int),
                    old(stats).totals().2,
                )
                &&& final(stats).devices() == (match device_index {
                    Some(i) if i < old(stats).devices().len() => old(stats).devices().update(
                        i as int,
                        (wrap_add(old(stats).devices()[i as int].0, count as int), old(stats).devices()[i as int].1),
                    ),
                    _ => old(stats).devices(),
                })
            },
        },
{
    let request = match parse_retransmit_request(data) {
        Some(q) => q,
        None => {
            return Vec::new();
        },
    };
    stats.record_request(device_index, request.count);
    match device_index {
        Some(i) => streamer.handle_retransmit_for_target(i, &request),
        None => streamer.handle_retransmit(&request),
    }
}

} // verus!

//! Requests for lost packets, and the answers to them.
use crate::audio::payload_types::{RETRANSMIT_REQUEST, RETRANSMIT_RESPONSE};
use crate::base::error::{Error, ParseError, ParseErrorV};
use crate::bytes::{get_be16, put_all};
use crate::text::{dec, push_radix, push_str, string_from_chars};
use vstd::prelude::*;

verus! {

#[derive(Debug, Clone, Copy)]
pub struct RetransmitRequest {
    pub first_sequence: u16,
    pub count: u16,
}

/// The message of a request whose payload type is `pt` rather than 85.
pub open spec fn wrong_type_message(pt: u8) -> Seq<char> {
    "Expected payload type 85, got "@ + dec(pt as nat)
}

/// The `u16` in `b[i]`, `b[i+1]`, big-endian.
pub open spec fn be16_at(b: Seq<u8>, i: int) -> u16 {
    (b[i] as nat * 256 + b[i + 1] as nat) as u16
}

impl RetransmitRequest {
    /// Reads a request: at least 12 bytes, payload type 85 in the low seven bits of the
    /// second byte, the first sequence number in bytes 8-9 and the count in bytes 10-11.
    pub fn parse(data: &[u8]) -> (r: Result<Self, Error>)
        ensures
            data@.len() < 12 ==> (r matches Err(Error::Parse(e)) && e@ == ParseErrorV::InvalidFormat(
                "Retransmit request too short"@,
            )),
            data@.len() >= 12 && data@[1] % 128 != 85 ==> (r matches Err(Error::Parse(e)) && e@
                == ParseErrorV::InvalidFormat(wrong_type_message((data@[1] % 128) as u8))),
            data@.len() >= 12 && data@[1] % 128 == 85 ==> (r matches Ok(q) && q.first_sequence
                == be16_at(data@, 8) && q.count == be16_at(data@, 10)),
    {
        if data.len() < 12 {
            return Err(Error::Parse(ParseError::InvalidFormat("Retransmit request too short".to_owned())));
        }
        let b1 = data[1];
        let payload_type: u8 = b1 & 0x7F;
        assert(b1 & 0x7F == b1 % 128) by (bit_vector);
        if payload_type != RETRANSMIT_REQUEST {
            let mut msg: Vec<char> = Vec::new();
            push_str(&mut msg, "Expected payload type 85, got ");
            push_radix(&mut msg, payload_type as u128, 10);
            return Err(Error::Parse(ParseError::InvalidFormat(string_from_chars(msg.as_slice()))));
        }
        let first_sequence = get_be16(data, 8);
        let count = get_be16(data, 10);
        Ok(Self { first_sequence, count })
    }
}

/// The answer that carries a stored packet back: `0x80`, `0x80 | 86`, the packet's
/// sequence bytes (two zeros for a packet shorter than four bytes), then the packet.
pub open spec fn retransmit_response(p: Seq<u8>) -> Seq<u8> {
    seq![0x80u8, 0xD6u8] + (if p.len() >= 4 {
        seq![p[2], p[3]]
    } else {
        seq![0u8, 0u8]
    }) + p
}

pub fn build_retransmit_response(original_packet: &[u8]) -> (r: Vec<u8>)
    ensures
        r@ == retransmit_response(original_packet@),
{
    let mut response: Vec<u8> = Vec::new();
    response.push(0x80);
    response.push(0x80 | RETRANSMIT_RESPONSE);
    assert(0x80u8 | 86u8 == 0xD6u8) by (bit_vector);
    if original_packet.len() >= 4 {
        response.push(original_packet[2]);
        response.push(original_packet[3]);
    } else {
        response.push(0);
        response.push(0);
    }
    put_all(&mut response, original_packet);
    assert(response@ =~= retransmit_response(original_packet@));
    response
}

} // verus!

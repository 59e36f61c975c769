//! The NTP-style timing exchange of AirPlay 1: requests in, responses out.
use crate::base::error::{Error, ParseError, ParseErrorV};
use crate::bytes::{be16, be64, get_be16, get_be64, put_be16, put_be64};
use crate::text::{dec, push_radix, push_str, string_from_chars};
use vstd::prelude::*;

verus! {

pub const TIMING_REQUEST_PT: u8 = 82;

pub const TIMING_RESPONSE_PT: u8 = 83;

#[derive(Debug, Clone, Copy)]
pub struct NtpRequest {
    pub sequence: u16,
    pub reference_time: u64,
}

/// The message of a request whose payload type is `pt` rather than 82.
pub open spec fn wrong_pt_message(pt: u8) -> Seq<char> {
    "Expected PT=82, got "@ + dec(pt as nat)
}

impl NtpRequest {
    /// Reads a request: at least 32 bytes, payload type 82 in the low seven bits of the
    /// second byte, the sequence number in bytes 2-3 and the sender's time in bytes 24-31.
    pub fn parse(data: &[u8]) -> (r: Result<Self, Error>)
        ensures
            data@.len() < 32 ==> (r matches Err(Error::Parse(e)) && e@ == ParseErrorV::InvalidFormat(
                "NTP request too short"@,
            )),
            data@.len() >= 32 && data@[1] % 128 != 82 ==> (r matches Err(Error::Parse(e)) && e@
                == ParseErrorV::InvalidFormat(wrong_pt_message((data@[1] % 128) as u8))),
            data@.len() >= 32 && data@[1] % 128 == 82 ==> (r matches Ok(q) && be16(q.sequence)
                == data@.subrange(2, 4) && be64(q.reference_time) == data@.subrange(24, 32)),
    {
        if data.len() < 32 {
            return Err(Error::Parse(ParseError::InvalidFormat("NTP request too short".to_owned())));
        }
        let b1 = data[1];
        let pt: u8 = b1 & 0x7F;
        assert(b1 & 0x7F == b1 % 128) by (bit_vector);
        if pt != TIMING_REQUEST_PT {
            let mut msg: Vec<char> = Vec::new();
            push_str(&mut msg, "Expected PT=82, got ");
            push_radix(&mut msg, pt as u128, 10);
            return Err(Error::Parse(ParseError::InvalidFormat(string_from_chars(msg.as_slice()))));
        }
        let sequence = get_be16(data, 2);
        let reference_time = get_be64(data, 24);
        Ok(Self { sequence, reference_time })
    }
}

#[derive(Debug, Clone, Copy)]
pub struct NtpResponse {
    pub sequence: u16,
    pub reference_time: u64,
    pub receive_time: u64,
    pub send_time: u64,
}

/// A response on the wire: `0x80`, payload type 83 with the marker bit, the sequence
/// number, four zero bytes, then the echoed sender time, the receive time and the send
/// time, each 64-bit big-endian.
pub open spec fn ntp_response_bytes(r: NtpResponse) -> Seq<u8> {
    seq![0x80u8, 0xD3u8] + be16(r.sequence) + seq![0u8, 0u8, 0u8, 0u8] + be64(r.reference_time)
        + be64(r.receive_time) + be64(r.send_time)
}

impl NtpResponse {
    /// Answers a request: its sequence number and its time echoed back, with our times.
    pub fn from_request(request: &NtpRequest, receive_time: u64, send_time: u64) -> (r: Self)
        ensures
            r.sequence == request.sequence,
            r.reference_time == request.reference_time,
            r.receive_time == receive_time,
            r.send_time == send_time,
    {
        Self {
            sequence: request.sequence,
            reference_time: request.reference_time,
            receive_time,
            send_time,
        }
    }

    pub fn serialize(&self) -> (r: [u8; 32])
        ensures
            r@ == ntp_response_bytes(*self),
    {
        let mut v: Vec<u8> = vec![0x80u8, TIMING_RESPONSE_PT | 0x80];
        assert(83u8 | 0x80u8 == 0xD3u8) by (bit_vector);
        put_be16(&mut v, self.sequence);
        v.push(0);
        v.push(0);
        v.push(0);
        v.push(0);
        put_be64(&mut v, self.reference_time);
        put_be64(&mut v, self.receive_time);
        put_be64(&mut v, self.send_time);
        let r = [
            v[0], v[1], v[2], v[3], v[4], v[5], v[6], v[7], v[8], v[9], v[10], v[11], v[12], v[13],
            v[14], v[15], v[16], v[17], v[18], v[19], v[20], v[21], v[22], v[23], v[24], v[25], v[26],
            v[27], v[28], v[29], v[30], v[31],
        ];
        assert(r@ =~= ntp_response_bytes(*self));
        r
    }
}

} // verus!

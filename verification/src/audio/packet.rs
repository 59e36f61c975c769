//! RTP headers and packets.
use crate::bytes::{be16, be32, put_all, put_be16, put_be32};
use vstd::prelude::*;

verus! {

#[derive(Debug, Clone, Copy)]
pub struct RtpHeader {
    pub version: u8,
    pub padding: bool,
    pub extension: bool,
    pub csrc_count: u8,
    pub marker: bool,
    pub payload_type: u8,
    pub sequence: u16,
    pub timestamp: u32,
    pub ssrc: u32,
}

/// The first header byte: two version bits, the padding and extension flags, four
/// bits of CSRC count.
pub open spec fn rtp_byte0(h: RtpHeader) -> u8 {
    ((h.version % 4) * 64 + (if h.padding { 32int } else { 0 }) + (if h.extension { 16int } else { 0 })
        + h.csrc_count % 16) as u8
}

/// The second header byte: the marker bit and seven bits of payload type.
pub open spec fn rtp_byte1(h: RtpHeader) -> u8 {
    ((if h.marker { 128int } else { 0 }) + h.payload_type % 128) as u8
}

/// The 12 bytes of a header on the wire.
pub open spec fn rtp_header_bytes(h: RtpHeader) -> Seq<u8> {
    seq![rtp_byte0(h), rtp_byte1(h)] + be16(h.sequence) + be32(h.timestamp) + be32(h.ssrc)
}

impl RtpHeader {
    pub fn new(payload_type: u8, sequence: u16, timestamp: u32, ssrc: u32) -> (r: Self)
        ensures
            r == (RtpHeader {
                version: 2,
                padding: false,
                extension: false,
                csrc_count: 0,
                marker: false,
                payload_type,
                sequence,
                timestamp,
                ssrc,
            }),
    {
        Self {
            version: 2,
            padding: false,
            extension: false,
            csrc_count: 0,
            marker: false,
            payload_type,
            sequence,
            timestamp,
            ssrc,
        }
    }

    pub fn with_marker(self, marker: bool) -> (r: Self)
        ensures
            r == (RtpHeader { marker, ..self }),
    {
        let mut h = self;
        h.marker = marker;
        h
    }

    pub fn serialize(&self) -> (r: [u8; 12])
        ensures
            r@ == rtp_header_bytes(*self),
    {
        let v = self.version;
        let p: u8 = if self.padding { 1 } else { 0 };
        let e: u8 = if self.extension { 1 } else { 0 };
        let c = self.csrc_count;
        let m: u8 = if self.marker { 1 } else { 0 };
        let pt = self.payload_type;
        let b0: u8 = (v << 6u8) | (p << 5u8) | (e << 4u8) | (c & 0x0F);
        let b1: u8 = (m << 7u8) | (pt & 0x7F);
        assert(b0 == (v % 4) * 64 + p * 32 + e * 16 + c % 16) by (bit_vector)
            requires
                b0 == (v << 6u8) | (p << 5u8) | (e << 4u8) | (c & 0x0F),
                p <= 1,
                e <= 1,
        ;
        assert(b1 == m * 128 + pt % 128) by (bit_vector)
            requires
                b1 == (m << 7u8) | (pt & 0x7F),
                m <= 1,
        ;
        let mut out: Vec<u8> = vec![b0, b1];
        put_be16(&mut out, self.sequence);
        put_be32(&mut out, self.timestamp);
        put_be32(&mut out, self.ssrc);
        let r = [
            out[0],
            out[1],
            out[2],
            out[3],
            out[4],
            out[5],
            out[6],
            out[7],
            out[8],
            out[9],
            out[10],
            out[11],
        ];
        assert(r@ =~= rtp_header_bytes(*self));
        r
    }
}

#[derive(Debug, Clone)]
pub struct RtpPacket {
    pub header: RtpHeader,
    pub payload: Vec<u8>,
}

impl RtpPacket {
    pub fn new(header: RtpHeader, payload: Vec<u8>) -> (r: Self)
        ensures
            r.header == header,
            r.payload@ == payload@,
    {
        Self { header, payload }
    }

    /// The header's 12 bytes, then the payload.
    pub fn serialize(&self) -> (r: Vec<u8>)
        ensures
            r@ == rtp_header_bytes(self.header) + self.payload@,
    {
        let h = self.header.serialize();
        let mut out: Vec<u8> = Vec::new();
        put_all(&mut out, &h);
        put_all(&mut out, self.payload.as_slice());
        out
    }

    pub fn size(&self) -> (r: usize)
        requires
            self.payload@.len() + 12 <= usize::MAX,
        ensures
            r == 12 + self.payload@.len(),
    {
        12 + self.payload.len()
    }
}

} // verus!

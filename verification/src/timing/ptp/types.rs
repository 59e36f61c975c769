//! PTP (IEEE 1588 / gPTP) message types, timestamps and the common header.
use crate::base::error::{Error, ParseError, ParseErrorV};
use crate::bytes::{be16, be32, be64, get_be16, get_be32, get_be64, put_all, put_be16, put_be32, put_be64};
use crate::text::{dec, push_radix, push_str, string_from_chars};
use vstd::prelude::*;

verus! {

pub const PTP_EVENT_PORT: u16 = 319;

pub const PTP_GENERAL_PORT: u16 = 320;

#[derive(Debug, Clone, Copy, PartialEq, Eq, Structural)]
pub enum PtpMessageType {
    Sync,
    DelayReq,
    FollowUp,
    DelayResp,
    Announce,
    Signaling,
}

/// The four-bit code of a message type.
pub open spec fn ptp_type_code(t: PtpMessageType) -> u8 {
    match t {
        PtpMessageType::Sync => 0x00,
        PtpMessageType::DelayReq => 0x01,
        PtpMessageType::FollowUp => 0x08,
        PtpMessageType::DelayResp => 0x09,
        PtpMessageType::Announce => 0x0B,
        PtpMessageType::Signaling => 0x0C,
    }
}

/// The message type whose code is the low four bits of `b`.
pub open spec fn ptp_type_of_byte(b: u8) -> Option<PtpMessageType> {
    let c = b % 16;
    if c == 0x00 {
        Some(PtpMessageType::Sync)
    } else if c == 0x01 {
        Some(PtpMessageType::DelayReq)
    } else if c == 0x08 {
        Some(PtpMessageType::FollowUp)
    } else if c == 0x09 {
        Some(PtpMessageType::DelayResp)
    } else if c == 0x0B {
        Some(PtpMessageType::Announce)
    } else if c == 0x0C {
        Some(PtpMessageType::Signaling)
    } else {
        None
    }
}

impl PtpMessageType {
    /// The type's code, as it stands in the first header byte.
    pub fn code(&self) -> (r: u8)
        ensures
            r == ptp_type_code(*self),
    {
        match self {
            PtpMessageType::Sync => 0x00,
            PtpMessageType::DelayReq => 0x01,
            PtpMessageType::FollowUp => 0x08,
            PtpMessageType::DelayResp => 0x09,
            PtpMessageType::Announce => 0x0B,
            PtpMessageType::Signaling => 0x0C,
        }
    }

    /// The type named by the low four bits of a header's first byte.
    pub fn from_byte(b: u8) -> (r: Option<Self>)
        ensures
            r == ptp_type_of_byte(b),
    {
        let c: u8 = b & 0x0F;
        assert(b & 0x0F == b % 16) by (bit_vector);
        if c == 0x00 {
            Some(PtpMessageType::Sync)
        } else if c == 0x01 {
            Some(PtpMessageType::DelayReq)
        } else if c == 0x08 {
            Some(PtpMessageType::FollowUp)
        } else if c == 0x09 {
            Some(PtpMessageType::DelayResp)
        } else if c == 0x0B {
            Some(PtpMessageType::Announce)
        } else if c == 0x0C {
            Some(PtpMessageType::Signaling)
        } else {
            None
        }
    }
}

/// Reading back the code of a type gives the type.
pub proof fn law_ptp_type_code_roundtrip(t: PtpMessageType)
    ensures
        ptp_type_of_byte(ptp_type_code(t)) == Some(t),
{
}

#[derive(Debug, Clone, Copy, PartialEq, Eq, Structural)]
pub struct PtpTimestamp {
    pub seconds: u64,
    pub nanoseconds: u32,
}

impl Default for PtpTimestamp {
    fn default() -> (r: Self)
        ensures
            r.seconds == 0 && r.nanoseconds == 0,
    {
        PtpTimestamp { seconds: 0, nanoseconds: 0 }
    }
}

/// std `SystemTime::now().duration_since(UNIX_EPOCH)` in nanoseconds, zero for a clock
/// set before 1970. Nothing is claimed of the value: it is the time.
#[verifier::external_body]
fn system_time_ns_wide() -> u128 {
    std::time::SystemTime::now().duration_since(std::time::UNIX_EPOCH).unwrap_or_default().as_nanos()
}

/// A time in nanoseconds as whole seconds (wrapping at 64 bits) and nanoseconds.
pub open spec fn ptp_from_nanos(nanos: u128) -> PtpTimestamp {
    PtpTimestamp {
        seconds: (nanos / 1_000_000_000 % 0x1_0000_0000_0000_0000) as u64,
        nanoseconds: (nanos % 1_000_000_000) as u32,
    }
}

/// A timestamp's value in nanoseconds.
pub open spec fn ptp_to_nanos(t: PtpTimestamp) -> nat {
    t.seconds as nat * 1_000_000_000 + t.nanoseconds as nat
}

/// The 10 bytes of a timestamp: the low 48 bits of the seconds, then the nanoseconds.
pub open spec fn ptp_timestamp_bytes(t: PtpTimestamp) -> Seq<u8> {
    be64(t.seconds).skip(2) + be32(t.nanoseconds)
}

/// The two leading bytes of a 64-bit big-endian number are zero exactly when it is
/// below 2^48.
proof fn lemma_be64_small(v: u64)
    ensures
        (be64(v)[0] == 0 && be64(v)[1] == 0) <==> v < 0x1_0000_0000_0000,
{
    let hi = (v / 0x1_0000_0000) as u32;
    assert(be64(v)[0] == (hi / 0x100_0000) as u8);
    assert(be64(v)[1] == (hi / 0x1_0000 % 0x100) as u8);
    assert(v < 0x1_0000_0000_0000 <==> hi < 0x1_0000);
}

/// Equal 64-bit big-endian layouts hold equal numbers.
proof fn lemma_be64_injective(a: u64, b: u64)
    requires
        be64(a) == be64(b),
    ensures
        a == b,
{
    let ha = (a / 0x1_0000_0000) as u32;
    let la = (a % 0x1_0000_0000) as u32;
    let hb = (b / 0x1_0000_0000) as u32;
    let lb = (b % 0x1_0000_0000) as u32;
    assert(be32(ha) =~= be64(a).take(4));
    assert(be32(hb) =~= be64(b).take(4));
    assert(be32(la) =~= be64(a).skip(4));
    assert(be32(lb) =~= be64(b).skip(4));
    crate::bytes::lemma_from_be32(ha);
    crate::bytes::lemma_from_be32(hb);
    crate::bytes::lemma_from_be32(la);
    crate::bytes::lemma_from_be32(lb);
}

impl PtpTimestamp {
    /// The current time.
    pub fn now() -> (r: Self)
        ensures
            exists|n: u128| r == ptp_from_nanos(n),
    {
        Self::from_nanos(system_time_ns_wide())
    }

    pub fn from_nanos(nanos: u128) -> (r: Self)
        ensures
            r == ptp_from_nanos(nanos),
    {
        let secs: u128 = nanos / 1_000_000_000;
        let s: u64 = (secs % 0x1_0000_0000_0000_0000) as u64;
        let ns: u32 = (nanos % 1_000_000_000) as u32;
        Self { seconds: s, nanoseconds: ns }
    }

    pub fn to_nanos(self) -> (r: u128)
        ensures
            r == ptp_to_nanos(self),
    {
        assert(self.seconds as nat * 1_000_000_000 + self.nanoseconds as nat <= u128::MAX) by (nonlinear_arith)
            requires
                self.seconds <= u64::MAX,
                self.nanoseconds <= u32::MAX,
        ;
        (self.seconds as u128) * 1_000_000_000 + (self.nanoseconds as u128)
    }

    pub fn serialize(&self) -> (r: [u8; 10])
        ensures
            r@ == ptp_timestamp_bytes(*self),
    {
        let mut v: Vec<u8> = Vec::new();
        put_be64(&mut v, self.seconds);
        put_be32(&mut v, self.nanoseconds);
        let r = [v[2], v[3], v[4], v[5], v[6], v[7], v[8], v[9], v[10], v[11]];
        assert(r@ =~= ptp_timestamp_bytes(*self));
        r
    }

    /// Reads 10 bytes: 48 bits of seconds, then 32 bits of nanoseconds.
    pub fn parse(data: &[u8]) -> (r: Result<Self, Error>)
        ensures
            data@.len() < 10 ==> (r matches Err(Error::Parse(e)) && e@ == ParseErrorV::InvalidFormat(
                "PTP timestamp too short"@,
            )),
            data@.len() >= 10 ==> (r matches Ok(t) && ptp_timestamp_bytes(t) == data@.take(10)
                && t.seconds < 0x1_0000_0000_0000),
    {
        if data.len() < 10 {
            return Err(Error::Parse(ParseError::InvalidFormat("PTP timestamp too short".to_owned())));
        }
        let mut sec_bytes: Vec<u8> = vec![0u8, 0u8];
        let mut i: usize = 0;
        while i < 6
            invariant
                i <= 6,
                data@.len() >= 10,
                sec_bytes@ == seq![0u8, 0u8] + data@.take(i as int),
            decreases 6 - i,
        {
            sec_bytes.push(data[i]);
            i += 1;
            assert(data@.take(i as int) =~= data@.take(i - 1).push(data@[i - 1]));
        }
        let seconds = get_be64(sec_bytes.as_slice(), 0);
        let nanoseconds = get_be32(data, 6);
        proof {
            let six = data@.take(6);
            assert(be64(seconds) =~= seq![0u8, 0u8] + six);
            assert(be64(seconds).skip(2) =~= six);
            lemma_be64_small(seconds);
        }
        let t = Self { seconds, nanoseconds };
        assert(ptp_timestamp_bytes(t) =~= data@.take(10));
        Ok(t)
    }
}

/// Parsing the bytes of a timestamp gives it back, for seconds below 2^48 (the layout
/// keeps 48 bits of them).
pub proof fn law_ptp_timestamp_roundtrip(t: PtpTimestamp, u: PtpTimestamp)
    requires
        t.seconds < 0x1_0000_0000_0000,
        ptp_timestamp_bytes(u) == ptp_timestamp_bytes(t),
        u.seconds < 0x1_0000_0000_0000,
    ensures
        u == t,
{
    lemma_be64_small(t.seconds);
    lemma_be64_small(u.seconds);
    assert(be64(t.seconds).skip(2) =~= ptp_timestamp_bytes(t).take(6));
    assert(be64(u.seconds).skip(2) =~= ptp_timestamp_bytes(u).take(6));
    assert(be32(t.nanoseconds) =~= ptp_timestamp_bytes(t).skip(6));
    assert(be32(u.nanoseconds) =~= ptp_timestamp_bytes(u).skip(6));
    assert(be64(t.seconds) =~= be64(u.seconds)) by {
        assert forall|i: int| 0 <= i < 8 implies be64(t.seconds)[i] == be64(u.seconds)[i] by {
            if i >= 2 {
                assert(be64(t.seconds)[i] == ptp_timestamp_bytes(t)[i - 2]);
                assert(be64(u.seconds)[i] == ptp_timestamp_bytes(u)[i - 2]);
            }
        }
    }
    lemma_be64_injective(t.seconds, u.seconds);
    crate::bytes::lemma_from_be32(t.nanoseconds);
    crate::bytes::lemma_from_be32(u.nanoseconds);
}

/// Splitting a time into seconds and nanoseconds and joining them again loses nothing
/// for times below 2^64 seconds.
pub proof fn law_ptp_nanos_roundtrip(t: PtpTimestamp)
    requires
        t.nanoseconds < 1_000_000_000,
    ensures
        ptp_to_nanos(t) <= u128::MAX,
        ptp_from_nanos(ptp_to_nanos(t) as u128) == t,
{
    let n = ptp_to_nanos(t);
    assert(n / 1_000_000_000 == t.seconds && n % 1_000_000_000 == t.nanoseconds && n <= u128::MAX) by (nonlinear_arith)
        requires
            n == t.seconds as nat * 1_000_000_000 + t.nanoseconds as nat,
            t.nanoseconds < 1_000_000_000,
            t.seconds <= u64::MAX,
    ;
}

#[derive(Debug, Clone)]
pub struct PtpHeader {
    pub message_type: PtpMessageType,
    pub version: u8,
    pub message_length: u16,
    pub domain_number: u8,
    pub flags: u16,
    pub correction_field: i64,
    pub source_port_identity: [u8; 10],
    pub sequence_id: u16,
    pub control_field: u8,
    pub log_message_interval: i8,
}

/// The control field that goes with a message type.
pub open spec fn ptp_control_of(t: PtpMessageType) -> u8 {
    match t {
        PtpMessageType::Sync => 0,
        PtpMessageType::DelayReq => 1,
        PtpMessageType::FollowUp => 2,
        PtpMessageType::DelayResp => 3,
        PtpMessageType::Announce => 5,
        PtpMessageType::Signaling => 5,
    }
}

/// The 34 bytes of a header: type, version, length, domain, a reserved byte, flags,
/// correction (two's complement), four reserved bytes, source port identity, sequence
/// id, control field and log message interval (two's complement).
pub open spec fn ptp_header_bytes(h: PtpHeader) -> Seq<u8> {
    seq![ptp_type_code(h.message_type), h.version] + be16(h.message_length) + seq![h.domain_number, 0u8]
        + be16(h.flags) + be64(h.correction_field as u64) + seq![0u8, 0u8, 0u8, 0u8]
        + h.source_port_identity@ + be16(h.sequence_id) + seq![h.control_field, h.log_message_interval as u8]
}

/// The message of a header whose type code `c` is unknown.
pub open spec fn unknown_type_message(c: u8) -> Seq<char> {
    "Unknown PTP message type: "@ + dec(c as nat)
}

/// What parsing 34 or more bytes gives, as fields: the type from the low four bits of
/// byte 0, the version from the low four bits of byte 1, the rest as laid out by
/// `ptp_header_bytes` (the reserved bytes are not read).
pub open spec fn ptp_header_fields(h: PtpHeader, d: Seq<u8>) -> bool {
    &&& Some(h.message_type) == ptp_type_of_byte(d[0])
    &&& h.version == d[1] % 16
    &&& be16(h.message_length) == d.subrange(2, 4)
    &&& h.domain_number == d[4]
    &&& be16(h.flags) == d.subrange(6, 8)
    &&& be64(h.correction_field as u64) == d.subrange(8, 16)
    &&& h.source_port_identity@ == d.subrange(20, 30)
    &&& be16(h.sequence_id) == d.subrange(30, 32)
    &&& h.control_field == d[32]
    &&& h.log_message_interval as u8 == d[33]
}

impl PtpHeader {
    /// A header of the given type: version 2, length 44, domain 0, no flags, zero
    /// correction and source, the type's control field, log interval 0.
    pub fn new(message_type: PtpMessageType, sequence_id: u16) -> (r: Self)
        ensures
            r.message_type == message_type,
            r.version == 2,
            r.message_length == 44,
            r.domain_number == 0,
            r.flags == 0,
            r.correction_field == 0,
            r.source_port_identity@ == seq![0u8; 10],
            r.sequence_id == sequence_id,
            r.control_field == ptp_control_of(message_type),
            r.log_message_interval == 0,
    {
        let control_field: u8 = match message_type {
            PtpMessageType::Sync => 0,
            PtpMessageType::DelayReq => 1,
            PtpMessageType::FollowUp => 2,
            PtpMessageType::DelayResp => 3,
            PtpMessageType::Announce => 5,
            PtpMessageType::Signaling => 5,
        };
        let r = Self {
            message_type,
            version: 2,
            message_length: 44,
            domain_number: 0,
            flags: 0,
            correction_field: 0,
            source_port_identity: [0u8; 10],
            sequence_id,
            control_field,
            log_message_interval: 0,
        };
        assert(r.source_port_identity@ =~= seq![0u8; 10]);
        r
    }

    pub fn serialize(&self) -> (r: [u8; 34])
        ensures
            r@ == ptp_header_bytes(*self),
    {
        let mut v: Vec<u8> = Vec::new();
        v.push(self.message_type.code());
        v.push(self.version);
        put_be16(&mut v, self.message_length);
        v.push(self.domain_number);
        v.push(0);
        put_be16(&mut v, self.flags);
        put_be64(&mut v, self.correction_field as u64);
        v.push(0);
        v.push(0);
        v.push(0);
        v.push(0);
        put_all(&mut v, &self.source_port_identity);
        put_be16(&mut v, self.sequence_id);
        v.push(self.control_field);
        v.push(self.log_message_interval as u8);
        let r = [
            v[0], v[1], v[2], v[3], v[4], v[5], v[6], v[7], v[8], v[9], v[10], v[11], v[12], v[13],
            v[14], v[15], v[16], v[17], v[18], v[19], v[20], v[21], v[22], v[23], v[24], v[25], v[26],
            v[27], v[28], v[29], v[30], v[31], v[32], v[33],
        ];
        assert(r@ =~= ptp_header_bytes(*self));
        r
    }

    /// Reads a header from the first 34 bytes.
    pub fn parse(data: &[u8]) -> (r: Result<Self, Error>)
        ensures
            data@.len() < 34 ==> (r matches Err(Error::Parse(e)) && e@ == ParseErrorV::InvalidFormat(
                "PTP header too short"@,
            )),
            data@.len() >= 34 && ptp_type_of_byte(data@[0]) is None ==> (r matches Err(Error::Parse(e))
                && e@ == ParseErrorV::InvalidFormat(unknown_type_message(data@[0] % 16))),
            data@.len() >= 34 && ptp_type_of_byte(data@[0]) is Some ==> (r matches Ok(h)
                && ptp_header_fields(h, data@)),
    {
        if data.len() < 34 {
            return Err(Error::Parse(ParseError::InvalidFormat("PTP header too short".to_owned())));
        }
        let b0 = data[0];
        let message_type = match PtpMessageType::from_byte(b0) {
            Some(t) => t,
            None => {
                let c: u8 = b0 & 0x0F;
                assert(b0 & 0x0F == b0 % 16) by (bit_vector);
                let mut msg: Vec<char> = Vec::new();
                push_str(&mut msg, "Unknown PTP message type: ");
                push_radix(&mut msg, c as u128, 10);
                return Err(Error::Parse(ParseError::InvalidFormat(string_from_chars(msg.as_slice()))));
            },
        };
        let b1 = data[1];
        let version: u8 = b1 & 0x0F;
        assert(b1 & 0x0F == b1 % 16) by (bit_vector);
        let correction: u64 = get_be64(data, 8);
        let correction_field: i64 = correction as i64;
        assert(correction_field as u64 == correction) by (bit_vector)
            requires
                correction_field == correction as i64,
        ;
        let source_port_identity: [u8; 10] = [
            data[20], data[21], data[22], data[23], data[24], data[25], data[26], data[27], data[28],
            data[29],
        ];
        assert(source_port_identity@ =~= data@.subrange(20, 30));
        let b33 = data[33];
        let log_message_interval: i8 = b33 as i8;
        assert(log_message_interval as u8 == b33) by (bit_vector)
            requires
                log_message_interval == b33 as i8,
        ;
        Ok(Self {
            message_type,
            version,
            message_length: get_be16(data, 2),
            domain_number: data[4],
            flags: get_be16(data, 6),
            correction_field,
            source_port_identity,
            sequence_id: get_be16(data, 30),
            control_field: data[32],
            log_message_interval,
        })
    }
}

/// Parsing the bytes of a header gives back every field, for versions below 16 (the
/// parser keeps four bits of the version).
pub proof fn law_ptp_header_roundtrip(h: PtpHeader, g: PtpHeader)
    requires
        h.version < 16,
        ptp_header_fields(g, ptp_header_bytes(h)),
    ensures
        g.message_type == h.message_type,
        g.version == h.version,
        g.message_length == h.message_length,
        g.domain_number == h.domain_number,
        g.flags == h.flags,
        g.correction_field == h.correction_field,
        g.source_port_identity@ == h.source_port_identity@,
        g.sequence_id == h.sequence_id,
        g.control_field == h.control_field,
        g.log_message_interval == h.log_message_interval,
{
    let d = ptp_header_bytes(h);
    assert(d.subrange(2, 4) =~= be16(h.message_length));
    assert(d.subrange(6, 8) =~= be16(h.flags));
    assert(d.subrange(8, 16) =~= be64(h.correction_field as u64));
    assert(d.subrange(20, 30) =~= h.source_port_identity@);
    assert(d.subrange(30, 32) =~= be16(h.sequence_id));
    crate::bytes::lemma_from_be16(g.message_length);
    crate::bytes::lemma_from_be16(h.message_length);
    crate::bytes::lemma_from_be16(g.flags);
    crate::bytes::lemma_from_be16(h.flags);
    crate::bytes::lemma_from_be16(g.sequence_id);
    crate::bytes::lemma_from_be16(h.sequence_id);
    lemma_be64_injective(g.correction_field as u64, h.correction_field as u64);
    let gc = g.correction_field;
    let hc = h.correction_field;
    assert(gc == hc) by (bit_vector)
        requires
            gc as u64 == hc as u64,
    ;
    let gl = g.log_message_interval;
    let hl = h.log_message_interval;
    assert(gl == hl) by (bit_vector)
        requires
            gl as u8 == hl as u8,
    ;
    assert(ptp_type_of_byte(ptp_type_code(h.message_type)) == Some(h.message_type));
}

} // verus!

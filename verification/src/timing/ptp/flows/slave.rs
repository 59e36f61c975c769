//! The slave side of a PTP exchange: which timestamps a packet gives, when an offset can
//! be computed, and the Delay_Req that answers a Follow_Up. The sockets and the clock
//! readings stay with the caller, who hands in what arrived and when.
use crate::bytes::be64;
use crate::timing::clock::ClockOffset;
use crate::timing::ptp::messages::{build_delay_req, header_wire};
use crate::timing::ptp::types::{ptp_timestamp_bytes, ptp_to_nanos, ptp_type_of_byte, PtpHeader, PtpMessageType, PtpTimestamp};
use vstd::prelude::*;

verus! {

/// `x / 2` rounded toward zero, as Rust's signed division does.
pub open spec fn trunc_half(x: int) -> int {
    if x >= 0 {
        x / 2
    } else {
        -((-x) / 2)
    }
}

pub open spec fn abs_int(x: int) -> int {
    if x >= 0 {
        x
    } else {
        -x
    }
}

/// The offset of the master's clock from ours and the path delay, from the four times of
/// an exchange: the master sent Sync at `t1`, we got it at `t2`, we sent Delay_Req at
/// `t3`, the master got it at `t4`. The offset is `((t2 - t1) + (t3 - t4)) / 2`, the delay
/// `((t2 - t1) - (t3 - t4)) / 2` (both rounded toward zero); the error is half the
/// delay's size. Each is cut to 64 bits.
pub open spec fn clock_offset_spec(t1: PtpTimestamp, t2: PtpTimestamp, t3: PtpTimestamp, t4: PtpTimestamp) -> ClockOffset {
    let d1 = ptp_to_nanos(t2) - ptp_to_nanos(t1);
    let d2 = ptp_to_nanos(t3) - ptp_to_nanos(t4);
    let delay = abs_int(trunc_half(d1 - d2));
    ClockOffset {
        offset_ns: trunc_half(d1 + d2) as i64,
        error_ns: (delay / 2) as u64,
        rtt_ns: delay as u64,
    }
}

/// `x / 2` rounded toward zero, for `|x|` below 2^126.
fn half_toward_zero(x: i128) -> (r: i128)
    requires
        -0x4000_0000_0000_0000_0000_0000_0000_0000 < x < 0x4000_0000_0000_0000_0000_0000_0000_0000,
    ensures
        r == trunc_half(x as int),
{
    if x >= 0 {
        ((x as u128) / 2) as i128
    } else {
        let a: u128 = (-x) as u128;
        -((a / 2) as i128)
    }
}

pub fn compute_clock_offset(t1: PtpTimestamp, t2: PtpTimestamp, t3: PtpTimestamp, t4: PtpTimestamp) -> (r: ClockOffset)
    ensures
        r == clock_offset_spec(t1, t2, t3, t4),
{
    let n1 = t1.to_nanos();
    let n2 = t2.to_nanos();
    let n3 = t3.to_nanos();
    let n4 = t4.to_nanos();
    assert(n1 < 0x1_0000_0000_0000_0000_0000_0000 && n2 < 0x1_0000_0000_0000_0000_0000_0000 && n3
        < 0x1_0000_0000_0000_0000_0000_0000 && n4 < 0x1_0000_0000_0000_0000_0000_0000) by (nonlinear_arith)
        requires
            n1 == t1.seconds as nat * 1_000_000_000 + t1.nanoseconds as nat,
            n2 == t2.seconds as nat * 1_000_000_000 + t2.nanoseconds as nat,
            n3 == t3.seconds as nat * 1_000_000_000 + t3.nanoseconds as nat,
            n4 == t4.seconds as nat * 1_000_000_000 + t4.nanoseconds as nat,
    ;
    let d1: i128 = (n2 as i128) - (n1 as i128);
    let d2: i128 = (n3 as i128) - (n4 as i128);
    let offset_val = half_toward_zero(d1 + d2);
    let delay = half_toward_zero(d1 - d2);
    let delay_abs: u128 = if delay >= 0 {
        delay as u128
    } else {
        (-delay) as u128
    };
    ClockOffset {
        offset_ns: offset_val as i64,
        error_ns: (delay_abs / 2) as u64,
        rtt_ns: delay_abs as u64,
    }
}

/// On a symmetric path, where the Sync arrives `delay + offset` after it left and the
/// Delay_Req arrives `delay - offset` after it left, the exchange gives back the offset
/// and the delay.
pub proof fn law_clock_offset_symmetric_path(
    t1: PtpTimestamp,
    t2: PtpTimestamp,
    t3: PtpTimestamp,
    t4: PtpTimestamp,
    delay: int,
    offset: int,
)
    requires
        0 <= delay <= u64::MAX,
        i64::MIN <= offset <= i64::MAX,
        ptp_to_nanos(t2) == ptp_to_nanos(t1) + delay + offset,
        ptp_to_nanos(t4) == ptp_to_nanos(t3) + delay - offset,
    ensures
        clock_offset_spec(t1, t2, t3, t4).offset_ns == offset,
        clock_offset_spec(t1, t2, t3, t4).rtt_ns == delay,
        clock_offset_spec(t1, t2, t3, t4).error_ns == delay / 2,
{
    let d1 = ptp_to_nanos(t2) - ptp_to_nanos(t1);
    let d2 = ptp_to_nanos(t3) - ptp_to_nanos(t4);
    assert(d1 + d2 == 2 * offset);
    assert(d1 - d2 == 2 * delay);
    assert(trunc_half(2 * offset) == offset);
    assert(trunc_half(2 * delay) == delay);
    let o = offset;
    assert((o as i64) == o);
}

/// What the slave holds between packets: the times of the exchange so far and the
/// sequence number of its last Delay_Req.
pub struct PtpSlaveState {
    pub t1: Option<PtpTimestamp>,
    pub t2: Option<PtpTimestamp>,
    pub t3: Option<PtpTimestamp>,
    pub delay_req_seq: u16,
}

/// The header of a packet, when it has one.
pub open spec fn packet_header(data: Seq<u8>) -> Option<PtpMessageType> {
    if data.len() >= 34 {
        ptp_type_of_byte(data[0])
    } else {
        None
    }
}

/// The timestamp in bytes 34-43 of a packet of 44 bytes or more.
pub open spec fn body_timestamp(data: Seq<u8>, t: PtpTimestamp) -> bool {
    ptp_timestamp_bytes(t) == data.subrange(34, 44) && t.seconds < 0x1_0000_0000_0000
}

impl PtpSlaveState {
    pub fn new() -> (r: Self)
        ensures
            r.t1 is None && r.t2 is None && r.t3 is None && r.delay_req_seq == 0,
    {
        PtpSlaveState { t1: None, t2: None, t3: None, delay_req_seq: 0 }
    }

    /// A packet on the event port, received at `now`. A Sync records `now` as `t2`. A
    /// Delay_Resp of 44 bytes or more carries `t4`: with `t1`, `t2` and `t3` all known it
    /// yields the clock offset; either way the exchange starts over. Anything else,
    /// including what does not parse, changes nothing.
    pub fn on_event_packet(&mut self, data: &[u8], now: PtpTimestamp) -> (r: Option<ClockOffset>)
        ensures
            final(self).delay_req_seq == old(self).delay_req_seq,
            packet_header(data@) == Some(PtpMessageType::Sync) ==> r is None && final(self).t2 == Some(now)
                && final(self).t1 == old(self).t1 && final(self).t3 == old(self).t3,
            packet_header(data@) == Some(PtpMessageType::DelayResp) && data@.len() >= 44 ==> {
                &&& final(self).t1 is None && final(self).t2 is None && final(self).t3 is None
                &&& match (old(self).t1, old(self).t2, old(self).t3) {
                    (Some(a), Some(b), Some(c)) => exists|t4: PtpTimestamp|
                        body_timestamp(data@, t4) && r == Some(clock_offset_spec(a, b, c, t4)),
                    _ => r is None,
                }
            },
            !(packet_header(data@) == Some(PtpMessageType::Sync) || (packet_header(data@) == Some(
                PtpMessageType::DelayResp,
            ) && data@.len() >= 44)) ==> r is None && final(self).t1 == old(self).t1 && final(self).t2
                == old(self).t2 && final(self).t3 == old(self).t3,
    {
        let header = match PtpHeader::parse(data) {
            Ok(h) => h,
            Err(_) => {
                return None;
            },
        };
        match header.message_type {
            PtpMessageType::Sync => {
                self.t2 = Some(now);
                None
            },
            PtpMessageType::DelayResp => {
                if data.len() < 44 {
                    return None;
                }
                let t4 = match PtpTimestamp::parse(slice_from(data, 34)) {
                    Ok(t) => t,
                    Err(_) => {
                        return None;
                    },
                };
                assert(data@.skip(34).take(10) =~= data@.subrange(34, 44));
                assert(body_timestamp(data@, t4));
                let mut out: Option<ClockOffset> = None;
                match (self.t1, self.t2, self.t3) {
                    (Some(a), Some(b), Some(c)) => {
                        out = Some(compute_clock_offset(a, b, c, t4));
                    },
                    _ => {},
                }
                self.t1 = None;
                self.t2 = None;
                self.t3 = None;
                out
            },
            _ => None,
        }
    }

    /// A packet on the general port, sent by the master, at `now`. A Follow_Up of 44
    /// bytes or more carries `t1`; the slave then records `now` as `t3` and answers with
    /// a Delay_Req under the next sequence number and `port_identity`. Anything else
    /// changes nothing and asks for no answer.
    pub fn on_general_packet(&mut self, data: &[u8], now: PtpTimestamp, port_identity: [u8; 10]) -> (r: Option<Vec<u8>>)
        ensures
            packet_header(data@) == Some(PtpMessageType::FollowUp) && data@.len() >= 44 ==> {
                &&& final(self).t1 matches Some(t1) && body_timestamp(data@, t1)
                &&& final(self).t2 == old(self).t2
                &&& final(self).t3 == Some(now)
                &&& final(self).delay_req_seq == (old(self).delay_req_seq + 1) % 0x1_0000
                &&& r matches Some(p) && p@ == header_wire(
                    PtpMessageType::DelayReq,
                    final(self).delay_req_seq,
                    44,
                    0,
                    port_identity@,
                    0,
                ) + ptp_timestamp_bytes(now)
            },
            !(packet_header(data@) == Some(PtpMessageType::FollowUp) && data@.len() >= 44) ==> r is None
                && final(self).t1 == old(self).t1 && final(self).t2 == old(self).t2 && final(self).t3
                == old(self).t3 && final(self).delay_req_seq == old(self).delay_req_seq,
    {
        let header = match PtpHeader::parse(data) {
            Ok(h) => h,
            Err(_) => {
                return None;
            },
        };
        if header.message_type != PtpMessageType::FollowUp || data.len() < 44 {
            return None;
        }
        let ts = match PtpTimestamp::parse(slice_from(data, 34)) {
            Ok(t) => t,
            Err(_) => {
                return None;
            },
        };
        assert(data@.skip(34).take(10) =~= data@.subrange(34, 44));
        self.t1 = Some(ts);
        self.delay_req_seq = self.delay_req_seq.wrapping_add(1);
        self.t3 = Some(now);
        Some(build_delay_req(self.delay_req_seq, port_identity, now))
    }
}

/// `&s[from..]`.
fn slice_from(s: &[u8], from: usize) -> (r: &[u8])
    requires
        from <= s@.len(),
    ensures
        r@ == s@.skip(from as int),
{
    let r = vstd::slice::slice_subrange(s, from, s.len());
    assert(r@ =~= s@.skip(from as int));
    r
}

/// The clock identity derived from a time in nanoseconds: its low 64 bits, big-endian.
pub fn clock_identity_from_time(now_ns: u128) -> (r: [u8; 8])
    ensures
        r@ == be64((now_ns % 0x1_0000_0000_0000_0000) as u64),
{
    let v: u64 = (now_ns % 0x1_0000_0000_0000_0000) as u64;
    let mut b: Vec<u8> = Vec::new();
    crate::bytes::put_be64(&mut b, v);
    let r = [b[0], b[1], b[2], b[3], b[4], b[5], b[6], b[7]];
    assert(r@ =~= be64(v));
    r
}

} // verus!

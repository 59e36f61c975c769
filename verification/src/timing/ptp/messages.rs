//! The PTP messages that the sender side sends, as bytes. Sending them is the caller's.
use crate::bytes::{be16, be32, be64, put_all};
use crate::timing::ptp::tlv::{
    apple_subtype, apple_tlv_bytes, follow_up_tlv_bytes, gptp_subtype, interval_tlv_bytes, org_id,
    AppleTlv, FollowUpInformationTlv, MessageIntervalRequestTlv,
};
use crate::timing::ptp::types::{
    ptp_control_of, ptp_header_bytes, ptp_timestamp_bytes, ptp_type_code, PtpHeader, PtpMessageType,
    PtpTimestamp,
};
use vstd::prelude::*;

verus! {

/// A header on the wire with version 2, domain 0 and no correction.
pub open spec fn header_wire(mt: PtpMessageType, seq_id: u16, len: u16, flags: u16, spi: Seq<u8>, log: i8) -> Seq<u8> {
    seq![ptp_type_code(mt), 2u8] + be16(len) + seq![0u8, 0u8] + be16(flags) + be64(0) + seq![
        0u8,
        0u8,
        0u8,
        0u8,
    ] + spi + be16(seq_id) + seq![ptp_control_of(mt), log as u8]
}

/// Our port identity: the clock identity and port number 1.
pub open spec fn port_identity(clock_id: Seq<u8>) -> Seq<u8> {
    clock_id + seq![0u8, 1u8]
}

/// The body of an Announce after its 34-byte header: a zero origin timestamp, UTC
/// offset 37, priority 1, clock class, accuracy `0xFE`, variance `0xFFFF`, priority 2
/// of 128, the grandmaster identity, steps removed 0 and time source `0xA0`.
pub open spec fn announce_body(clock_id: Seq<u8>, clock_class: u8, priority1: u8) -> Seq<u8> {
    seq![0u8; 10] + seq![0u8, 37u8, 0u8, priority1, clock_class, 0xFEu8, 0xFFu8, 0xFFu8, 128u8]
        + clock_id + seq![0u8, 0u8, 0xA0u8]
}

/// The payloads of the two Apple TLVs of a signaling message.
pub open spec fn apple01_payload(sync_log: i8, announce_log: i8) -> Seq<u8> {
    seq![0x00u8, 0x04u8, sync_log as u8, announce_log as u8] + seq![0u8; 12]
}

pub open spec fn apple05_payload(sync_log: i8, announce_log: i8) -> Seq<u8> {
    seq![0x00u8, 0x10u8, sync_log as u8, announce_log as u8] + seq![0u8; 22]
}

/// The fixed payloads of the Apple TLVs that macOS sends.
pub open spec fn mac_apple01_payload() -> Seq<u8> {
    seq![0x00u8, 0x03u8, 0x00u8, 0x00u8, 0x00u8, 0x00u8, 0x27u8, 0x10u8, 0x00u8, 0x00u8, 0x27u8, 0x10u8, 0x00u8, 0x00u8, 0x00u8, 0x00u8]
}

pub open spec fn mac_apple05_payload() -> Seq<u8> {
    seq![0x00u8, 0x0fu8, 0x00u8, 0x00u8, 0x00u8, 0x00u8, 0x27u8, 0x10u8, 0x00u8, 0x00u8, 0x27u8, 0x10u8]
        + seq![0u8; 14]
}

/// The gPTP interval request TLV with the given intervals and flags.
pub open spec fn interval_wire(link: i8, sync: i8, announce: i8, flags: u8) -> Seq<u8> {
    be16(3) + be16(10) + seq![0x00u8, 0x80u8, 0xC2u8] + seq![0x00u8, 0x00u8, 0x02u8] + seq![
        link as u8,
        sync as u8,
        announce as u8,
        flags,
    ]
}

/// An Apple TLV with the given subtype byte and payload.
pub open spec fn apple_wire(sub: u8, payload: Seq<u8>) -> Seq<u8> {
    apple_tlv_bytes(seq![0x00u8, 0x0Du8, 0x93u8], seq![0x00u8, 0x00u8, sub], payload)
}

/// A signaling message: header (length 120), ten `0xFF` bytes of target port, the
/// interval request and the two Apple TLVs.
pub open spec fn signaling_wire(clock_id: Seq<u8>, seq_id: u16, interval: Seq<u8>, a01: Seq<u8>, a05: Seq<u8>) -> Seq<u8> {
    header_wire(PtpMessageType::Signaling, seq_id, 120, 0, port_identity(clock_id), 0) + seq![0xFFu8; 10]
        + interval + apple_wire(0x01, a01) + apple_wire(0x05, a05)
}

/// A copy of `s` in a `Vec`.
fn to_vec(s: &[u8]) -> (r: Vec<u8>)
    ensures
        r@ == s@,
{
    let mut r: Vec<u8> = Vec::new();
    put_all(&mut r, s);
    r
}

/// Our source port identity as an array.
fn source_port(clock_identity: &[u8; 8]) -> (r: [u8; 10])
    ensures
        r@ == port_identity(clock_identity@),
{
    let c = clock_identity;
    let r = [c[0], c[1], c[2], c[3], c[4], c[5], c[6], c[7], 0u8, 1u8];
    assert(r@ =~= port_identity(clock_identity@));
    r
}

/// The header bytes of a header built from `new` with the given changes.
proof fn lemma_header_wire(h: PtpHeader, mt: PtpMessageType, seq_id: u16, len: u16, flags: u16, spi: Seq<u8>, log: i8)
    requires
        h.message_type == mt,
        h.version == 2,
        h.message_length == len,
        h.domain_number == 0,
        h.flags == flags,
        h.correction_field == 0,
        h.source_port_identity@ == spi,
        h.sequence_id == seq_id,
        h.control_field == ptp_control_of(mt),
        h.log_message_interval == log,
    ensures
        ptp_header_bytes(h) == header_wire(mt, seq_id, len, flags, spi, log),
{
    assert(ptp_header_bytes(h) =~= header_wire(mt, seq_id, len, flags, spi, log));
}

/// The next Announce: the sequence number advances (wrapping) and the packet carries
/// the new one, with log interval 1 and length 64.
pub fn build_ptp_announce(clock_identity: &[u8; 8], announce_seq: &mut u16, clock_class: u8, priority1: u8) -> (r: Vec<u8>)
    ensures
        *final(announce_seq) == (*old(announce_seq) + 1) % 0x1_0000,
        r@ == header_wire(
            PtpMessageType::Announce,
            *final(announce_seq),
            64,
            0,
            port_identity(clock_identity@),
            1,
        ) + announce_body(clock_identity@, clock_class, priority1),
{
    *announce_seq = announce_seq.wrapping_add(1);
    let seq = *announce_seq;
    let mut header = PtpHeader::new(PtpMessageType::Announce, seq);
    header.source_port_identity = source_port(clock_identity);
    header.message_length = 64;
    header.log_message_interval = 1;
    proof {
        lemma_header_wire(header, PtpMessageType::Announce, seq, 64, 0, port_identity(clock_identity@), 1);
    }
    let mut packet: Vec<u8> = Vec::new();
    put_all(&mut packet, &header.serialize());
    put_all(&mut packet, &[0u8; 10]);
    put_all(&mut packet, &[0u8, 37u8, 0u8, priority1, clock_class, 0xFEu8, 0xFFu8, 0xFFu8, 128u8]);
    put_all(&mut packet, clock_identity);
    put_all(&mut packet, &[0u8, 0u8, 0xA0u8]);
    assert(packet@ =~= header_wire(PtpMessageType::Announce, seq, 64, 0, port_identity(clock_identity@), 1)
        + announce_body(clock_identity@, clock_class, priority1));
    packet
}

/// Serializes the three TLVs of a signaling message after its header.
fn signaling_packet(
    header: &PtpHeader,
    interval: &MessageIntervalRequestTlv,
    a01: &AppleTlv,
    a05: &AppleTlv,
) -> (r: Vec<u8>)
    ensures
        r@ == ptp_header_bytes(*header) + seq![0xFFu8; 10] + interval_tlv_bytes(*interval) + apple_tlv_bytes(
            a01.organization_id@,
            a01.organization_subtype@,
            a01.payload@,
        ) + apple_tlv_bytes(a05.organization_id@, a05.organization_subtype@, a05.payload@),
{
    let mut packet: Vec<u8> = Vec::new();
    put_all(&mut packet, &header.serialize());
    let ff = [0xFFu8; 10];
    assert(ff@ =~= seq![0xFFu8; 10]);
    put_all(&mut packet, &ff);
    put_all(&mut packet, interval.serialize().as_slice());
    put_all(&mut packet, a01.serialize().as_slice());
    put_all(&mut packet, a05.serialize().as_slice());
    packet
}

/// The next signaling message asking for the given sync and announce intervals.
pub fn build_ptp_signaling(clock_identity: &[u8; 8], sequence_id: &mut u16, sync_interval_log: i8, announce_interval_log: i8) -> (r: Vec<u8>)
    ensures
        *final(sequence_id) == (*old(sequence_id) + 1) % 0x1_0000,
        r@ == signaling_wire(
            clock_identity@,
            *final(sequence_id),
            interval_wire(sync_interval_log, sync_interval_log, announce_interval_log, 0x02),
            apple01_payload(sync_interval_log, announce_interval_log),
            apple05_payload(sync_interval_log, announce_interval_log),
        ),
{
    *sequence_id = sequence_id.wrapping_add(1);
    let seq = *sequence_id;
    let mut header = PtpHeader::new(PtpMessageType::Signaling, seq);
    header.source_port_identity = source_port(clock_identity);
    let tlv = MessageIntervalRequestTlv::new(sync_interval_log, announce_interval_log);
    let s = sync_interval_log as u8;
    let a = announce_interval_log as u8;
    let mut p01: Vec<u8> = vec![0x00u8, 0x04u8, s, a];
    put_all(&mut p01, &[0u8; 12]);
    let apple_tlv_01 = AppleTlv::new(apple_subtype::TYPE_01, p01);
    let mut p05: Vec<u8> = vec![0x00u8, 0x10u8, s, a];
    put_all(&mut p05, &[0u8; 22]);
    let apple_tlv_05 = AppleTlv::new(apple_subtype::TYPE_05, p05);
    header.message_length = 120;
    proof {
        lemma_header_wire(header, PtpMessageType::Signaling, seq, 120, 0, port_identity(clock_identity@), 0);
        assert(apple_tlv_01.payload@ =~= apple01_payload(sync_interval_log, announce_interval_log));
        assert(apple_tlv_05.payload@ =~= apple05_payload(sync_interval_log, announce_interval_log));
        assert(apple_subtype::TYPE_01@ =~= seq![0x00u8, 0x00u8, 0x01u8]);
        assert(apple_subtype::TYPE_05@ =~= seq![0x00u8, 0x00u8, 0x05u8]);
        assert(interval_tlv_bytes(tlv) =~= interval_wire(sync_interval_log, sync_interval_log, announce_interval_log, 0x02));
    }
    signaling_packet(&header, &tlv, &apple_tlv_01, &apple_tlv_05)
}

/// The next signaling message as macOS sends it: intervals 2^-3 s and 2^-2 s and the
/// fixed Apple TLVs.
pub fn build_mac_style_signaling(clock_identity: &[u8; 8], sequence_id: &mut u16) -> (r: Vec<u8>)
    ensures
        *final(sequence_id) == (*old(sequence_id) + 1) % 0x1_0000,
        r@ == signaling_wire(
            clock_identity@,
            *final(sequence_id),
            interval_wire(-3i8, -3i8, -2i8, 0x02u8),
            mac_apple01_payload(),
            mac_apple05_payload(),
        ),
{
    *sequence_id = sequence_id.wrapping_add(1);
    let seq = *sequence_id;
    let mut header = PtpHeader::new(PtpMessageType::Signaling, seq);
    header.source_port_identity = source_port(clock_identity);
    let tlv = MessageIntervalRequestTlv::new(-3, -2);
    let p01 = to_vec(&[0x00u8, 0x03, 0x00, 0x00, 0x00, 0x00, 0x27, 0x10, 0x00, 0x00, 0x27, 0x10, 0x00, 0x00, 0x00, 0x00]);
    let apple_tlv_01 = AppleTlv::new(apple_subtype::TYPE_01, p01);
    let mut p05 = to_vec(&[0x00u8, 0x0f, 0x00, 0x00, 0x00, 0x00, 0x27, 0x10, 0x00, 0x00, 0x27, 0x10]);
    put_all(&mut p05, &[0u8; 14]);
    let apple_tlv_05 = AppleTlv::new(apple_subtype::TYPE_05, p05);
    header.message_length = 120;
    proof {
        lemma_header_wire(header, PtpMessageType::Signaling, seq, 120, 0, port_identity(clock_identity@), 0);
        assert(apple_tlv_01.payload@ =~= mac_apple01_payload());
        assert(apple_tlv_05.payload@ =~= mac_apple05_payload());
        assert(apple_subtype::TYPE_01@ =~= seq![0x00u8, 0x00u8, 0x01u8]);
        assert(apple_subtype::TYPE_05@ =~= seq![0x00u8, 0x00u8, 0x05u8]);
        assert(interval_tlv_bytes(tlv) =~= interval_wire(-3i8, -3i8, -2i8, 0x02u8));
    }
    signaling_packet(&header, &tlv, &apple_tlv_01, &apple_tlv_05)
}

/// The next signaling message that asks the peer to stop sending (every interval
/// `0x7E`, no flags), with no Apple TLVs.
pub fn build_stop_signaling(clock_identity: &[u8; 8], sequence_id: &mut u16) -> (r: Vec<u8>)
    ensures
        *final(sequence_id) == (*old(sequence_id) + 1) % 0x1_0000,
        r@ == header_wire(
            PtpMessageType::Signaling,
            *final(sequence_id),
            58,
            0,
            port_identity(clock_identity@),
            0,
        ) + seq![0xFFu8; 10] + interval_wire(0x7E, 0x7E, 0x7E, 0x00),
{
    *sequence_id = sequence_id.wrapping_add(1);
    let seq = *sequence_id;
    let mut header = PtpHeader::new(PtpMessageType::Signaling, seq);
    header.source_port_identity = source_port(clock_identity);
    let stop_tlv = MessageIntervalRequestTlv {
        organization_id: org_id::GPTP,
        organization_subtype: gptp_subtype::MESSAGE_INTERVAL_REQUEST,
        link_delay_interval: 0x7E,
        time_sync_interval: 0x7E,
        announce_interval: 0x7E,
        flags: 0x00,
    };
    header.message_length = 58;
    proof {
        lemma_header_wire(header, PtpMessageType::Signaling, seq, 58, 0, port_identity(clock_identity@), 0);
        assert(org_id::GPTP@ =~= seq![0x00u8, 0x80u8, 0xC2u8]);
        assert(gptp_subtype::MESSAGE_INTERVAL_REQUEST@ =~= seq![0x00u8, 0x00u8, 0x02u8]);
        assert(interval_tlv_bytes(stop_tlv) =~= interval_wire(0x7E, 0x7E, 0x7E, 0x00));
    }
    let mut packet: Vec<u8> = Vec::new();
    put_all(&mut packet, &header.serialize());
    let ff = [0xFFu8; 10];
    assert(ff@ =~= seq![0xFFu8; 10]);
    put_all(&mut packet, &ff);
    put_all(&mut packet, stop_tlv.serialize().as_slice());
    packet
}

/// The next Sync: two-step flag `0x0200`, length 44, a zero origin timestamp.
pub fn build_ptp_sync(clock_identity: &[u8; 8], sequence_id: &mut u16) -> (r: Vec<u8>)
    ensures
        *final(sequence_id) == (*old(sequence_id) + 1) % 0x1_0000,
        r@ == header_wire(
            PtpMessageType::Sync,
            *final(sequence_id),
            44,
            0x0200,
            port_identity(clock_identity@),
            0,
        ) + seq![0u8; 10],
{
    *sequence_id = sequence_id.wrapping_add(1);
    let seq = *sequence_id;
    let mut header = PtpHeader::new(PtpMessageType::Sync, seq);
    header.flags = 0x0200;
    header.source_port_identity = source_port(clock_identity);
    proof {
        lemma_header_wire(header, PtpMessageType::Sync, seq, 44, 0x0200, port_identity(clock_identity@), 0);
    }
    let mut packet: Vec<u8> = Vec::new();
    put_all(&mut packet, &header.serialize());
    let zeros = [0u8; 10];
    assert(zeros@ =~= seq![0u8; 10]);
    put_all(&mut packet, &zeros);
    packet
}

/// The Follow_Up of the Sync with sequence number `seq`: length 76, the time the Sync
/// left, and the Follow_Up information TLV.
pub fn build_ptp_follow_up(clock_identity: &[u8; 8], seq: u16, sync_time: PtpTimestamp) -> (r: Vec<u8>)
    ensures
        r@ == header_wire(PtpMessageType::FollowUp, seq, 76, 0, port_identity(clock_identity@), 0)
            + ptp_timestamp_bytes(sync_time) + be16(3) + be16(28) + seq![0x00u8, 0x80u8, 0xC2u8]
            + seq![0x00u8, 0x00u8, 0x01u8] + seq![0u8; 22],
{
    let mut header = PtpHeader::new(PtpMessageType::FollowUp, seq);
    header.source_port_identity = source_port(clock_identity);
    let tlv = FollowUpInformationTlv::new();
    header.message_length = 76;
    proof {
        lemma_header_wire(header, PtpMessageType::FollowUp, seq, 76, 0, port_identity(clock_identity@), 0);
    }
    let mut packet: Vec<u8> = Vec::new();
    put_all(&mut packet, &header.serialize());
    put_all(&mut packet, &sync_time.serialize());
    put_all(&mut packet, tlv.serialize().as_slice());
    assert(be32(0u32) =~= seq![0u8, 0u8, 0u8, 0u8]);
    assert(be16(0u16) =~= seq![0u8, 0u8]);
    assert(follow_up_tlv_bytes(tlv) =~= be16(3) + be16(28) + seq![0x00u8, 0x80u8, 0xC2u8] + seq![0x00u8, 0x00u8, 0x01u8] + seq![0u8; 22]);
    packet
}

/// A Delay_Req with sequence number `seq`, the given source port identity and the time
/// it leaves.
pub fn build_delay_req(seq: u16, source_port_identity: [u8; 10], t3: PtpTimestamp) -> (r: Vec<u8>)
    ensures
        r@ == header_wire(PtpMessageType::DelayReq, seq, 44, 0, source_port_identity@, 0)
            + ptp_timestamp_bytes(t3),
{
    let mut header = PtpHeader::new(PtpMessageType::DelayReq, seq);
    header.source_port_identity = source_port_identity;
    proof {
        lemma_header_wire(header, PtpMessageType::DelayReq, seq, 44, 0, source_port_identity@, 0);
    }
    let mut packet: Vec<u8> = Vec::new();
    put_all(&mut packet, &header.serialize());
    put_all(&mut packet, &t3.serialize());
    packet
}

/// Our port identity as an array, for Delay_Req messages that carry it.
pub fn our_port_identity(clock_identity: &[u8; 8]) -> (r: [u8; 10])
    ensures
        r@ == port_identity(clock_identity@),
{
    source_port(clock_identity)
}

} // verus!

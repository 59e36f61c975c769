use airplay::timing::clock::{unix_to_ntp, Clock, ClockOffset};
use airplay::timing::ntp::{NtpRequest, NtpResponse};
use airplay::timing::ptp::flows::bmca::{bmca_decision, parse_announce, we_are_master};
use airplay::timing::ptp::flows::slave::{clock_identity_from_time, compute_clock_offset};
use airplay::timing::ptp::messages::{build_ptp_announce, build_ptp_sync};
use airplay::timing::ptp::types::{PtpHeader, PtpMessageType, PtpTimestamp};

#[test]
fn unix_time_to_ntp() {
    assert_eq!(unix_to_ntp(1_500_000_000), 0x83AA_7E81_8000_0000);
    assert_eq!(unix_to_ntp(0), 2_208_988_800u64 << 32);
}

#[test]
fn offsets_move_local_time() {
    let c = Clock::new();
    assert_eq!(c.apply_offset(1_000, &ClockOffset::new(-400, 0, 0)), 600);
    assert_eq!(c.apply_offset(1_000, &ClockOffset::new(5, 0, 0)), 1_005);
}

#[test]
fn ntp_request_answered_with_echo() {
    let mut req = vec![0u8; 32];
    req[1] = 0x80 | 82;
    req[2] = 0x12;
    req[3] = 0x34;
    req[24..32].copy_from_slice(&0x0102030405060708u64.to_be_bytes());
    let q = NtpRequest::parse(&req).unwrap();
    assert_eq!(q.sequence, 0x1234);
    assert_eq!(q.reference_time, 0x0102030405060708);
    let r = NtpResponse::from_request(&q, 10, 11).serialize();
    assert_eq!(&r[..8], &[0x80, 0xD3, 0x12, 0x34, 0, 0, 0, 0]);
    assert_eq!(&r[8..16], &0x0102030405060708u64.to_be_bytes());
    assert_eq!(&r[16..24], &10u64.to_be_bytes());
    assert_eq!(&r[24..], &11u64.to_be_bytes());
    req[1] = 83;
    assert!(NtpRequest::parse(&req).is_err());
    assert!(NtpRequest::parse(&req[..10]).is_err());
}

#[test]
fn ptp_timestamps_roundtrip() {
    let t = PtpTimestamp::from_nanos(5_000_000_123);
    assert_eq!((t.seconds, t.nanoseconds), (5, 123));
    assert_eq!(t.to_nanos(), 5_000_000_123);
    let b = t.serialize();
    assert_eq!(b, [0, 0, 0, 0, 0, 5, 0, 0, 0, 123]);
    assert_eq!(PtpTimestamp::parse(&b).unwrap(), t);
    assert!(PtpTimestamp::parse(&b[..9]).is_err());
}

#[test]
fn ptp_header_roundtrip() {
    let h = PtpHeader::new(PtpMessageType::FollowUp, 77);
    let b = h.serialize();
    assert_eq!(b.len(), 34);
    assert_eq!(b[0] & 0x0F, 0x08);
    let back = PtpHeader::parse(&b).unwrap();
    assert_eq!(back.message_type, PtpMessageType::FollowUp);
    assert_eq!(back.sequence_id, 77);
    assert!(PtpHeader::parse(&b[..20]).is_err());
    assert_eq!(PtpMessageType::from_byte(0x0B), Some(PtpMessageType::Announce));
    assert_eq!(PtpMessageType::from_byte(0x05), None);
}

#[test]
fn clock_offset_from_symmetric_exchange() {
    let t = |n: u128| PtpTimestamp::from_nanos(n);
    // 100 ns each way, the remote clock 1000 ns ahead.
    let o = compute_clock_offset(t(10_000), t(11_100), t(20_000), t(19_100));
    assert_eq!(o.offset_ns, 1_000);
    assert_eq!(o.rtt_ns, 100);
    assert_eq!(o.error_ns, 50);
}

#[test]
fn announce_priority_decides_master() {
    assert!(we_are_master(1, 2));
    assert!(!we_are_master(2, 2));
    let id = [1, 2, 3, 4, 5, 6, 7, 8];
    let mut seq = 0u16;
    let a = build_ptp_announce(&id, &mut seq, 248, 128);
    assert_eq!(seq, 1);
    let (p1, cid) = parse_announce(&a).unwrap();
    assert_eq!(p1, 128);
    assert_eq!(cid, id);
    let mut s2 = 0u16;
    assert!(parse_announce(&build_ptp_sync(&id, &mut s2)).is_none());
    assert_eq!(clock_identity_from_time(0x0102_0304_0506_0708_1112_1314_1516_1718), [0x11, 0x12, 0x13, 0x14, 0x15, 0x16, 0x17, 0x18]);
}

#[test]
fn silent_peer_counts_as_worst_priority() {
    assert!(bmca_decision(248, None));
    assert!(!bmca_decision(255, None));
    assert!(!bmca_decision(250, Some(128)));
    assert!(bmca_decision(100, Some(128)));
    assert!(!bmca_decision(128, Some(128)));
}

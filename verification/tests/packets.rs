use airplay::audio::packet::{RtpHeader, RtpPacket};
use airplay::audio::retransmit::{build_retransmit_response, RetransmitRequest};

#[test]
fn rtp_header_serializes_fields() {
    let h = RtpHeader::new(96, 0x1234, 0xDEADBEEF, 0x01020304).with_marker(true);
    let b = h.serialize();
    assert_eq!(b, [0x80, 0xE0, 0x12, 0x34, 0xDE, 0xAD, 0xBE, 0xEF, 0x01, 0x02, 0x03, 0x04]);
}

#[test]
fn rtp_packet_appends_payload() {
    let p = RtpPacket::new(RtpHeader::new(96, 1, 2, 3), vec![9, 8, 7]);
    let b = p.serialize();
    assert_eq!(b.len(), 15);
    assert_eq!(p.size(), 15);
    assert_eq!(&b[12..], &[9, 8, 7]);
}

#[test]
fn retransmit_request_parses() {
    let mut d = vec![0x80, 0xD5, 0, 1, 0, 0, 0, 0, 0x00, 0x10, 0x00, 0x03];
    let r = RetransmitRequest::parse(&d).unwrap();
    assert_eq!(r.first_sequence, 16);
    assert_eq!(r.count, 3);
    d[1] = 0x80 | 60;
    assert!(RetransmitRequest::parse(&d).is_err());
    assert!(RetransmitRequest::parse(&d[..5]).is_err());
}

#[test]
fn retransmit_response_frames_packet() {
    let r = build_retransmit_response(&[0x80, 0x60, 0x00, 0x05, 0xAA]);
    assert_eq!(r, vec![0x80, 0xD6, 0x00, 0x05, 0x80, 0x60, 0x00, 0x05, 0xAA]);
    let short = build_retransmit_response(&[1, 2]);
    assert_eq!(short, vec![0x80, 0xD6, 0, 0, 1, 2]);
}

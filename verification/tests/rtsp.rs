use airplay::base::device::Device;
use airplay::base::error::{Error, RtspError};
use airplay::base::net::{Endpoint, IpAddress};
use airplay::base::random::uuid_v4_from_bytes;
use airplay::base::stream::StreamConfig;
use airplay::crypto::chacha::ControlCipher;
use airplay::discovery::parser::TxtRecordParser;
use airplay::rtsp::connection::{complete_response_length, content_length_of_head, response_length_overflows, RtspConnection};
use airplay::rtsp::plist_codec::{SetupPhase1Response, SetupPhase2Response, StreamResponse};
use airplay::rtsp::request::{RtspMethod, RtspRequest};
use airplay::rtsp::response::RtspResponse;
use airplay::rtsp::session::{uuid_string, RtspSession, SessionState};

fn device() -> Device {
    let txt: Vec<(String, String)> = vec![
        ("deviceid".to_string(), "AA:BB:CC:DD:EE:FF".to_string()),
        ("features".to_string(), "0x4A7FDFD5,0x3C155FDE".to_string()),
        ("srcvers".to_string(), "770.8.1".to_string()),
    ];
    TxtRecordParser::parse_airplay_txt("Den", &txt, vec![IpAddress::V4(0xC0A8_0102)], 7000).unwrap()
}

fn is_setup_failed(e: &Error, msg: &str) -> bool {
    matches!(e, Error::Rtsp(RtspError::SetupFailed(m)) if m == msg)
}

#[test]
fn request_lines_and_headers() {
    let r = RtspRequest::options();
    assert_eq!(r.serialize(1), b"OPTIONS * RTSP/1.0\r\nCSeq: 1\r\n\r\n".to_vec());
    assert_eq!(RtspMethod::SetParameter.as_str(), "SET_PARAMETER");
    let f = RtspRequest::flush_with_info("rtsp://h/x", 7, 99);
    assert_eq!(f.header_value("RTP-Info").as_deref(), Some("seq=7;rtptime=99"));
    let s = RtspRequest::setup("rtsp://h/x", vec![1, 2, 3]);
    let bytes = s.serialize(5);
    let text = String::from_utf8_lossy(&bytes).to_string();
    assert!(text.starts_with("SETUP rtsp://h/x RTSP/1.0\r\nCSeq: 5\r\nContent-Length: 3\r\n"));
    assert!(text.contains("Content-Type: application/x-apple-binary-plist\r\n"));
    assert!(bytes.ends_with(b"\r\n\r\n\x01\x02\x03"));
    let p = RtspRequest::pair_setup(vec![0], "AA:BB:CC:DD:EE:FF", 4);
    assert_eq!(p.header_value("DACP-ID").as_deref(), Some("AABBCCDDEEFF"));
    assert_eq!(p.header_value("X-Apple-HKP").as_deref(), Some("4"));
    assert_eq!(RtspRequest::feedback("rtsp://h/x").uri(), "rtsp://h/x/feedback");
    let later = RtspRequest::teardown("u").header("A", "1").header("A", "2");
    assert_eq!(later.header_value("A").as_deref(), Some("2"));
}

#[test]
fn response_parses_status_headers_and_body() {
    let data = b"RTSP/1.0 200 OK\r\nCSeq: 3\r\ncontent-length: 4\r\nSession: abc\r\n\r\nbody";
    let r = RtspResponse::parse(data).unwrap();
    assert_eq!(r.status_code, 200);
    assert_eq!(r.status_text, "OK");
    assert_eq!(r.cseq(), Some(3));
    assert_eq!(r.header("SESSION"), Some("abc"));
    assert_eq!(r.header_exact("Session"), Some("abc"));
    assert_eq!(r.header_exact("session"), None);
    assert_eq!(r.body, Some(b"body".to_vec()));
    assert!(RtspResponse::parse(b"HTTP/1.1 200 OK\r\n\r\n").is_err());
    assert!(RtspResponse::parse(b"RTSP/1.0 abc OK\r\n\r\n").is_err());
}

#[test]
fn response_length_from_head() {
    let head = b"RTSP/1.0 200 OK\r\nContent-Length: 12\r\n";
    assert_eq!(content_length_of_head(head), 12);
    assert_eq!(content_length_of_head(b"RTSP/1.0 200 OK\r\n"), 0);
    let full = b"RTSP/1.0 200 OK\r\nContent-Length: 2\r\n\r\nabEXTRA";
    assert!(!response_length_overflows(full));
    assert_eq!(complete_response_length(full), Some(full.len() - 5));
    assert_eq!(complete_response_length(b"RTSP/1.0 200 OK\r\nContent-Length: 9\r\n\r\nab"), None);
    assert_eq!(complete_response_length(b"RTSP/1.0 200 OK\r\n"), None);
}

#[test]
fn connection_numbers_and_decorates_requests() {
    let mut c = RtspConnection::new(Endpoint::new(IpAddress::V4(1), 7000));
    c.add_session_header("Session", "abc");
    let (bytes, cseq) = c.prepare_request(RtspRequest::teardown("rtsp://x/1")).unwrap();
    assert_eq!(cseq, 1);
    assert_eq!(bytes, b"TEARDOWN rtsp://x/1 RTSP/1.0\r\nCSeq: 1\r\nSession: abc\r\n\r\n".to_vec());
    let (_, cseq2) = c.prepare_request(RtspRequest::options()).unwrap();
    assert_eq!(cseq2, 2);
    let k = [9u8; 32];
    c.set_cipher(ControlCipher::new(k, [8u8; 32]));
    let (wire, _) = c.prepare_request(RtspRequest::options()).unwrap();
    let plain = b"OPTIONS * RTSP/1.0\r\nCSeq: 3\r\nSession: abc\r\n\r\n";
    assert_eq!(wire.len(), 2 + plain.len() + 16);
    let mut peer = ControlCipher::new([8u8; 32], k);
    let opened = peer.decrypt_block(&wire[2..], plain.len() as u16).unwrap();
    assert_eq!(opened, plain.to_vec());
    let mut plain_conn = RtspConnection::new(Endpoint::new(IpAddress::V4(1), 7000));
    assert!(matches!(plain_conn.decrypt_block(&[0u8; 20], 4), Err(Error::Rtsp(RtspError::InvalidResponse(_)))));
}

#[test]
fn session_walks_through_setup() {
    let d = device();
    let mut s = RtspSession::new(&d, StreamConfig::airplay2_buffered()).unwrap();
    assert_eq!(s.state(), SessionState::Disconnected);
    let e = s.set_paired().unwrap_err();
    assert!(is_setup_failed(&e, "Cannot pair from state Disconnected"));
    s.set_connected().unwrap();
    s.set_paired().unwrap();
    s.set_request_host("192.168.1.2".to_string());
    let uri = s.request_uri();
    assert!(uri.starts_with("rtsp://192.168.1.2/"));
    assert_eq!(uri.len(), "rtsp://192.168.1.2/".len() + 36);
    let p1 = s.build_setup_phase1(319, Some(vec!["10.0.0.2".to_string()]));
    assert_eq!(p1.timing_protocol, "PTP");
    assert_eq!(p1.timing_port, 319);
    assert_eq!(p1.timing_peer_info.as_ref().unwrap().addresses, vec!["10.0.0.2".to_string()]);
    assert!(s.build_setup_phase2().is_err());
    s.process_setup_phase1_response(&SetupPhase1Response { event_port: 5000, timing_port: 0, timing_peer_info: None }).unwrap();
    assert_eq!(s.state(), SessionState::SetupPhase1);
    assert_eq!(s.ports().unwrap().event_port, 5000);
    s.set_local_control_port(6010);
    let p2 = s.build_setup_phase2().unwrap();
    assert_eq!(p2.streams.len(), 1);
    assert_eq!(p2.streams[0].stream_type, 103);
    assert_eq!(p2.streams[0].control_port, 6010);
    assert_eq!(p2.streams[0].shk, s.stream_key().to_vec());
    let wrong = SetupPhase2Response { streams: vec![StreamResponse { stream_type: 96, data_port: 1, control_port: 2, stream_id: 0 }] };
    assert!(is_setup_failed(&s.process_setup_phase2_response(&wrong).unwrap_err(), "No matching stream in phase 2 response"));
    let right = SetupPhase2Response { streams: vec![StreamResponse { stream_type: 103, data_port: 6000, control_port: 6001, stream_id: 1 }] };
    s.process_setup_phase2_response(&right).unwrap();
    assert_eq!(s.state(), SessionState::Ready);
    let ports = s.ports().unwrap();
    assert_eq!((ports.data_port, ports.control_port, ports.event_port), (6000, 6001, 5000));
    assert!(s.pause().is_err());
    s.start_playing().unwrap();
    s.pause().unwrap();
    assert_eq!(s.state(), SessionState::Paused);
    s.start_teardown().unwrap();
    assert_eq!(s.state(), SessionState::TearingDown);
}

#[test]
fn uuid_text_is_hyphenated_hex() {
    let b: [u8; 16] = core::array::from_fn(|i| (i * 17) as u8);
    assert_eq!(uuid_string(&b, true), "00112233-4455-6677-8899-AABBCCDDEEFF");
    assert_eq!(uuid_string(&b, false), "00112233-4455-6677-8899-aabbccddeeff");
}

#[test]
fn session_uuid_is_version_4() {
    let s = RtspSession::new(&device(), StreamConfig::default()).unwrap();
    let id = s.id();
    assert_eq!(id[6] & 0xF0, 0x40);
    assert_eq!(id[8] & 0xC0, 0x80);
    let u = uuid_v4_from_bytes([0xFF; 16]);
    assert_eq!(u[6], 0x4F);
    assert_eq!(u[8], 0xBF);
    assert_eq!(u[0], 0xFF);
    let z = uuid_v4_from_bytes([0; 16]);
    assert_eq!(z, [0, 0, 0, 0, 0, 0, 0x40, 0, 0x80, 0, 0, 0, 0, 0, 0, 0]);
}

#[test]
fn setpeers_body_is_binary_plist_array() {
    let s = RtspSession::new(&device(), StreamConfig::default()).unwrap();
    let peers = vec!["10.0.0.1".to_string(), "10.0.0.2".to_string()];
    let body = s.build_setpeers(&peers).unwrap();
    assert_eq!(&body[..8], b"bplist00");
    let back: Vec<String> = plist::from_bytes(&body).unwrap();
    assert_eq!(back, peers);
}

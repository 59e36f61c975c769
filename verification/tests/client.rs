use airplay::audio::sender::RtpSender;
use airplay::audio::streamer::AudioStreamer;
use airplay::base::codec::{AudioCodec, AudioFormat};
use airplay::base::error::{DiscoveryError, Error, RtspError};
use airplay::base::net::{Endpoint, IpAddress};
use airplay::base::stream::{PtpMode, StreamConfig, StreamType, TimingProtocol};
use airplay::client::builder::ClientBuilder;
use airplay::client::connection::{local_timing_port, timing_plan, TimingPlan};
use airplay::client::control::{answer_control_datagram, parse_retransmit_request};
use airplay::client::group::{
    check_group_size, configure_group_streamer, configure_streamer, group_config, group_device_count, ipv4_text, needs_magic_cookie,
    peer_addresses,
};
use airplay::client::handshake::{add_default_rtsp_headers, device_id_from_bytes, generate_device_id};
use airplay::client::playback::{client_playback_state, PlaybackState};
use airplay::client::stats::StreamStats;
use airplay::rtsp::connection::RtspConnection;
use airplay::rtsp::request::RtspRequest;
use airplay::timing::clock::ClockOffset;

#[test]
fn builder_sets_configuration() {
    let (config, delay) = ClientBuilder::new().into_parts();
    assert_eq!(config.stream_type, StreamType::Realtime);
    assert_eq!(delay, 200);
    let (config, delay) = ClientBuilder::default().airplay2_buffered().render_delay_ms(50).into_parts();
    assert_eq!(config.stream_type, StreamType::Buffered);
    assert_eq!(config.timing_protocol, TimingProtocol::Ptp);
    assert_eq!(delay, 50);
    let mut fmt = AudioFormat::default();
    fmt.channels = 1;
    let (config, _) = ClientBuilder::new().airplay2_buffered().airplay1().audio_format(fmt).into_parts();
    assert_eq!(config.stream_type, StreamType::Realtime);
    assert_eq!(config.audio_format.channels, 1);
    let (config, _) = ClientBuilder::new().stream_config(StreamConfig::airplay2_buffered_ntp()).into_parts();
    assert_eq!(config.timing_protocol, TimingProtocol::Ntp);
}

#[test]
fn stats_count_per_device() {
    let mut s = StreamStats::with_device_count(2);
    s.record_request(Some(1), 5);
    s.record_fulfilled(Some(1), 3);
    s.record_request(None, 2);
    s.record_fulfilled(Some(9), 1);
    s.record_fulfilled(Some(0), 0);
    let snap = s.snapshot();
    assert_eq!(snap.rtx_requested, 7);
    assert_eq!(snap.rtx_fulfilled, 4);
    assert_eq!(snap.devices.len(), 2);
    assert_eq!((snap.devices[1].rtx_requested, snap.devices[1].rtx_fulfilled), (5, 3));
    assert_eq!((snap.devices[0].rtx_requested, snap.devices[0].rtx_fulfilled), (0, 0));
    assert!(s.device(1).is_some());
    assert!(s.device(2).is_none());
    assert!(StreamStats::new().device(0).is_none());
    let none = s.connection_snapshot(None);
    assert_eq!((none.packets_sent, none.underruns), (0, 0));
}

#[test]
fn control_datagrams_in_both_forms() {
    let short = [0x80, 0xD5, 0, 1, 0x00, 0x10, 0x00, 0x02];
    let q = parse_retransmit_request(&short).unwrap();
    assert_eq!((q.first_sequence, q.count), (16, 2));
    let long = [0x80, 0xD5, 0, 1, 0, 0, 0, 0, 0x00, 0x20, 0x00, 0x01];
    let q = parse_retransmit_request(&long).unwrap();
    assert_eq!((q.first_sequence, q.count), (32, 1));
    assert!(parse_retransmit_request(&[0x80, 0xD5, 0, 1, 0, 0, 0, 0, 0]).is_none());
    assert!(parse_retransmit_request(&[0x80, 0xD6, 0, 1, 0, 0, 0, 0]).is_none());
    assert!(parse_retransmit_request(&[0x80]).is_none());
}

#[test]
fn control_datagram_answered_from_history() {
    let mut st = AudioStreamer::new(StreamConfig::default());
    let mut sender = RtpSender::new(Endpoint::new(IpAddress::V4(1), 6000), 0);
    let p = sender.prepare_audio(96, 0, &[5, 5], false).unwrap();
    st.set_rtp_sender(sender);
    let mut stats = StreamStats::new();
    let answers = answer_control_datagram(&st, &mut stats, None, &[0x80, 0xD5, 0, 1, 0, 0, 0, 2]);
    assert_eq!(answers.len(), 1);
    assert_eq!(&answers[0][4..], &p[..]);
    assert_eq!(stats.snapshot().rtx_requested, 2);
    assert!(answer_control_datagram(&st, &mut stats, None, &[1, 2, 3]).is_empty());
    assert_eq!(stats.snapshot().rtx_requested, 2);
}

#[test]
fn device_ids_and_default_headers() {
    assert_eq!(device_id_from_bytes(&[0, 1, 0xAB, 0xCD, 0xEF, 0xFF]), "00:01:AB:CD:EF:FF");
    let id = generate_device_id().unwrap();
    assert_eq!(id.len(), 17);
    assert_eq!(id.matches(':').count(), 5);
    let mut c = RtspConnection::new(Endpoint::new(IpAddress::V4(1), 7000));
    add_default_rtsp_headers(&mut c, "AA:BB:CC:DD:EE:FF");
    let (bytes, _) = c.prepare_request(RtspRequest::options()).unwrap();
    let text = String::from_utf8(bytes).unwrap();
    assert!(text.contains("X-Apple-Device-ID: AA:BB:CC:DD:EE:FF\r\n"));
    assert!(text.contains("DACP-ID: AABBCCDDEEFF\r\n"));
    assert!(text.contains("Client-Instance: AABBCCDDEEFF\r\n"));
    assert!(text.contains("Active-Remote: 1234567890\r\n"));
}

#[test]
fn timing_choices() {
    let mut c = StreamConfig::default();
    assert_eq!(timing_plan(&c), TimingPlan::NtpServer);
    assert_eq!(local_timing_port(&c, 7011), 7011);
    c.timing_protocol = TimingProtocol::Ptp;
    assert_eq!(timing_plan(&c), TimingPlan::PtpMaster);
    assert_eq!(local_timing_port(&c, 7011), 319);
    c.ptp_mode = PtpMode::Slave;
    assert_eq!(timing_plan(&c), TimingPlan::PtpSlave);
}

#[test]
fn group_configuration_and_peers() {
    let g = group_config(StreamConfig::default());
    assert_eq!(g.timing_protocol, TimingProtocol::Ptp);
    assert_eq!(g.ptp_mode, PtpMode::Master);
    assert_eq!(g.stream_type, StreamType::Realtime);
    assert!(needs_magic_cookie(&g));
    let mut aac = g.clone();
    aac.audio_format.codec = AudioCodec::Aac;
    assert!(!needs_magic_cookie(&aac));
    assert_eq!(ipv4_text(0xC0A8_0102), "192.168.1.2");
    assert_eq!(ipv4_text(0), "0.0.0.0");
    let peers = peer_addresses(&[
        vec![IpAddress::V6(1), IpAddress::V4(0x0A00_0001)],
        vec![IpAddress::V6(2)],
        vec![IpAddress::V4(0x0A00_0002)],
    ]);
    assert_eq!(peers, vec!["10.0.0.1".to_string(), "10.0.0.2".to_string()]);
    assert_eq!(group_device_count(0), 0);
    assert_eq!(group_device_count(2), 3);
}

#[test]
fn group_streamer_needs_clock_id() {
    let senders = vec![RtpSender::new(Endpoint::new(IpAddress::V4(1), 6000), 0)];
    match configure_group_streamer(StreamConfig::default(), senders, None, None, 0) {
        Err(Error::Rtsp(RtspError::SetupFailed(m))) => assert_eq!(m, "No PTP clock ID for group streaming"),
        _ => panic!("expected a setup failure"),
    }
    let senders = vec![RtpSender::new(Endpoint::new(IpAddress::V4(1), 6000), 0)];
    let st = configure_group_streamer(StreamConfig::default(), senders, Some([1; 8]), Some(ClockOffset::new(0, 0, 0)), 100).unwrap();
    assert_eq!(st.render_time(1_000), Some(100_001_000));
    let single = configure_streamer(StreamConfig::default(), RtpSender::new(Endpoint::new(IpAddress::V4(1), 6000), 0), None, 0);
    assert_eq!(single.render_time(1_000), Some(1_000));
}

#[test]
fn playback_state_prefers_group() {
    assert_eq!(client_playback_state(Some(PlaybackState::Paused), Some(PlaybackState::Playing)), PlaybackState::Paused);
    assert_eq!(client_playback_state(None, Some(PlaybackState::Playing)), PlaybackState::Playing);
    assert_eq!(client_playback_state(None, None), PlaybackState::Stopped);
    assert!(PlaybackState::Buffering.is_active());
    assert!(!PlaybackState::Paused.is_active());
}

#[test]
fn group_needs_two_receivers() {
    assert!(matches!(check_group_size(0), Err(Error::Discovery(DiscoveryError::NoDevicesFound))));
    assert!(matches!(check_group_size(1), Err(Error::Discovery(DiscoveryError::NoDevicesFound))));
    assert!(check_group_size(2).is_ok());
    assert!(check_group_size(5).is_ok());
}

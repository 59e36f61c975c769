use airplay::audio::buffer::{AudioBuffer, AudioFrame, BufferError};
use airplay::audio::cipher::ChaChaPacketCipher;
use airplay::audio::encoder::{check_encoder_codec, EncodedPacket, PcmFramer};
use airplay::audio::live_decoder::cut_packet;
use airplay::audio::retransmit::RetransmitRequest;
use airplay::audio::sender::RtpSender;
use airplay::audio::sender_thread::{SenderAction, SenderEvent, SenderLoop, SenderMessage};
use airplay::audio::streamer::{AudioStreamer, BufferingAction, StreamerState};
use airplay::base::codec::{AudioCodec, AudioFormat};
use airplay::base::error::{Error, StreamingError};
use airplay::base::net::{Endpoint, IpAddress};
use airplay::base::stream::StreamConfig;
use airplay::crypto::chacha::AudioCipher;
use airplay::timing::clock::ClockOffset;

fn dest(port: u16) -> Endpoint {
    Endpoint::new(IpAddress::V4(0x0A00_0001), port)
}

#[test]
fn buffer_is_fifo_with_capacity() {
    let fmt = AudioFormat::default();
    let mut b = AudioBuffer::new(fmt, 20);
    // 44 samples per millisecond * 20 ms / 352 frames per packet.
    assert_eq!(b.capacity_frames(), 2);
    assert!(b.push(AudioFrame::new(vec![1, 2])).is_ok());
    assert!(b.push(AudioFrame::new(vec![3, 4])).is_ok());
    assert_eq!(b.push(AudioFrame::new(vec![5, 6])), Err(BufferError::Overflow));
    assert_eq!(b.len(), 2);
    assert_eq!(*b.pop().unwrap().samples, vec![1, 2]);
    let rest = b.flush();
    assert_eq!(rest.len(), 1);
    assert!(b.is_empty());
    assert!(b.pop().is_none());
    assert_eq!(AudioBuffer::new(fmt, 1).capacity_frames(), 1);
}

#[test]
fn framer_cuts_frames_and_stamps_them() {
    let mut fmt = AudioFormat::default();
    fmt.frames_per_packet = 2;
    let mut f = PcmFramer::new(fmt);
    assert_eq!(f.push_and_take(&[1, 2, 3]), vec![1, 2, 3]);
    assert_eq!(f.push_and_take(&[1, 2, 3, 4, 5, 6]), vec![1, 2, 3, 4]);
    assert_eq!(f.stamp(4), (2, 0));
    assert_eq!(f.stamp(4), (2, 2));
    assert_eq!(f.push_and_take(&[]), vec![5, 6]);
}

#[test]
fn only_alac_has_an_encoder() {
    assert!(check_encoder_codec(AudioFormat::default()).is_ok());
    let mut fmt = AudioFormat::default();
    fmt.codec = AudioCodec::Aac;
    match check_encoder_codec(fmt) {
        Err(Error::Streaming(StreamingError::InvalidFormat(m))) => assert_eq!(m, "Unsupported codec: Aac"),
        _ => panic!("expected an invalid-format error"),
    }
}

#[test]
fn cut_packet_waits_for_a_full_frame() {
    let (f, rest) = cut_packet(vec![1, 2, 3], 4);
    assert!(f.is_none());
    assert_eq!(rest, vec![1, 2, 3]);
    let (f, rest) = cut_packet(vec![1, 2, 3, 4, 5], 4);
    assert_eq!(f.unwrap().samples, vec![1, 2, 3, 4]);
    assert_eq!(rest, vec![5]);
}

#[test]
fn sender_numbers_packets_and_answers_retransmits() {
    let mut s = RtpSender::new(dest(6000), 0x01020304);
    let p0 = s.prepare_audio(96, 1000, &[0xAA, 0xBB], true).unwrap();
    assert_eq!(p0, vec![0x80, 0xE0, 0, 0, 0, 0, 0x03, 0xE8, 1, 2, 3, 4, 0xAA, 0xBB]);
    let p1 = s.prepare_audio(96, 1352, &[0xCC], false).unwrap();
    assert_eq!(&p1[..4], &[0x80, 0x60, 0, 1]);
    let answers = s.retransmit_responses(&RetransmitRequest { first_sequence: 0, count: 3 });
    assert_eq!(answers.len(), 2);
    assert_eq!(&answers[0][..4], &[0x80, 0xD6, 0, 0]);
    assert_eq!(&answers[0][4..], &p0[..]);
    assert_eq!(&answers[1][4..], &p1[..]);
}

#[test]
fn sync_packets_go_to_the_control_port() {
    let mut s = RtpSender::new(dest(6000), 0);
    s.set_control_dest(dest(0));
    assert_eq!(s.prepare_sync(10, 20).unwrap(), None);
    s.set_control_dest(dest(6001));
    let first = s.prepare_sync(0x11223344, 0x0102030405060708).unwrap().unwrap();
    assert_eq!(
        first,
        vec![0x90, 0xD4, 0, 0, 0x11, 0x22, 0x33, 0x44, 1, 2, 3, 4, 5, 6, 7, 8, 0x11, 0x22, 0x33, 0x44]
    );
    let second = s.prepare_sync(1, 2).unwrap().unwrap();
    assert_eq!(&second[..4], &[0x80, 0xD4, 0, 1]);
    s.reset_sync_state();
    assert_eq!(s.prepare_sync(1, 2).unwrap().unwrap()[0], 0x90);
    let ptp = s.prepare_ptp_sync(5, 1_500_000_000, 357, &[9; 8]).unwrap().unwrap();
    assert_eq!(ptp.len(), 28);
    assert_eq!(&ptp[..2], &[0x80, 0xD7]);
    assert_eq!(&ptp[8..12], &[0, 0, 0, 1]);
    assert_eq!(&ptp[12..16], &[0x80, 0, 0, 0]);
    assert_eq!(&ptp[20..], &[9; 8]);
}

#[test]
fn sealed_packets_carry_tag_and_nonce() {
    let mut s = RtpSender::new(dest(6000), 0);
    s.set_cipher(ChaChaPacketCipher::new(AudioCipher::new([3u8; 32])));
    let p = s.prepare_audio(96, 7, &[1, 2, 3, 4], false).unwrap();
    assert_eq!(p.len(), 12 + 4 + 16 + 8);
    assert_eq!(&p[p.len() - 8..], &[0, 0, 0, 0, 0, 0, 0, 0]);
}

fn packet(ts: u64) -> EncodedPacket {
    EncodedPacket { data: vec![1, 2, 3], samples: 352, timestamp: ts }
}

#[test]
fn streamer_buffers_then_streams() {
    let mut st = AudioStreamer::new(StreamConfig::default());
    assert_eq!(st.state(), StreamerState::Idle);
    assert_eq!(st.buffering_action(true, false), BufferingAction::Ready);
    assert_eq!(st.start_live().unwrap(), 7_981_859);
    assert_eq!(st.state(), StreamerState::Buffering);
    assert!(st.needs_refill());
    assert_eq!(st.buffering_action(true, false), BufferingAction::Wait);
    for _ in 0..30 {
        st.push_decoded(vec![0; 704]).unwrap();
    }
    assert_eq!(st.buffering_action(true, false), BufferingAction::Ready);
    assert_eq!(st.state(), StreamerState::Streaming);
    assert!(st.pause());
    assert!(!st.pause());
    assert_eq!(st.state(), StreamerState::Paused);
    assert!(st.resume());
    assert_eq!(st.state(), StreamerState::Streaming);
    st.stop();
    assert_eq!(st.state(), StreamerState::Stopped);
    assert!(st.next_frame().is_none());
    assert_eq!(st.underruns(), 1);
    assert_eq!(st.state(), StreamerState::Buffering);
    assert_eq!(st.buffering_action(true, true), BufferingAction::Stop);
    assert_eq!(st.state(), StreamerState::Stopped);
}

#[test]
fn streamer_refuses_codecs_without_encoder() {
    let mut st = AudioStreamer::new(StreamConfig::airplay2_buffered());
    match st.start_live() {
        Err(Error::Streaming(StreamingError::InvalidFormat(m))) => assert_eq!(m, "Unsupported codec: Aac"),
        _ => panic!("expected an invalid-format error"),
    }
    assert_eq!(st.state(), StreamerState::Idle);
}

#[test]
fn streamer_prepares_audio_and_sync() {
    let mut st = AudioStreamer::new(StreamConfig::default());
    let mut a = RtpSender::new(dest(6000), 0);
    a.set_control_dest(dest(6001));
    let b = RtpSender::new(dest(7000), 0);
    assert_eq!(st.prepare_packet(&packet(0), 1_000_000_000).unwrap().map(|p| p.0.len()), None);
    st.set_rtp_senders(vec![a, b]);
    st.set_render_delay_ms(200);
    st.set_timing_offset(ClockOffset::new(-5, 0, 0));
    assert_eq!(st.render_time(1_000_000_000), Some(1_199_999_995));
    let (wire, sync) = st.prepare_packet(&packet(1000), 1_000_000_000).unwrap().unwrap();
    assert_eq!(wire.len(), 2);
    assert_eq!(wire[0][1], 0xE0);
    assert_eq!(wire[1][1], 0xE0);
    let sync = sync.unwrap();
    assert_eq!(sync[0], 0x90);
    assert_eq!(&sync[4..8], &[0, 0, 0x03, 0xE8]);
    assert_eq!(st.position(), 1352);
    assert_eq!(st.packets_sent(), 1);
    let (wire, sync) = st.prepare_packet(&packet(1352), 1_000_000_000).unwrap().unwrap();
    assert_eq!(wire[0][1], 0x60);
    assert!(sync.is_none());
    let (_, sync) = st.prepare_packet(&packet(1000 + 44_100), 1_000_000_000).unwrap().unwrap();
    assert_eq!(sync.unwrap()[0], 0x80);
    assert_eq!(st.handle_retransmit_for_target(1, &RetransmitRequest { first_sequence: 1, count: 1 }).len(), 1);
    assert!(st.handle_retransmit_for_target(5, &RetransmitRequest { first_sequence: 1, count: 1 }).is_empty());
    st.reset_after_flush();
    let (wire, sync) = st.prepare_packet(&packet(99_999), 1_000_000_000).unwrap().unwrap();
    assert_eq!(wire[0][1], 0xE0);
    assert_eq!(sync.unwrap()[0], 0x90);
}

#[test]
fn streamer_uses_ptp_sync_when_set() {
    let mut st = AudioStreamer::new(StreamConfig::default());
    st.set_rtp_sender(RtpSender::new(dest(6000), 0));
    st.set_ptp_sync_mode([7; 8]);
    let (_, sync) = st.prepare_packet(&packet(0), 2_000_000_000).unwrap().unwrap();
    let sync = sync.unwrap();
    assert_eq!(sync[1], 0xD7);
    assert_eq!(&sync[16..20], &[0, 0, 0x01, 0x60]);
    assert_eq!(&sync[20..], &[7; 8]);
}

fn frame(tag: u8) -> SenderMessage {
    SenderMessage::Packet { wire_packets: vec![vec![tag], vec![tag + 1]], sync_data: Some(vec![0xEE]) }
}

#[test]
fn sender_loop_sends_bursts_on_deadline() {
    let mut l = SenderLoop::new(2, 8_000_000, 2);
    match l.on_event(SenderEvent::Message(frame(1)), 100) {
        SenderAction::SendBurst { wake_at_ns, datagrams } => {
            assert_eq!(wake_at_ns, None);
            let v: Vec<(usize, bool, Vec<u8>)> = datagrams.into_iter().map(|d| (d.target, d.control, d.bytes)).collect();
            assert_eq!(v, vec![(0, true, vec![0xEE]), (1, true, vec![0xEE]), (0, false, vec![1]), (1, false, vec![2])]);
        },
        _ => panic!("first frame goes out at once"),
    }
    assert!(l.deadline_fits());
    l.burst_sent(110);
    assert!(matches!(l.on_event(SenderEvent::Message(frame(3)), 200), SenderAction::Receive));
    match l.on_event(SenderEvent::Message(frame(5)), 300) {
        SenderAction::SendBurst { wake_at_ns, datagrams } => {
            assert_eq!(wake_at_ns, Some(16_000_100));
            assert_eq!(datagrams.len(), 8);
        },
        _ => panic!("a full burst goes out"),
    }
    l.burst_sent(100_000_000);
    assert!(matches!(l.on_event(SenderEvent::Timeout, 1), SenderAction::Receive));
    assert!(matches!(l.on_event(SenderEvent::Message(SenderMessage::Pause), 1), SenderAction::Receive));
    assert!(matches!(l.on_event(SenderEvent::Message(frame(7)), 1), SenderAction::Receive));
    assert!(matches!(l.on_event(SenderEvent::Disconnected, 1), SenderAction::Receive));
    assert!(matches!(l.on_event(SenderEvent::Message(SenderMessage::Resume), 5), SenderAction::Receive));
    assert!(matches!(l.on_event(SenderEvent::Disconnected, 6), SenderAction::Exit));
    assert!(matches!(l.on_event(SenderEvent::Message(SenderMessage::Stop), 6), SenderAction::Exit));
}

#[test]
fn streamer_with_a_sender_always_yields_packets() {
    let mut st = AudioStreamer::new(StreamConfig::default());
    st.set_rtp_sender(RtpSender::new(dest(6000), 0));
    for k in 0..3u64 {
        let out = st.prepare_packet(&packet(k * 352), 1_000_000_000).unwrap();
        assert!(out.is_some());
    }
    assert_eq!(st.packets_sent(), 3);
    assert!(st.next_frame().is_none());
}

#[test]
fn packets_keep_numbering_and_stay_resendable_for_512() {
    let mut s = RtpSender::new(dest(6000), 7);
    let mut first = Vec::new();
    for k in 0..600u32 {
        let p = s.prepare_audio(96, k * 352, &[k as u8], k == 0).unwrap();
        assert_eq!(u16::from_be_bytes([p[2], p[3]]) as u32, k);
        if k == 100 {
            first = p.clone();
        }
    }
    let gone = s.retransmit_responses(&RetransmitRequest { first_sequence: 87, count: 1 });
    assert!(gone.is_empty());
    let kept = s.retransmit_responses(&RetransmitRequest { first_sequence: 100, count: 1 });
    assert_eq!(&kept[0][4..], &first[..]);
    let late = s.retransmit_responses(&RetransmitRequest { first_sequence: 88, count: 1 });
    assert_eq!(late.len(), 1);
    let all = s.retransmit_responses(&RetransmitRequest { first_sequence: 500, count: 200 });
    assert_eq!(all.len(), 100);
}

#[test]
fn stream_marks_only_the_first_packet_until_a_flush() {
    let mut st = AudioStreamer::new(StreamConfig::default());
    st.set_rtp_sender(RtpSender::new(dest(6000), 0));
    let mut ts = 0u64;
    for k in 0..4 {
        let (wire, _) = st.prepare_packet(&packet(ts), 1_000_000_000).unwrap().unwrap();
        assert_eq!(wire[0][1] & 0x80 != 0, k == 0);
        assert_eq!(u32::from_be_bytes([wire[0][4], wire[0][5], wire[0][6], wire[0][7]]) as u64, ts);
        ts += 352;
    }
    assert_eq!(st.packets_sent(), 4);
    st.reset_after_flush();
    let (wire, sync) = st.prepare_packet(&packet(ts), 1_000_000_000).unwrap().unwrap();
    assert!(wire[0][1] & 0x80 != 0);
    assert!(sync.is_some());
}

//! The streaming state machine: when to buffer, when to stop, and the packets that go out
//! for each encoded frame. Decoding, encoding, sockets, channels and sleeping stay with the
//! caller, which runs the loop and hands each decision its inputs.
use crate::audio::buffer::{capacity_for, AudioBuffer, AudioFrame, BufferError};
use crate::audio::encoder::{check_encoder_codec, codec_name, EncodedPacket};
use crate::audio::retransmit::RetransmitRequest;
use crate::audio::sender::{
    audio_header, audio_wire, ntp_sync_packet, ptp_sync_packet, retransmit_answers, RtpSender,
};
use crate::base::codec::{hz_of, AudioCodec, AudioFormat};
use crate::base::error::{Error, StreamingError};
use crate::base::stream::{stream_type_value, StreamConfig};
use crate::protocol::next_airplay_packet_timestamp;
use crate::timing::clock::{apply_offset_spec, as_signed, unix_to_ntp, unix_to_ntp_spec, Clock, ClockOffset};
use vstd::prelude::*;

verus! {

/// How much audio the buffer holds, in milliseconds.
pub const DEFAULT_BUFFER_CAPACITY_MS: u32 = 2000;

/// Below this fill (percent of capacity) the caller decodes more audio.
pub const BUFFER_LOW_WATERMARK_PERCENT: u64 = 40;

/// Above this fill (percent of capacity) buffering ends and streaming starts.
pub const BUFFER_RESUME_FILL_PERCENT: u64 = 10;

/// How many decoded frames one refill takes at most.
pub const DECODE_BATCH_LIMIT: usize = 3;

pub const NANOS_PER_MILLI: u64 = 1_000_000;

#[derive(Debug, Clone, Copy, PartialEq, Eq, Structural)]
pub enum StreamerState {
    Idle,
    Buffering,
    Streaming,
    Paused,
    Stopped,
    Error,
}

/// What the streaming loop does after a buffering check.
#[derive(Debug, Clone, Copy, PartialEq, Eq, Structural)]
pub enum BufferingAction {
    /// Send the next frame.
    Ready,
    /// Sleep a little and check again.
    Wait,
    /// The source is exhausted: stop.
    Stop,
}

/// The scalar state of a streamer.
#[derive(Debug, Clone, Copy)]
pub struct StreamerControl {
    pub state: StreamerState,
    pub current_timestamp: u64,
    pub last_sync_rtp: u32,
    pub clock_offset: Option<ClockOffset>,
    pub first_packet_sent: bool,
    pub render_delay_ns: u64,
    pub use_ptp_sync: bool,
    pub ptp_master_clock_id: [u8; 8],
    pub packets_sent: u64,
    pub underruns: u64,
}

pub struct AudioStreamer {
    state: StreamerState,
    config: StreamConfig,
    buffer: AudioBuffer,
    rtp_senders: Vec<RtpSender>,
    current_timestamp: u64,
    last_sync_rtp: u32,
    clock: Clock,
    clock_offset: Option<ClockOffset>,
    first_packet_sent: bool,
    render_delay_ns: u64,
    use_ptp_sync: bool,
    ptp_master_clock_id: [u8; 8],
    packets_sent: u64,
    underruns: u64,
}

/// The state of a new streamer: idle, nothing sent, no offset, no delay, NTP-style sync.
pub open spec fn initial_control() -> StreamerControl {
    StreamerControl {
        state: StreamerState::Idle,
        current_timestamp: 0,
        last_sync_rtp: 0,
        clock_offset: None,
        first_packet_sent: false,
        render_delay_ns: 0,
        use_ptp_sync: false,
        ptp_master_clock_id: [0u8, 0, 0, 0, 0, 0, 0, 0],
        packets_sent: 0,
        underruns: 0,
    }
}

/// The fill of `len` frames out of `capacity` is below `percent` percent.
pub open spec fn fill_below(len: nat, capacity: nat, percent: nat) -> bool {
    len * 100 < percent * capacity
}

/// The fill of `len` frames out of `capacity` is above `percent` percent.
pub open spec fn fill_above(len: nat, capacity: nat, percent: nat) -> bool {
    len * 100 > percent * capacity
}

/// The duration of one packet of `frames_per_packet` frames at `hz`, in nanoseconds
/// (rounded down).
pub open spec fn frame_duration_spec(frames_per_packet: u32, hz: u32) -> u64 {
    (frames_per_packet as nat * 1_000_000_000 / hz as nat) as u64
}

/// A sync packet goes out with the first packet, when none has gone out yet, and once a
/// second of audio (by the wrapping RTP clock) has passed since the last one.
pub open spec fn needs_sync(first_packet: bool, last_sync_rtp: u32, rtp_ts: u32, sample_rate: u32) -> bool {
    first_packet || last_sync_rtp == 0 || (rtp_ts - last_sync_rtp) % 0x1_0000_0000 >= sample_rate
}

/// The control state after a packet stamped `timestamp` with `samples` samples went out:
/// the last sync timestamp moves to its RTP timestamp when a sync went with it, the first
/// packet is sent, the position moves past it and one more packet counts as sent.
pub open spec fn control_after_packet(c: StreamerControl, timestamp: u64, samples: u32, sample_rate: u32) -> StreamerControl {
    let rtp_ts = timestamp as u32;
    StreamerControl {
        last_sync_rtp: if needs_sync(!c.first_packet_sent, c.last_sync_rtp, rtp_ts, sample_rate) {
            rtp_ts
        } else {
            c.last_sync_rtp
        },
        first_packet_sent: true,
        current_timestamp: (timestamp + samples) as u64,
        packets_sent: ((c.packets_sent + 1) % 0x1_0000_0000_0000_0000) as u64,
        ..c
    }
}

/// The packets of a stream from a start or a flush on, stamped as the PCM framer stamps
/// them (the first at 0, each next one at the previous stamp plus its sample count):
/// the `k`-th packet's RTP timestamp is the sum of the earlier sample counts modulo 2^32,
/// only the first carries the marker and always comes with a sync, a later one comes with
/// a sync exactly when no sync timestamp is recorded or a sample rate's worth of RTP time
/// has passed since the last synced packet, and each packet counts one more sent.
pub proof fn law_packet_stream(controls: Seq<StreamerControl>, stamps: Seq<(u64, u32)>, sample_rate: u32)
    requires
        controls.len() == stamps.len() + 1,
        !controls[0].first_packet_sent,
        stamps.len() > 0 ==> stamps[0].0 == 0,
        forall|k: int| 0 <= k < stamps.len() - 1 ==> #[trigger] stamps[k + 1].0 == stamps[k].0 + stamps[k].1,
        forall|k: int|
            0 <= k < stamps.len() ==> #[trigger] controls[k + 1] == control_after_packet(
                controls[k],
                stamps[k].0,
                stamps[k].1,
                sample_rate,
            ),
    ensures
        forall|k: int| 0 <= k < stamps.len() ==> (!(#[trigger] controls[k]).first_packet_sent <==> k == 0),
        forall|k: int|
            0 <= k <= stamps.len() ==> (#[trigger] controls[k]).packets_sent == (controls[0].packets_sent + k)
                % 0x1_0000_0000_0000_0000,
        stamps.len() > 0 ==> (stamps[0].0 as u32) == 0 && needs_sync(
            !controls[0].first_packet_sent,
            controls[0].last_sync_rtp,
            stamps[0].0 as u32,
            sample_rate,
        ),
        forall|k: int|
            0 < k < stamps.len() ==> ((#[trigger] stamps[k]).0 as u32) as int == ((stamps[k - 1].0 as u32) + stamps[k - 1].1)
                % 0x1_0000_0000,
        forall|k: int|
            0 < k < stamps.len() ==> (needs_sync(
                !(#[trigger] controls[k]).first_packet_sent,
                controls[k].last_sync_rtp,
                stamps[k].0 as u32,
                sample_rate,
            ) <==> (controls[k].last_sync_rtp == 0 || ((stamps[k].0 as u32) - controls[k].last_sync_rtp)
                % 0x1_0000_0000 >= sample_rate)),
    decreases stamps.len(),
{
    let n = stamps.len() as int;
    if n > 0 {
        let c2 = controls.take(n);
        let s2 = stamps.take(n - 1);
        assert forall|k: int| 0 <= k < s2.len() - 1 implies #[trigger] s2[k + 1].0 == s2[k].0 + s2[k].1 by {
            assert(s2[k + 1] == stamps[k + 1] && s2[k] == stamps[k]);
        }
        assert forall|k: int| 0 <= k < s2.len() implies #[trigger] c2[k + 1] == control_after_packet(
            c2[k],
            s2[k].0,
            s2[k].1,
            sample_rate,
        ) by {
            assert(c2[k + 1] == controls[k + 1] && c2[k] == controls[k] && s2[k] == stamps[k]);
        }
        law_packet_stream(c2, s2, sample_rate);
        assert forall|k: int| 0 <= k < n implies (!(#[trigger] controls[k]).first_packet_sent <==> k == 0) by {
            if k > 0 {
                let j = k - 1;
                assert(controls[j + 1] == control_after_packet(controls[j], stamps[j].0, stamps[j].1, sample_rate));
            }
        }
        assert forall|k: int|
            0 <= k <= n implies (#[trigger] controls[k]).packets_sent == (controls[0].packets_sent + k)
                % 0x1_0000_0000_0000_0000 by {
            if k < n {
                assert(c2[k] == controls[k]);
            } else {
                assert(c2[n - 1] == controls[n - 1]);
                assert(controls[n] == control_after_packet(controls[n - 1], stamps[n - 1].0, stamps[n - 1].1, sample_rate));
            }
        }
        assert forall|k: int|
            0 < k < n implies ((#[trigger] stamps[k]).0 as u32) as int == ((stamps[k - 1].0 as u32) + stamps[k - 1].1)
                % 0x1_0000_0000 by {
            let j = k - 1;
            let a = stamps[j].0;
            let b = stamps[j].1;
            if j < n - 1 {
                assert(stamps[j + 1].0 == a + b);
            }
            lemma_truncate_sum(a, b);
        }
    }
}

/// Truncating a sum to 32 bits is adding the truncated parts modulo 2^32.
proof fn lemma_truncate_sum(a: u64, b: u32)
    requires
        a + b <= u64::MAX,
    ensures
        (((a + b) as u64) as u32) as int == ((a as u32) + b) % 0x1_0000_0000,
{
    let s: u64 = (a + b) as u64;
    assert((s as u32) as int == s % 0x1_0000_0000) by (bit_vector);
    assert((a as u32) as int == a % 0x1_0000_0000) by (bit_vector);
    assert(s % 0x1_0000_0000 == ((a % 0x1_0000_0000) + b) % 0x1_0000_0000) by (nonlinear_arith)
        requires
            s == a + b,
            b < 0x1_0000_0000,
    ;
}

/// The local wall time corrected by the clock offset, if one is known.
pub open spec fn adjusted_wall(offset: Option<ClockOffset>, local_wall_ns: u64) -> int {
    match offset {
        Some(o) => apply_offset_spec(local_wall_ns, o.offset_ns) as int,
        None => local_wall_ns as int,
    }
}

/// The offset can be applied to the local wall time without leaving 64 bits.
pub open spec fn offset_fits(offset: Option<ClockOffset>, local_wall_ns: u64) -> bool {
    match offset {
        Some(o) => i64::MIN <= as_signed(local_wall_ns) + o.offset_ns <= i64::MAX,
        None => true,
    }
}

/// When the frame sent at `local_wall_ns` is to be played: the corrected wall time plus
/// the render delay, or `None` where that leaves 64 bits.
pub open spec fn render_time_spec(c: StreamerControl, local_wall_ns: u64) -> Option<u64> {
    if offset_fits(c.clock_offset, local_wall_ns) && adjusted_wall(c.clock_offset, local_wall_ns)
        + c.render_delay_ns <= u64::MAX {
        Some((adjusted_wall(c.clock_offset, local_wall_ns) + c.render_delay_ns) as u64)
    } else {
        None
    }
}


/// The view of an optional byte vector.
pub open spec fn opt_bytes_view(o: Option<Vec<u8>>) -> Option<Seq<u8>> {
    match o {
        Some(v) => Some(v@),
        None => None,
    }
}

/// The sync packet a sender produces at a sync opportunity: none where no sync is due or
/// the sender has no port to send it to; else the PTP or the NTP form, stamped with the
/// render time.
pub open spec fn sync_outcome(
    s: RtpSender,
    need: bool,
    ptp: bool,
    rtp_ts: u32,
    render_ns: u64,
    sample_rate: u32,
    clock_id: [u8; 8],
) -> Option<Seq<u8>> {
    if !need || s.sync_dest().port == 0 {
        None
    } else if ptp {
        Some(
            ptp_sync_packet(
                s.first_sync_sent(),
                s.sync_sequence(),
                rtp_ts,
                render_ns,
                ((rtp_ts + (sample_rate / 44_100) * 352) % 0x1_0000_0000) as u32,
                clock_id@,
            ),
        )
    } else {
        Some(ntp_sync_packet(s.first_sync_sent(), s.sync_sequence(), rtp_ts, unix_to_ntp_spec(render_ns)))
    }
}

/// `after` is `before` once it has produced the audio packet `wire` (and the sync packet
/// `sync`, if any).
pub open spec fn sender_step(
    before: RtpSender,
    after: RtpSender,
    wire: Seq<u8>,
    payload_type: u8,
    rtp_ts: u32,
    payload: Seq<u8>,
    marker: bool,
    sync: Option<Seq<u8>>,
) -> bool {
    &&& after.wf()
    &&& after.dest() == before.dest()
    &&& after.control_dest() == before.control_dest()
    &&& after.ssrc() == before.ssrc()
    &&& after.cipher_key() == before.cipher_key()
    &&& wire == audio_wire(
        before.cipher_key(),
        audio_header(payload_type, before.sequence(), rtp_ts, before.ssrc(), marker),
        payload,
    )
    &&& after.sequence() == (before.sequence() + 1) % 0x1_0000
    &&& after.history() == before.history().update((before.sequence() as int) % 512, Some(wire))
    &&& match sync {
        None => after.sync_sequence() == before.sync_sequence() && after.first_sync_sent()
            == before.first_sync_sent(),
        Some(_) => after.sync_sequence() == (before.sync_sequence() + 1) % 0x1_0000
            && after.first_sync_sent(),
    }
}

/// Some sender seals its packets and the payload is too long for the cipher's counter.
pub open spec fn payload_too_long(senders: Seq<RtpSender>, payload_len: nat) -> bool {
    exists|i: int| 0 <= i < senders.len() && (#[trigger] senders[i]).cipher_key() is Some && payload_len / 64
        >= 0xFFFF_FFFF
}

/// One sender's share of a frame: the sync packet first where `with_sync`, then the audio
/// packet.
fn sender_packets(
    s: &mut RtpSender,
    with_sync: bool,
    use_ptp_sync: bool,
    rtp_ts: u32,
    render_ns: u64,
    ntp: u64,
    sample_rate: u32,
    clock_id: &[u8; 8],
    payload_type: u8,
    payload: &[u8],
    marker: bool,
) -> (r: Result<(Vec<u8>, Option<Vec<u8>>), Error>)
    requires
        old(s).wf(),
        ntp == unix_to_ntp_spec(render_ns),
    ensures
        final(s).wf(),
        (r is Err) <==> (old(s).cipher_key() is Some && payload@.len() / 64 >= 0xFFFF_FFFF),
        r matches Ok(out) ==> {
            &&& opt_bytes_view(out.1) == sync_outcome(*old(s), with_sync, use_ptp_sync, rtp_ts, render_ns, sample_rate, *clock_id)
            &&& sender_step(*old(s), *final(s), out.0@, payload_type, rtp_ts, payload@, marker, opt_bytes_view(out.1))
        },
{
    let mut sync: Option<Vec<u8>> = None;
    if with_sync {
        let res = if use_ptp_sync {
            let next_rtp_ts = next_airplay_packet_timestamp(rtp_ts, sample_rate);
            s.prepare_ptp_sync(rtp_ts, render_ns, next_rtp_ts, clock_id)
        } else {
            s.prepare_sync(rtp_ts, ntp)
        };
        match res {
            Ok(o) => {
                sync = o;
            },
            Err(e) => {
                return Err(e);
            },
        }
    }
    match s.prepare_audio(payload_type, rtp_ts, payload, marker) {
        Ok(wire) => Ok((wire, sync)),
        Err(e) => Err(e),
    }
}

/// Every sender's share of a frame, in order; only the first sends the sync packet. A
/// failure leaves the senders well formed and stops at the failing one.
fn prepare_for_senders(
    senders: &mut Vec<RtpSender>,
    need_sync: bool,
    use_ptp_sync: bool,
    rtp_ts: u32,
    render_ns: u64,
    ntp: u64,
    sample_rate: u32,
    clock_id: &[u8; 8],
    payload_type: u8,
    payload: &[u8],
    marker: bool,
) -> (r: Result<(Vec<Vec<u8>>, Option<Vec<u8>>), Error>)
    requires
        old(senders)@.len() > 0,
        forall|j: int| 0 <= j < old(senders)@.len() ==> (#[trigger] old(senders)@[j]).wf(),
        ntp == unix_to_ntp_spec(render_ns),
    ensures
        final(senders)@.len() == old(senders)@.len(),
        forall|j: int| 0 <= j < final(senders)@.len() ==> (#[trigger] final(senders)@[j]).wf(),
        (r is Err) <==> payload_too_long(old(senders)@, payload@.len()),
        r matches Ok(out) ==> {
            let sync = sync_outcome(old(senders)@[0], need_sync, use_ptp_sync, rtp_ts, render_ns, sample_rate, *clock_id);
            &&& opt_bytes_view(out.1) == sync
            &&& out.0@.len() == old(senders)@.len()
            &&& forall|j: int|
                0 <= j < old(senders)@.len() ==> sender_step(
                    old(senders)@[j],
                    #[trigger] final(senders)@[j],
                    out.0@[j]@,
                    payload_type,
                    rtp_ts,
                    payload@,
                    marker,
                    if j == 0 {
                        sync
                    } else {
                        None
                    },
                )
        },
{
    let n = senders.len();
    let ghost olds = senders@;
    let ghost sync_spec = sync_outcome(olds[0], need_sync, use_ptp_sync, rtp_ts, render_ns, sample_rate, *clock_id);
    let mut sync_data: Option<Vec<u8>> = None;
    let mut wire_packets: Vec<Vec<u8>> = Vec::new();
    let mut i: usize = 0;
    while i < n
        invariant
            0 <= i <= n,
            n == olds.len(),
            n > 0,
            olds == old(senders)@,
            senders@.len() == n,
            ntp == unix_to_ntp_spec(render_ns),
            sync_spec == sync_outcome(olds[0], need_sync, use_ptp_sync, rtp_ts, render_ns, sample_rate, *clock_id),
            forall|j: int| 0 <= j < n ==> (#[trigger] senders@[j]).wf(),
            forall|j: int| i <= j < n ==> senders@[j] == olds[j],
            wire_packets@.len() == i,
            i > 0 ==> opt_bytes_view(sync_data) == sync_spec,
            forall|j: int|
                0 <= j < i ==> sender_step(
                    olds[j],
                    #[trigger] senders@[j],
                    wire_packets@[j]@,
                    payload_type,
                    rtp_ts,
                    payload@,
                    marker,
                    if j == 0 {
                        sync_spec
                    } else {
                        None
                    },
                ),
            forall|j: int|
                0 <= j < i ==> !((#[trigger] olds[j]).cipher_key() is Some && payload@.len() / 64 >= 0xFFFF_FFFF),
        decreases n - i,
    {
        let ghost prev = senders@;
        let mut s = senders.remove(i);
        let with_sync = i == 0 && need_sync;
        let res = sender_packets(
            &mut s,
            with_sync,
            use_ptp_sync,
            rtp_ts,
            render_ns,
            ntp,
            sample_rate,
            clock_id,
            payload_type,
            payload,
            marker,
        );
        let ghost after = s;
        senders.insert(i, s);
        assert(senders@ =~= prev.update(i as int, after));
        match res {
            Ok((wire, sync)) => {
                proof {
                    if i == 0 {
                        assert(opt_bytes_view(sync) == sync_spec);
                    } else {
                        assert(opt_bytes_view(sync) is None);
                    }
                }
                let ghost wv = wire@;
                wire_packets.push(wire);
                if i == 0 {
                    sync_data = sync;
                }
                assert(wire_packets@[i as int]@ == wv);
            },
            Err(e) => {
                proof {
                    assert(payload_too_long(olds, payload@.len())) by {
                        assert(olds[i as int].cipher_key() is Some);
                    }
                }
                return Err(e);
            },
        }
        i = i + 1;
    }
    Ok((wire_packets, sync_data))
}

/// The control state after `pause`: a streaming streamer is paused, any other is left.
pub open spec fn pause_outcome(c: StreamerControl) -> StreamerControl {
    if c.state == StreamerState::Streaming {
        StreamerControl { state: StreamerState::Paused, ..c }
    } else {
        c
    }
}

/// The control state after `resume`: a paused streamer streams again, any other is left.
pub open spec fn resume_outcome(c: StreamerControl) -> StreamerControl {
    if c.state == StreamerState::Paused {
        StreamerControl { state: StreamerState::Streaming, ..c }
    } else {
        c
    }
}

/// Resuming undoes pausing: a streaming streamer that is paused and resumed is back where
/// it was, and so is a paused one that is resumed and paused.
pub proof fn law_pause_resume_undo(c: StreamerControl)
    ensures
        c.state == StreamerState::Streaming ==> resume_outcome(pause_outcome(c)) == c,
        c.state == StreamerState::Paused ==> pause_outcome(resume_outcome(c)) == c,
        c.state != StreamerState::Streaming && c.state != StreamerState::Paused ==> pause_outcome(c) == c
            && resume_outcome(c) == c,
{
}

impl AudioStreamer {
    /// All senders are well formed and the buffer holds audio of the configured format.
    pub closed spec fn wf(&self) -> bool {
        &&& forall|i: int| 0 <= i < self.rtp_senders@.len() ==> (#[trigger] self.rtp_senders@[i]).wf()
        &&& self.buffer.format() == self.config.audio_format
    }

    pub closed spec fn control(&self) -> StreamerControl {
        StreamerControl {
            state: self.state,
            current_timestamp: self.current_timestamp,
            last_sync_rtp: self.last_sync_rtp,
            clock_offset: self.clock_offset,
            first_packet_sent: self.first_packet_sent,
            render_delay_ns: self.render_delay_ns,
            use_ptp_sync: self.use_ptp_sync,
            ptp_master_clock_id: self.ptp_master_clock_id,
            packets_sent: self.packets_sent,
            underruns: self.underruns,
        }
    }

    pub closed spec fn config(&self) -> StreamConfig {
        self.config
    }

    pub closed spec fn buffer(&self) -> AudioBuffer {
        self.buffer
    }

    pub closed spec fn senders(&self) -> Seq<RtpSender> {
        self.rtp_senders@
    }

    /// An idle streamer for `config`, with a two-second buffer and no senders.
    pub fn new(config: StreamConfig) -> (r: Self)
        ensures
            r.wf(),
            r.config() == config,
            r.buffer().frames().len() == 0,
            r.buffer().capacity() == capacity_for(config.audio_format, DEFAULT_BUFFER_CAPACITY_MS),
            r.senders().len() == 0,
            r.control() == initial_control(),
    {
        let audio_format = config.audio_format;
        assert(hz_of(audio_format.sample_rate) <= 48_000);
        Self {
            state: StreamerState::Idle,
            config,
            buffer: AudioBuffer::new(audio_format, DEFAULT_BUFFER_CAPACITY_MS),
            rtp_senders: Vec::new(),
            current_timestamp: 0,
            last_sync_rtp: 0,
            clock: Clock::new(),
            clock_offset: None,
            first_packet_sent: false,
            render_delay_ns: 0,
            use_ptp_sync: false,
            ptp_master_clock_id: [0u8, 0, 0, 0, 0, 0, 0, 0],
            packets_sent: 0,
            underruns: 0,
        }
    }

    /// Streams to one receiver.
    pub fn set_rtp_sender(&mut self, sender: RtpSender)
        requires
            old(self).wf(),
            sender.wf(),
        ensures
            final(self).wf(),
            final(self).senders() == seq![sender],
            final(self).control() == old(self).control(),
            final(self).config() == old(self).config(),
            final(self).buffer() == old(self).buffer(),
    {
        self.rtp_senders = vec![sender];
    }

    /// Streams to several receivers, the first of which also gets the sync packets.
    pub fn set_rtp_senders(&mut self, senders: Vec<RtpSender>)
        requires
            old(self).wf(),
            forall|i: int| 0 <= i < senders@.len() ==> (#[trigger] senders@[i]).wf(),
        ensures
            final(self).wf(),
            final(self).senders() == senders@,
            final(self).control() == old(self).control(),
            final(self).config() == old(self).config(),
            final(self).buffer() == old(self).buffer(),
    {
        self.rtp_senders = senders;
    }

    /// Sync packets are sent in the PTP form, naming `clock_id` as the master.
    pub fn set_ptp_sync_mode(&mut self, clock_id: [u8; 8])
        requires
            old(self).wf(),
        ensures
            final(self).wf(),
            final(self).control() == (StreamerControl {
                use_ptp_sync: true,
                ptp_master_clock_id: clock_id,
                ..old(self).control()
            }),
            final(self).senders() == old(self).senders(),
            final(self).config() == old(self).config(),
            final(self).buffer() == old(self).buffer(),
    {
        self.use_ptp_sync = true;
        self.ptp_master_clock_id = clock_id;
    }

    /// Packets are stamped to be played `delay_ms` milliseconds later.
    pub fn set_render_delay_ms(&mut self, delay_ms: u32)
        requires
            old(self).wf(),
        ensures
            final(self).wf(),
            final(self).control() == (StreamerControl {
                render_delay_ns: (delay_ms * NANOS_PER_MILLI) as u64,
                ..old(self).control()
            }),
            final(self).senders() == old(self).senders(),
            final(self).config() == old(self).config(),
            final(self).buffer() == old(self).buffer(),
    {
        self.render_delay_ns = delay_ms as u64 * NANOS_PER_MILLI;
    }

    /// Uses `offset` to correct the local clock from now on.
    pub fn set_timing_offset(&mut self, offset: ClockOffset)
        requires
            old(self).wf(),
        ensures
            final(self).wf(),
            final(self).control() == (StreamerControl { clock_offset: Some(offset), ..old(self).control() }),
            final(self).senders() == old(self).senders(),
            final(self).config() == old(self).config(),
            final(self).buffer() == old(self).buffer(),
    {
        self.clock_offset = Some(offset);
    }

    pub fn state(&self) -> (r: StreamerState)
        ensures
            r == self.control().state,
    {
        self.state
    }

    /// Audio packets prepared so far (modulo 2^64).
    pub fn packets_sent(&self) -> (r: u64)
        ensures
            r == self.control().packets_sent,
    {
        self.packets_sent
    }

    /// Times the buffer was found empty while streaming (modulo 2^64).
    pub fn underruns(&self) -> (r: u64)
        ensures
            r == self.control().underruns,
    {
        self.underruns
    }

    /// The RTP timestamp that follows the last packet prepared.
    pub fn position(&self) -> (r: u64)
        ensures
            r == self.control().current_timestamp,
    {
        self.current_timestamp
    }

    /// The answers to a retransmission request from the first receiver.
    pub fn handle_retransmit(&self, request: &RetransmitRequest) -> (r: Vec<Vec<u8>>)
        requires
            self.wf(),
        ensures
            r@.map_values(|v: Vec<u8>| v@) == (if self.senders().len() > 0 {
                retransmit_answers(self.senders()[0].history(), request.first_sequence, request.count as nat)
            } else {
                Seq::<Seq<u8>>::empty()
            }),
    {
        self.handle_retransmit_for_target(0, request)
    }

    /// The answers to a retransmission request from receiver `index`; none for a receiver
    /// that does not exist.
    pub fn handle_retransmit_for_target(&self, index: usize, request: &RetransmitRequest) -> (r: Vec<
        Vec<u8>,
    >)
        requires
            self.wf(),
        ensures
            r@.map_values(|v: Vec<u8>| v@) == (if index < self.senders().len() {
                retransmit_answers(
                    self.senders()[index as int].history(),
                    request.first_sequence,
                    request.count as nat,
                )
            } else {
                Seq::<Seq<u8>>::empty()
            }),
    {
        if index < self.rtp_senders.len() {
            self.rtp_senders[index].retransmit_responses(request)
        } else {
            let r: Vec<Vec<u8>> = Vec::new();
            assert(r@.map_values(|v: Vec<u8>| v@) =~= Seq::<Seq<u8>>::empty());
            r
        }
    }

    /// Starts a live stream: the codec must have an encoder; the streamer then buffers.
    /// Gives the duration of one packet in nanoseconds.
    pub fn start_live(&mut self) -> (r: Result<u64, Error>)
        requires
            old(self).wf(),
        ensures
            final(self).wf(),
            final(self).senders() == old(self).senders(),
            final(self).config() == old(self).config(),
            final(self).buffer() == old(self).buffer(),
            old(self).config().audio_format.codec != AudioCodec::Alac ==> (r matches Err(
                Error::Streaming(StreamingError::InvalidFormat(m)),
            ) && m@ == "Unsupported codec: "@ + codec_name(old(self).config().audio_format.codec))
                && final(self).control() == old(self).control(),
            old(self).config().audio_format.codec == AudioCodec::Alac ==> r == Ok::<u64, Error>(
                frame_duration_spec(
                    old(self).config().audio_format.frames_per_packet,
                    hz_of(old(self).config().audio_format.sample_rate),
                ),
            ) && final(self).control() == (StreamerControl {
                state: StreamerState::Buffering,
                ..old(self).control()
            }),
    {
        let format = self.config.audio_format;
        match check_encoder_codec(format) {
            Ok(()) => {},
            Err(e) => {
                return Err(e);
            },
        }
        self.state = StreamerState::Buffering;
        let hz = format.sample_rate.as_hz();
        assert(hz > 0);
        let fpp: u64 = format.frames_per_packet as u64;
        assert(fpp * 1_000_000_000 <= u64::MAX) by (nonlinear_arith)
            requires
                fpp <= u32::MAX,
        ;
        Ok(fpp * 1_000_000_000 / hz as u64)
    }

    /// Pauses a streaming streamer; gives whether it was streaming (and so whether the
    /// sender is to be told).
    pub fn pause(&mut self) -> (r: bool)
        requires
            old(self).wf(),
        ensures
            final(self).wf(),
            r == (old(self).control().state == StreamerState::Streaming),
            final(self).control() == pause_outcome(old(self).control()),
            final(self).senders() == old(self).senders(),
            final(self).config() == old(self).config(),
            final(self).buffer() == old(self).buffer(),
    {
        if self.state == StreamerState::Streaming {
            self.state = StreamerState::Paused;
            true
        } else {
            false
        }
    }

    /// Resumes a paused streamer; gives whether it was paused.
    pub fn resume(&mut self) -> (r: bool)
        requires
            old(self).wf(),
        ensures
            final(self).wf(),
            r == (old(self).control().state == StreamerState::Paused),
            final(self).control() == resume_outcome(old(self).control()),
            final(self).senders() == old(self).senders(),
            final(self).config() == old(self).config(),
            final(self).buffer() == old(self).buffer(),
    {
        if self.state == StreamerState::Paused {
            self.state = StreamerState::Streaming;
            true
        } else {
            false
        }
    }

    /// The buffer is below the low watermark: time to decode more audio.
    pub fn needs_refill(&self) -> (r: bool)
        ensures
            r == fill_below(self.buffer().frames().len(), self.buffer().capacity(), BUFFER_LOW_WATERMARK_PERCENT as nat),
    {
        let len = self.buffer.len() as u128;
        let cap = self.buffer.capacity_frames() as u128;
        len * 100 < cap * 40
    }

    /// Queues one decoded frame; a full buffer is an overflow error.
    pub fn push_decoded(&mut self, samples: Vec<i16>) -> (r: Result<(), Error>)
        requires
            old(self).wf(),
            old(self).buffer().frames().len() < old(self).buffer().capacity() ==> old(self).config().audio_format.channels
                > 0,
        ensures
            final(self).wf(),
            final(self).control() == old(self).control(),
            final(self).senders() == old(self).senders(),
            final(self).config() == old(self).config(),
            final(self).buffer().capacity() == old(self).buffer().capacity(),
            old(self).buffer().frames().len() >= old(self).buffer().capacity() ==> r == Err::<(), Error>(
                Error::Streaming(StreamingError::BufferOverflow),
            ) && final(self).buffer().frames() == old(self).buffer().frames(),
            old(self).buffer().frames().len() < old(self).buffer().capacity() ==> r is Ok && final(self).buffer().frames().len() == old(self).buffer().frames().len() + 1 && final(self).buffer().frames().last().samples@
                == samples@ && final(self).buffer().frames().drop_last() == old(self).buffer().frames(),
    {
        let frame = AudioFrame::new(samples);
        match self.buffer.push(frame) {
            Ok(()) => Ok(()),
            Err(BufferError::Overflow) => Err(Error::Streaming(StreamingError::BufferOverflow)),
        }
    }

    /// The buffering check of the streaming loop. Outside buffering the loop goes on; a
    /// buffer filled above the resume mark starts streaming; a finished decoder with an
    /// empty buffer stops the stream; otherwise the loop waits.
    pub fn buffering_action(&mut self, has_live_decoder: bool, decoder_eof: bool) -> (r: BufferingAction)
        requires
            old(self).wf(),
        ensures
            final(self).wf(),
            final(self).senders() == old(self).senders(),
            final(self).config() == old(self).config(),
            final(self).buffer() == old(self).buffer(),
            ({
                let c = old(self).control();
                let len = old(self).buffer().frames().len();
                let cap = old(self).buffer().capacity();
                if c.state != StreamerState::Buffering {
                    r == BufferingAction::Ready && final(self).control() == c
                } else if fill_above(len, cap, BUFFER_RESUME_FILL_PERCENT as nat) {
                    r == BufferingAction::Ready && final(self).control() == (StreamerControl {
                        state: StreamerState::Streaming,
                        ..c
                    })
                } else if has_live_decoder && decoder_eof && len == 0 {
                    r == BufferingAction::Stop && final(self).control() == (StreamerControl {
                        state: StreamerState::Stopped,
                        ..c
                    })
                } else {
                    r == BufferingAction::Wait && final(self).control() == c
                }
            }),
    {
        if self.state != StreamerState::Buffering {
            return BufferingAction::Ready;
        }
        let len = self.buffer.len() as u128;
        let cap = self.buffer.capacity_frames() as u128;
        if len * 100 > cap * 10 {
            self.state = StreamerState::Streaming;
            return BufferingAction::Ready;
        }
        if has_live_decoder && decoder_eof && self.buffer.is_empty() {
            self.state = StreamerState::Stopped;
            BufferingAction::Stop
        } else {
            BufferingAction::Wait
        }
    }

    /// The next frame to send; an empty buffer counts an underrun and goes back to
    /// buffering.
    pub fn next_frame(&mut self) -> (r: Option<AudioFrame>)
        requires
            old(self).wf(),
            old(self).buffer().frames().len() > 0 ==> old(self).config().audio_format.channels > 0,
        ensures
            final(self).wf(),
            final(self).senders() == old(self).senders(),
            final(self).config() == old(self).config(),
            final(self).buffer().capacity() == old(self).buffer().capacity(),
            old(self).buffer().frames().len() > 0 ==> r == Some(old(self).buffer().frames()[0]) && final(self).buffer().frames() == old(self).buffer().frames().drop_first() && final(self).control() == old(self).control(),
            old(self).buffer().frames().len() == 0 ==> r is None && final(self).buffer().frames().len() == 0
                && final(self).control() == (StreamerControl {
                state: StreamerState::Buffering,
                underruns: ((old(self).control().underruns + 1) % 0x1_0000_0000_0000_0000) as u64,
                ..old(self).control()
            }),
    {
        match self.buffer.pop() {
            Some(frame) => Some(frame),
            None => {
                self.underruns = self.underruns.wrapping_add(1);
                self.state = StreamerState::Buffering;
                None
            },
        }
    }

    /// When a frame sent at local wall time `local_wall_ns` is to be played (see
    /// `render_time_spec`).
    pub fn render_time(&self, local_wall_ns: u64) -> (r: Option<u64>)
        ensures
            r == render_time_spec(self.control(), local_wall_ns),
    {
        let adjusted: u64 = match self.clock_offset {
            Some(offset) => {
                let local: i128 = if local_wall_ns < 0x8000_0000_0000_0000 {
                    local_wall_ns as i128
                } else {
                    local_wall_ns as i128 - 0x1_0000_0000_0000_0000
                };
                let sum: i128 = local + offset.offset_ns as i128;
                if sum < i64::MIN as i128 || sum > i64::MAX as i128 {
                    return None;
                }
                self.clock.apply_offset(local_wall_ns, &offset)
            },
            None => local_wall_ns,
        };
        adjusted.checked_add(self.render_delay_ns)
    }

    /// The packets for one encoded frame, for the caller to send or hand to the sender
    /// thread: one audio packet per receiver, in receiver order, and the sync packet from
    /// the first receiver when one is due (see `needs_sync`). With no receivers nothing
    /// happens. On success the first-packet flag is set, the last sync timestamp and the
    /// position advance, and one more packet counts as sent.
    #[verifier::spinoff_prover]
    #[verifier::rlimit(100)]
    pub fn prepare_packet(&mut self, packet: &EncodedPacket, local_wall_ns: u64) -> (r: Result<
        Option<(Vec<Vec<u8>>, Option<Vec<u8>>)>,
        Error,
    >)
        requires
            old(self).wf(),
            render_time_spec(old(self).control(), local_wall_ns) is Some,
            packet.timestamp + packet.samples <= u64::MAX,
        ensures
            final(self).wf(),
            final(self).config() == old(self).config(),
            final(self).buffer() == old(self).buffer(),
            final(self).senders().len() == old(self).senders().len(),
            old(self).senders().len() == 0 ==> (r matches Ok(None) && final(self).control() == old(self).control()
                && final(self).senders() == old(self).senders()),
            old(self).senders().len() > 0 ==> ((r is Err) <==> payload_too_long(
                old(self).senders(),
                packet.data@.len(),
            )),
            old(self).senders().len() > 0 && !payload_too_long(old(self).senders(), packet.data@.len()) ==> (r matches Ok(
                Some(_),
            )),
            r is Err ==> final(self).control() == old(self).control(),
            ({
                let c = old(self).control();
                let olds = old(self).senders();
                let news = final(self).senders();
                let pt = stream_type_value(old(self).config().stream_type);
                let sr = hz_of(old(self).config().audio_format.sample_rate);
                let rtp_ts = packet.timestamp as u32;
                let first = !c.first_packet_sent;
                let need = needs_sync(first, c.last_sync_rtp, rtp_ts, sr);
                let render = render_time_spec(c, local_wall_ns)->Some_0;
                let sync = sync_outcome(olds[0], need, c.use_ptp_sync, rtp_ts, render, sr, c.ptp_master_clock_id);
                r matches Ok(Some(out)) ==> {
                    &&& opt_bytes_view(out.1) == sync
                    &&& out.0@.len() == olds.len()
                    &&& forall|i: int|
                        0 <= i < olds.len() ==> sender_step(
                            olds[i],
                            #[trigger] news[i],
                            out.0@[i]@,
                            pt,
                            rtp_ts,
                            packet.data@,
                            first,
                            if i == 0 {
                                sync
                            } else {
                                None
                            },
                        )
                    &&& final(self).control() == control_after_packet(c, packet.timestamp, packet.samples, sr)
                }
            }),
    {
        let payload_type = self.config.stream_type.value();
        let sample_rate = self.config.audio_format.sample_rate.as_hz();
        let last_sync_rtp = self.last_sync_rtp;
        let render_adjusted = match self.render_time(local_wall_ns) {
            Some(t) => t,
            None => {
                return Ok(None);
            },
        };
        let ntp = unix_to_ntp(render_adjusted);
        let first_packet = !self.first_packet_sent;
        let marker = first_packet;
        let rtp_ts = packet.timestamp as u32;
        let need_sync = first_packet || last_sync_rtp == 0 || rtp_ts.wrapping_sub(last_sync_rtp) >= sample_rate;
        let n = self.rtp_senders.len();
        if n == 0 {
            return Ok(None);
        }
        let use_ptp_sync = self.use_ptp_sync;
        let ptp_clock_id = self.ptp_master_clock_id;
        let res = prepare_for_senders(
            &mut self.rtp_senders,
            need_sync,
            use_ptp_sync,
            rtp_ts,
            render_adjusted,
            ntp,
            sample_rate,
            &ptp_clock_id,
            payload_type,
            packet.data.as_slice(),
            marker,
        );
        let (wire_packets, sync_data) = match res {
            Ok(out) => out,
            Err(e) => {
                return Err(e);
            },
        };
        if need_sync {
            self.last_sync_rtp = rtp_ts;
        }
        self.first_packet_sent = true;
        self.current_timestamp = packet.timestamp + packet.samples as u64;
        self.packets_sent = self.packets_sent.wrapping_add(1);
        Ok(Some((wire_packets, sync_data)))
    }

    /// After a flush the next packet is again the first: it carries the marker and a
    /// first sync packet follows.
    pub fn reset_after_flush(&mut self)
        requires
            old(self).wf(),
        ensures
            final(self).wf(),
            final(self).control() == (StreamerControl { first_packet_sent: false, ..old(self).control() }),
            final(self).config() == old(self).config(),
            final(self).buffer() == old(self).buffer(),
            final(self).senders().len() == old(self).senders().len(),
            forall|i: int|
                0 <= i < old(self).senders().len() ==> {
                    let a = #[trigger] final(self).senders()[i];
                    let b = old(self).senders()[i];
                    &&& !a.first_sync_sent()
                    &&& a.dest() == b.dest() && a.control_dest() == b.control_dest()
                    &&& a.sequence() == b.sequence() && a.ssrc() == b.ssrc()
                    &&& a.cipher_key() == b.cipher_key() && a.sync_sequence() == b.sync_sequence()
                    &&& a.history() == b.history()
                },
    {
        self.first_packet_sent = false;
        let n = self.rtp_senders.len();
        let ghost before = self.rtp_senders@;
        let ghost c = self.control();
        let mut i: usize = 0;
        while i < n
            invariant
                0 <= i <= n,
                self.control() == c,
                c == (StreamerControl { first_packet_sent: false, ..old(self).control() }),
                self.config() == old(self).config(),
                self.buffer() == old(self).buffer(),
                self.buffer.format() == self.config.audio_format,
                n == before.len(),
                self.rtp_senders@.len() == n,
                forall|j: int| 0 <= j < n ==> (#[trigger] self.rtp_senders@[j]).wf(),
                forall|j: int| i <= j < n ==> self.rtp_senders@[j] == before[j],
                forall|j: int|
                    0 <= j < i ==> {
                        let a = #[trigger] self.rtp_senders@[j];
                        let b = before[j];
                        &&& !a.first_sync_sent()
                        &&& a.dest() == b.dest() && a.control_dest() == b.control_dest()
                        &&& a.sequence() == b.sequence() && a.ssrc() == b.ssrc()
                        &&& a.cipher_key() == b.cipher_key() && a.sync_sequence() == b.sync_sequence()
                        &&& a.history() == b.history()
                    },
            decreases n - i,
        {
            let ghost prev = self.rtp_senders@;
            let mut s = self.rtp_senders.remove(i);
            s.reset_sync_state();
            self.rtp_senders.insert(i, s);
            assert(self.rtp_senders@ =~= prev.update(i as int, s));
            i = i + 1;
        }
    }

    /// The stream failed; nothing more is sent.
    pub fn mark_error(&mut self)
        requires
            old(self).wf(),
        ensures
            final(self).wf(),
            final(self).control() == (StreamerControl { state: StreamerState::Error, ..old(self).control() }),
            final(self).senders() == old(self).senders(),
            final(self).config() == old(self).config(),
            final(self).buffer() == old(self).buffer(),
    {
        self.state = StreamerState::Error;
    }

    /// The audio format of the stream.
    pub fn audio_format(&self) -> (r: AudioFormat)
        ensures
            r == self.config().audio_format,
    {
        self.config.audio_format
    }

    /// Stops the stream and drops the buffered audio.
    pub fn stop(&mut self)
        requires
            old(self).wf(),
        ensures
            final(self).wf(),
            final(self).control() == (StreamerControl { state: StreamerState::Stopped, ..old(self).control() }),
            final(self).buffer().frames().len() == 0,
            final(self).buffer().capacity() == old(self).buffer().capacity(),
            final(self).senders() == old(self).senders(),
            final(self).config() == old(self).config(),
    {
        self.state = StreamerState::Stopped;
        let _dropped = self.buffer.flush();
    }
}

} // verus!

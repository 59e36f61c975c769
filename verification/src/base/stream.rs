//! Stream configuration: stream type, timing protocol, latencies.
use crate::base::codec::{hz_of, AudioFormat};
use vstd::prelude::*;

verus! {

#[derive(Debug, Clone, Copy, PartialEq, Eq, Structural)]
#[non_exhaustive]
pub enum StreamType {
    Realtime,
    Buffered,
    Mirror,
}

/// The RTP payload type / RTSP stream type number of a stream type.
pub open spec fn stream_type_value(t: StreamType) -> u8 {
    match t {
        StreamType::Realtime => 96,
        StreamType::Buffered => 103,
        StreamType::Mirror => 110,
    }
}

impl StreamType {
    /// The stream type number: 96, 103 or 110.
    pub fn value(&self) -> (r: u8)
        ensures
            r == stream_type_value(*self),
    {
        match self {
            StreamType::Realtime => 96,
            StreamType::Buffered => 103,
            StreamType::Mirror => 110,
        }
    }
}

#[derive(Debug, Clone, Copy, PartialEq, Eq, Structural)]
#[non_exhaustive]
pub enum TimingProtocol {
    Ntp,
    Ptp,
}

#[derive(Debug, Clone, Copy, PartialEq, Eq, Structural)]
#[non_exhaustive]
pub enum PtpMode {
    Master,
    Slave,
}

#[derive(Debug, Clone)]
#[non_exhaustive]
pub struct StreamConfig {
    pub stream_type: StreamType,
    pub audio_format: AudioFormat,
    pub timing_protocol: TimingProtocol,
    pub ptp_mode: PtpMode,
    pub latency_min: u32,
    pub latency_max: u32,
    pub supports_dynamic_stream_id: bool,
    pub asc: Option<Vec<u8>>,
}

/// The realtime (AirPlay 1) configuration: ALAC over NTP, latency 11025..88200 frames.
pub open spec fn is_realtime_default(c: StreamConfig) -> bool {
    &&& c.stream_type == StreamType::Realtime
    &&& c.audio_format == AudioFormat::realtime_default_spec()
    &&& c.timing_protocol == TimingProtocol::Ntp
    &&& c.ptp_mode == PtpMode::Master
    &&& c.latency_min == 11025
    &&& c.latency_max == 88200
    &&& c.supports_dynamic_stream_id
    &&& c.asc is None
}

/// The buffered (AirPlay 2) configuration with the given timing protocol:
/// AAC, latency 22050..132300 frames.
pub open spec fn is_buffered(c: StreamConfig, timing: TimingProtocol) -> bool {
    &&& c.stream_type == StreamType::Buffered
    &&& c.audio_format == AudioFormat::buffered_default_spec()
    &&& c.timing_protocol == timing
    &&& c.ptp_mode == PtpMode::Master
    &&& c.latency_min == 22050
    &&& c.latency_max == 132300
    &&& c.supports_dynamic_stream_id
    &&& c.asc is None
}

impl Default for StreamConfig {
    fn default() -> (r: Self)
        ensures
            is_realtime_default(r),
    {
        Self {
            stream_type: StreamType::Realtime,
            audio_format: AudioFormat::default(),
            timing_protocol: TimingProtocol::Ntp,
            ptp_mode: PtpMode::Master,
            latency_min: 11025,
            latency_max: 88200,
            supports_dynamic_stream_id: true,
            asc: None,
        }
    }
}

/// Frames converted to whole milliseconds at `hz`, truncated to 32 bits.
pub open spec fn frames_to_ms(frames: u32, hz: u32) -> u32 {
    ((frames * 1000) / (hz as int)) as u32
}

impl StreamConfig {
    pub fn airplay2_buffered() -> (r: Self)
        ensures
            is_buffered(r, TimingProtocol::Ptp),
    {
        Self {
            stream_type: StreamType::Buffered,
            audio_format: AudioFormat::buffered_default(),
            timing_protocol: TimingProtocol::Ptp,
            ptp_mode: PtpMode::Master,
            latency_min: 22050,
            latency_max: 132300,
            supports_dynamic_stream_id: true,
            asc: None,
        }
    }

    pub fn airplay2_buffered_ntp() -> (r: Self)
        ensures
            is_buffered(r, TimingProtocol::Ntp),
    {
        Self {
            stream_type: StreamType::Buffered,
            audio_format: AudioFormat::buffered_default(),
            timing_protocol: TimingProtocol::Ntp,
            ptp_mode: PtpMode::Master,
            latency_min: 22050,
            latency_max: 132300,
            supports_dynamic_stream_id: true,
            asc: None,
        }
    }

    pub fn airplay1_realtime() -> (r: Self)
        ensures
            is_realtime_default(r),
    {
        Self::default()
    }

    /// The minimum latency in milliseconds.
    pub fn latency_min_ms(&self) -> (r: u32)
        ensures
            r == frames_to_ms(self.latency_min, hz_of(self.audio_format.sample_rate)),
    {
        let hz = self.audio_format.sample_rate.as_hz() as u64;
        (self.latency_min as u64 * 1000 / hz) as u32
    }

    /// The maximum latency in milliseconds.
    pub fn latency_max_ms(&self) -> (r: u32)
        ensures
            r == frames_to_ms(self.latency_max, hz_of(self.audio_format.sample_rate)),
    {
        let hz = self.audio_format.sample_rate.as_hz() as u64;
        (self.latency_max as u64 * 1000 / hz) as u32
    }
}

} // verus!

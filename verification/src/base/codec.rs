//! Audio codecs, sample rates and audio formats.
use crate::protocol::{
    AIRPLAY_AAC_FRAMES_PER_PACKET, AIRPLAY_ALAC_FRAMES_PER_PACKET, SAMPLE_RATE_44100,
    SAMPLE_RATE_48000,
};
use vstd::prelude::*;

verus! {

#[derive(Debug, Clone, Copy, PartialEq, Eq, Structural)]
#[non_exhaustive]
pub enum AudioCodec {
    Pcm,
    Alac,
    Aac,
    AacEld,
    Opus,
}

#[derive(Debug, Clone, Copy, PartialEq, Eq, Structural)]
#[non_exhaustive]
pub enum SampleRate {
    Hz44100,
    Hz48000,
}

#[derive(Debug, Clone, Copy, PartialEq, Eq, Structural)]
#[non_exhaustive]
pub struct AudioFormat {
    pub codec: AudioCodec,
    pub sample_rate: SampleRate,
    pub bit_depth: u8,
    pub channels: u8,
    pub frames_per_packet: u32,
}

/// The RTSP `ct` compression-type number of a codec.
pub open spec fn compression_type_of(c: AudioCodec) -> u8 {
    match c {
        AudioCodec::Pcm => 1,
        AudioCodec::Alac => 2,
        AudioCodec::Aac => 3,
        AudioCodec::AacEld => 4,
        AudioCodec::Opus => 32,
    }
}

/// The RTSP `audioFormat` bit of a codec.
pub open spec fn audio_format_value_of(c: AudioCodec) -> u32 {
    match c {
        AudioCodec::Pcm => 0,
        AudioCodec::Alac => 0x40000,
        AudioCodec::Aac => 0x400000,
        AudioCodec::AacEld => 0x1000000,
        AudioCodec::Opus => 0x2000000,
    }
}

/// The rate in hertz.
pub open spec fn hz_of(r: SampleRate) -> u32 {
    match r {
        SampleRate::Hz44100 => 44_100,
        SampleRate::Hz48000 => 48_000,
    }
}

impl AudioCodec {
    pub fn compression_type(&self) -> (r: u8)
        ensures
            r == compression_type_of(*self),
    {
        match self {
            Self::Pcm => 1,
            Self::Alac => 2,
            Self::Aac => 3,
            Self::AacEld => 4,
            Self::Opus => 32,
        }
    }

    pub fn audio_format_value(&self) -> (r: u32)
        ensures
            r == audio_format_value_of(*self),
    {
        match self {
            Self::Pcm => 0,
            Self::Alac => 0x40000,
            Self::Aac => 0x400000,
            Self::AacEld => 0x1000000,
            Self::Opus => 0x2000000,
        }
    }

    /// The codec with compression type `ct`, if there is one.
    pub fn from_compression_type(ct: u8) -> (r: Option<Self>)
        ensures
            r matches Some(c) ==> compression_type_of(c) == ct,
            r is Some <==> (ct == 1 || ct == 2 || ct == 3 || ct == 4 || ct == 32),
    {
        match ct {
            1 => Some(Self::Pcm),
            2 => Some(Self::Alac),
            3 => Some(Self::Aac),
            4 => Some(Self::AacEld),
            32 => Some(Self::Opus),
            _ => None,
        }
    }
}

/// Reading a codec's compression type back gives the codec.
pub proof fn law_compression_type_roundtrip(c: AudioCodec)
    ensures
        forall|d: AudioCodec| compression_type_of(d) == compression_type_of(c) ==> d == c,
{
}

/// Each codec has its own `audioFormat` value: ALAC is bit 18 (0x40000), AAC bit 22,
/// AAC-ELD bit 24, Opus bit 25, and PCM none; so no two codecs are announced alike.
pub proof fn law_audio_format_value_distinct(c: AudioCodec)
    ensures
        forall|d: AudioCodec| audio_format_value_of(d) == audio_format_value_of(c) ==> d == c,
        audio_format_value_of(AudioCodec::Alac) == 1u32 << 18u32,
        audio_format_value_of(AudioCodec::Aac) == 1u32 << 22u32,
        audio_format_value_of(AudioCodec::AacEld) == 1u32 << 24u32,
        audio_format_value_of(AudioCodec::Opus) == 1u32 << 25u32,
        audio_format_value_of(AudioCodec::Pcm) == 0,
{
    assert(1u32 << 18u32 == 0x40000u32) by (bit_vector);
    assert(1u32 << 22u32 == 0x400000u32) by (bit_vector);
    assert(1u32 << 24u32 == 0x1000000u32) by (bit_vector);
    assert(1u32 << 25u32 == 0x2000000u32) by (bit_vector);
}

impl SampleRate {
    pub fn as_hz(&self) -> (r: u32)
        ensures
            r == hz_of(*self),
    {
        match self {
            Self::Hz44100 => SAMPLE_RATE_44100,
            Self::Hz48000 => SAMPLE_RATE_48000,
        }
    }
}

impl Default for AudioFormat {
    fn default() -> (r: Self)
        ensures
            r == (AudioFormat {
                codec: AudioCodec::Alac,
                sample_rate: SampleRate::Hz44100,
                bit_depth: 16,
                channels: 2,
                frames_per_packet: 352,
            }),
    {
        Self {
            codec: AudioCodec::Alac,
            sample_rate: SampleRate::Hz44100,
            bit_depth: 16,
            channels: 2,
            frames_per_packet: AIRPLAY_ALAC_FRAMES_PER_PACKET,
        }
    }
}

/// Bytes of one interleaved frame of `f`.
pub open spec fn bytes_per_frame_of(f: AudioFormat) -> nat {
    ((f.bit_depth * f.channels) / 8) as nat
}

impl AudioFormat {
    /// The realtime default format.
    pub open spec fn realtime_default_spec() -> AudioFormat {
        AudioFormat {
            codec: AudioCodec::Alac,
            sample_rate: SampleRate::Hz44100,
            bit_depth: 16,
            channels: 2,
            frames_per_packet: 352,
        }
    }

    /// The buffered default format.
    pub open spec fn buffered_default_spec() -> AudioFormat {
        AudioFormat {
            codec: AudioCodec::Aac,
            sample_rate: SampleRate::Hz44100,
            bit_depth: 16,
            channels: 2,
            frames_per_packet: 1024,
        }
    }

    /// ALAC, 44.1 kHz, 16 bit, stereo, 352 frames per packet.
    pub fn realtime_default() -> (r: Self)
        ensures
            r == (AudioFormat {
                codec: AudioCodec::Alac,
                sample_rate: SampleRate::Hz44100,
                bit_depth: 16,
                channels: 2,
                frames_per_packet: 352,
            }),
    {
        Self::default()
    }

    /// AAC, 44.1 kHz, 16 bit, stereo, 1024 frames per packet.
    pub fn buffered_default() -> (r: Self)
        ensures
            r == (AudioFormat {
                codec: AudioCodec::Aac,
                sample_rate: SampleRate::Hz44100,
                bit_depth: 16,
                channels: 2,
                frames_per_packet: 1024,
            }),
    {
        Self {
            codec: AudioCodec::Aac,
            sample_rate: SampleRate::Hz44100,
            bit_depth: 16,
            channels: 2,
            frames_per_packet: AIRPLAY_AAC_FRAMES_PER_PACKET,
        }
    }

    pub fn bytes_per_frame(&self) -> (r: usize)
        ensures
            r == bytes_per_frame_of(*self),
    {
        assert(self.bit_depth * self.channels <= 255 * 255) by (nonlinear_arith)
            requires
                self.bit_depth <= 255,
                self.channels <= 255,
        ;
        (self.bit_depth as usize * self.channels as usize) / 8
    }

    /// Bytes of `ms` milliseconds of audio: whole frames (rounded down) times the frame size.
    pub fn buffer_size_for_duration_ms(&self, ms: u32) -> (r: usize)
        requires
            hz_of(self.sample_rate) * ms / 1000 <= usize::MAX,
            (hz_of(self.sample_rate) * ms / 1000) * bytes_per_frame_of(*self) <= usize::MAX,
        ensures
            r == (hz_of(self.sample_rate) * ms / 1000) * bytes_per_frame_of(*self),
    {
        let hz = self.sample_rate.as_hz();
        assert(hz as u64 * ms as u64 <= 48_000 * 0xffff_ffff) by (nonlinear_arith)
            requires
                hz <= 48_000,
                ms <= 0xffff_ffff,
        ;
        let samples = (hz as u64 * ms as u64) / 1000;
        let bpf = self.bytes_per_frame();
        samples as usize * bpf
    }
}

} // verus!

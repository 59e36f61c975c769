//! Protocol constants shared across the crate.
use vstd::prelude::*;

verus! {

pub const AIRPLAY_USER_AGENT: &'static str = "AirPlay/745.83";

pub const AIRPLAY_CLIENT_NAME: &'static str = "Rust AirPlay Sender";

pub const AIRPLAY_ACTIVE_REMOTE: &'static str = "1234567890";

pub const SAMPLE_RATE_44100: u32 = 44_100;

pub const SAMPLE_RATE_48000: u32 = 48_000;

pub const AIRPLAY_ALAC_FRAMES_PER_PACKET: u32 = 352;

pub const AIRPLAY_AAC_FRAMES_PER_PACKET: u32 = 1024;

pub const HKP_TRANSIENT: u8 = 4;

/// RTP timestamp of the packet after the one stamped `rtp_timestamp`: one ALAC packet
/// of frames, scaled by the whole number of 44.1 kHz rates in `sample_rate`, with
/// 32-bit wrap-around.
pub fn next_airplay_packet_timestamp(rtp_timestamp: u32, sample_rate: u32) -> (r: u32)
    ensures
        r == (rtp_timestamp + (sample_rate / 44_100) * 352) % 0x1_0000_0000,
{
    let step: u32 = sample_rate / SAMPLE_RATE_44100 * AIRPLAY_ALAC_FRAMES_PER_PACKET;
    rtp_timestamp.wrapping_add(step)
}

} // verus!

//! Streaming to a group of receivers: the configuration the group uses, the peers each
//! member is told about, and the streamer that feeds them all.
use crate::audio::sender::RtpSender;
use crate::audio::streamer::{initial_control, AudioStreamer, StreamerControl, NANOS_PER_MILLI};
use crate::base::codec::AudioCodec;
use crate::base::error::{DiscoveryError, Error, RtspError};
use crate::base::net::{first_v4, IpAddress};
use crate::base::stream::{PtpMode, StreamConfig, TimingProtocol};
use crate::text::{dec, push_radix, string_from_chars};
use crate::timing::clock::ClockOffset;
use vstd::prelude::*;

verus! {

/// A group needs at least two receivers; fewer is refused as no devices found.
pub fn check_group_size(device_count: usize) -> (r: Result<(), Error>)
    ensures
        device_count >= 2 ==> r is Ok,
        device_count < 2 ==> (r matches Err(Error::Discovery(DiscoveryError::NoDevicesFound))),
{
    if device_count < 2 {
        Err(Error::Discovery(DiscoveryError::NoDevicesFound))
    } else {
        Ok(())
    }
}

/// The client's configuration as a group streams it: over PTP, the sender as master.
pub fn group_config(base: StreamConfig) -> (r: StreamConfig)
    ensures
        r == (StreamConfig { timing_protocol: TimingProtocol::Ptp, ptp_mode: PtpMode::Master, ..base }),
{
    let mut c = base;
    c.timing_protocol = TimingProtocol::Ptp;
    c.ptp_mode = PtpMode::Master;
    c
}

/// An ALAC group stream without a codec cookie needs one from the encoder.
pub fn needs_magic_cookie(config: &StreamConfig) -> (r: bool)
    ensures
        r == (config.audio_format.codec == AudioCodec::Alac && config.asc is None),
{
    config.audio_format.codec == AudioCodec::Alac && config.asc.is_none()
}

/// The dotted-decimal text of an IPv4 address.
pub open spec fn ipv4_text_spec(v: u32) -> Seq<char> {
    dec((v / 0x100_0000) as nat) + "."@ + dec(((v / 0x1_0000) % 256) as nat) + "."@ + dec(((v / 256) % 256) as nat)
        + "."@ + dec((v % 256) as nat)
}

pub fn ipv4_text(v: u32) -> (r: String)
    ensures
        r@ == ipv4_text_spec(v),
{
    let mut t: Vec<char> = Vec::new();
    push_radix(&mut t, (v / 0x100_0000) as u128, 10);
    t.push('.');
    push_radix(&mut t, ((v / 0x1_0000) % 256) as u128, 10);
    t.push('.');
    push_radix(&mut t, ((v / 256) % 256) as u128, 10);
    t.push('.');
    push_radix(&mut t, (v % 256) as u128, 10);
    proof {
        reveal_strlit(".");
    }
    assert(t@ =~= ipv4_text_spec(v));
    string_from_chars(t.as_slice())
}

/// The peers of a group: for each device in order, the text of its first IPv4 address;
/// devices without one are left out.
pub open spec fn peer_texts(devices: Seq<Seq<IpAddress>>) -> Seq<Seq<char>>
    decreases devices.len(),
{
    if devices.len() == 0 {
        Seq::empty()
    } else {
        let rest = peer_texts(devices.drop_last());
        match first_v4(devices.last()) {
            Some(i) => match devices.last()[i] {
                IpAddress::V4(v) => rest.push(ipv4_text_spec(v)),
                IpAddress::V6(_) => rest,
            },
            None => rest,
        }
    }
}

/// The first IPv4 address of a device.
fn first_ipv4(addresses: &Vec<IpAddress>) -> (r: Option<u32>)
    ensures
        match first_v4(addresses@) {
            Some(i) => addresses@[i] == IpAddress::V4(r->Some_0) && r is Some,
            None => r is None,
        },
{
    let ghost a = addresses@;
    let mut i: usize = 0;
    while i < addresses.len()
        invariant
            i <= a.len(),
            a == addresses@,
            forall|j: int| 0 <= j < i ==> !(#[trigger] a[j] is V4),
        decreases a.len() - i,
    {
        if let IpAddress::V4(v) = addresses[i] {
            proof {
                crate::base::net::lemma_first_v4(a, i as int);
            }
            return Some(v);
        }
        i += 1;
    }
    proof {
        crate::base::net::lemma_first_v4(a, i as int);
    }
    None
}

pub fn peer_addresses(devices: &[Vec<IpAddress>]) -> (r: Vec<String>)
    ensures
        r@.map_values(|s: String| s@) == peer_texts(devices@.map_values(|a: Vec<IpAddress>| a@)),
{
    let ghost dv = devices@.map_values(|a: Vec<IpAddress>| a@);
    let mut out: Vec<String> = Vec::new();
    let mut i: usize = 0;
    while i < devices.len()
        invariant
            i <= devices@.len(),
            dv == devices@.map_values(|a: Vec<IpAddress>| a@),
            out@.map_values(|s: String| s@) == peer_texts(dv.take(i as int)),
        decreases devices@.len() - i,
    {
        let ghost before = out@.map_values(|s: String| s@);
        assert(dv.take(i + 1).drop_last() =~= dv.take(i as int));
        assert(dv.take(i + 1).last() == devices@[i as int]@);
        match first_ipv4(&devices[i]) {
            Some(v) => {
                let t = ipv4_text(v);
                out.push(t);
                assert(out@.map_values(|s: String| s@) =~= before.push(ipv4_text_spec(v)));
            },
            None => {},
        }
        i += 1;
    }
    assert(dv.take(i as int) =~= dv);
    out
}

/// How many receivers a group has: the primary and its members, none without members.
pub fn group_device_count(member_count: usize) -> (r: usize)
    requires
        member_count < usize::MAX,
    ensures
        r == (if member_count == 0 {
            0
        } else {
            member_count + 1
        }),
{
    if member_count == 0 {
        0
    } else {
        1 + member_count
    }
}

/// The streamer of a single receiver: its sender, the timing offset if known, and the
/// render delay where one is set.
pub fn configure_streamer(
    config: StreamConfig,
    sender: RtpSender,
    timing_offset: Option<ClockOffset>,
    render_delay_ms: u32,
) -> (r: AudioStreamer)
    requires
        sender.wf(),
    ensures
        r.wf(),
        r.config() == config,
        r.senders() == seq![sender],
        r.buffer().frames().len() == 0,
        r.control() == (StreamerControl {
            render_delay_ns: (render_delay_ms * NANOS_PER_MILLI) as u64,
            clock_offset: timing_offset,
            ..initial_control()
        }),
{
    let mut streamer = AudioStreamer::new(config);
    streamer.set_rtp_sender(sender);
    if render_delay_ms > 0 {
        streamer.set_render_delay_ms(render_delay_ms);
    }
    if let Some(offset) = timing_offset {
        streamer.set_timing_offset(offset);
    }
    streamer
}

/// The streamer of a group: every receiver's sender (the primary's first), the primary's
/// timing offset if known, PTP sync packets naming the primary's clock, and the render
/// delay where one is set. A primary without a PTP clock id is an error.
pub fn configure_group_streamer(
    config: StreamConfig,
    senders: Vec<RtpSender>,
    ptp_clock_id: Option<[u8; 8]>,
    timing_offset: Option<ClockOffset>,
    render_delay_ms: u32,
) -> (r: Result<AudioStreamer, Error>)
    requires
        forall|i: int| 0 <= i < senders@.len() ==> (#[trigger] senders@[i]).wf(),
    ensures
        ptp_clock_id is None ==> (r matches Err(Error::Rtsp(RtspError::SetupFailed(m))) && m@
            == "No PTP clock ID for group streaming"@),
        ptp_clock_id matches Some(id) ==> (r matches Ok(s) && {
            &&& s.wf()
            &&& s.config() == config
            &&& s.senders() == senders@
            &&& s.buffer().frames().len() == 0
            &&& s.control() == (StreamerControl {
                render_delay_ns: (render_delay_ms * NANOS_PER_MILLI) as u64,
                clock_offset: timing_offset,
                use_ptp_sync: true,
                ptp_master_clock_id: id,
                ..initial_control()
            })
        }),
{
    let clock_id = match ptp_clock_id {
        Some(id) => id,
        None => {
            return Err(Error::Rtsp(RtspError::SetupFailed("No PTP clock ID for group streaming".to_owned())));
        },
    };
    let mut streamer = AudioStreamer::new(config);
    streamer.set_rtp_senders(senders);
    if let Some(offset) = timing_offset {
        streamer.set_timing_offset(offset);
    }
    streamer.set_ptp_sync_mode(clock_id);
    if render_delay_ms > 0 {
        streamer.set_render_delay_ms(render_delay_ms);
    }
    Ok(streamer)
}

} // verus!

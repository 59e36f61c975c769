//! The RTSP session: its state machine and the SETUP values it builds and reads.
use crate::base::codec::{audio_format_value_of, compression_type_of, hz_of, AudioCodec};
use crate::base::device::{spec_mac_string, Device};
use crate::base::error::{Error, RtspError};
use crate::base::random::{new_uuid_v4, random_32, random_u32, uuid_v4_bytes};
use crate::base::stream::{stream_type_value, StreamConfig, TimingProtocol};
use crate::bytes::put_all;
use crate::rtsp::plist_codec::{binary_plist_of_strings, plist_binary_strings, StreamResponse,
    SetupPhase1Request, SetupPhase1Response, SetupPhase2Request, SetupPhase2Response, StreamDef,
    TimingPeerInfo,
};
use crate::text::{
    find_char, find_char_exec, hex2, hex2_lower, push_all, push_hex2, push_hex2_lower, push_str,
    str_chars, string_from_chars,
};
use vstd::prelude::*;

verus! {

#[derive(Debug, Clone, Copy, PartialEq, Eq, Structural)]
pub enum SessionState {
    Disconnected,
    Connected,
    Paired,
    SetupPhase1,
    Ready,
    Playing,
    Paused,
    TearingDown,
}

/// The name of a state, as `{:?}` prints it.
pub open spec fn state_name(s: SessionState) -> Seq<char> {
    match s {
        SessionState::Disconnected => "Disconnected"@,
        SessionState::Connected => "Connected"@,
        SessionState::Paired => "Paired"@,
        SessionState::SetupPhase1 => "SetupPhase1"@,
        SessionState::Ready => "Ready"@,
        SessionState::Playing => "Playing"@,
        SessionState::Paused => "Paused"@,
        SessionState::TearingDown => "TearingDown"@,
    }
}

fn state_name_str(s: SessionState) -> (r: &'static str)
    ensures
        r@ == state_name(s),
{
    match s {
        SessionState::Disconnected => "Disconnected",
        SessionState::Connected => "Connected",
        SessionState::Paired => "Paired",
        SessionState::SetupPhase1 => "SetupPhase1",
        SessionState::Ready => "Ready",
        SessionState::Playing => "Playing",
        SessionState::Paused => "Paused",
        SessionState::TearingDown => "TearingDown",
    }
}

#[derive(Debug, Clone, Copy, PartialEq, Eq, Structural)]
pub struct SessionPorts {
    pub data_port: u16,
    pub control_port: u16,
    pub event_port: u16,
}

/// The hyphenated text of a UUID, in upper or lower case.
pub open spec fn uuid_text(b: Seq<u8>, upper: bool) -> Seq<char> {
    let h = |i: int|
        if upper {
            hex2(b[i])
        } else {
            hex2_lower(b[i])
        };
    h(0) + h(1) + h(2) + h(3) + seq!['-'] + h(4) + h(5) + seq!['-'] + h(6) + h(7) + seq!['-'] + h(8) + h(
        9,
    ) + seq!['-'] + h(10) + h(11) + h(12) + h(13) + h(14) + h(15)
}

/// The hyphenated text of a UUID (`Uuid::to_string`, or its upper-case form).
pub fn uuid_string(b: &[u8; 16], upper: bool) -> (r: String)
    ensures
        r@ == uuid_text(b@, upper),
{
    let mut t: Vec<char> = Vec::new();
    let mut i: usize = 0;
    while i < 16
        invariant
            i <= 16,
            t@ == uuid_prefix(b@, upper, i as int),
        decreases 16 - i,
    {
        if i == 4 || i == 6 || i == 8 || i == 10 {
            t.push('-');
        }
        if upper {
            push_hex2(&mut t, b[i]);
        } else {
            push_hex2_lower(&mut t, b[i]);
        }
        i += 1;
    }
    proof {
        reveal_with_fuel(uuid_prefix, 17);
        assert(uuid_prefix(b@, upper, 16) =~= uuid_text(b@, upper));
    }
    string_from_chars(t.as_slice())
}

/// The text of the first `k` bytes of a UUID, with the hyphens before bytes 4, 6, 8, 10.
pub open spec fn uuid_prefix(b: Seq<u8>, upper: bool, k: int) -> Seq<char>
    decreases k,
{
    if k <= 0 {
        Seq::empty()
    } else {
        uuid_prefix(b, upper, k - 1) + (if k - 1 == 4 || k - 1 == 6 || k - 1 == 8 || k - 1 == 10 {
            seq!['-']
        } else {
            Seq::<char>::empty()
        }) + (if upper {
            hex2(b[k - 1])
        } else {
            hex2_lower(b[k - 1])
        })
    }
}

pub struct RtspSession {
    session_id: [u8; 16],
    state: SessionState,
    client_device_id: String,
    stream_config: StreamConfig,
    ports: Option<SessionPorts>,
    local_control_port: u16,
    stream_connection_id: u32,
    shk: [u8; 32],
    request_host: Option<String>,
}

/// `r` is `Error::Rtsp(RtspError::SetupFailed(msg))`.
pub open spec fn is_setup_failed<T>(r: Result<T, Error>, msg: Seq<char>) -> bool {
    r matches Err(Error::Rtsp(RtspError::SetupFailed(m))) && m@ == msg
}

/// The error of a transition refused in state `s`.
fn refused(prefix: &str, s: SessionState) -> (e: Error)
    ensures
        e matches Error::Rtsp(RtspError::SetupFailed(m)) && m@ == prefix@ + state_name(s),
{
    let mut m: Vec<char> = Vec::new();
    push_str(&mut m, prefix);
    push_str(&mut m, state_name_str(s));
    Error::Rtsp(RtspError::SetupFailed(string_from_chars(m.as_slice())))
}

/// The host of the request URI: IPv6 literals (with `:`) in brackets unless already.
pub open spec fn uri_host(h: Seq<char>) -> Seq<char> {
    if find_char(h, ':') is Some && !(h.len() > 0 && h[0] == '[') {
        seq!['['] + h + seq![']']
    } else {
        h
    }
}

/// The parameter set-up codec configuration: the configured one, else `12 10` for AAC.
pub open spec fn asc_of(c: StreamConfig) -> Option<Seq<u8>> {
    match c.asc {
        Some(a) => Some(a@),
        None => match c.audio_format.codec {
            AudioCodec::Aac | AudioCodec::AacEld => Some(seq![0x12u8, 0x10u8]),
            _ => None,
        },
    }
}

impl RtspSession {
    pub closed spec fn session_id(&self) -> Seq<u8> {
        self.session_id@
    }

    pub closed spec fn stage(&self) -> SessionState {
        self.state
    }

    pub closed spec fn client_device_id(&self) -> Seq<char> {
        self.client_device_id@
    }

    pub closed spec fn config(&self) -> StreamConfig {
        self.stream_config
    }

    pub closed spec fn session_ports(&self) -> Option<SessionPorts> {
        self.ports
    }

    pub closed spec fn control_port(&self) -> u16 {
        self.local_control_port
    }

    pub closed spec fn connection_id(&self) -> u32 {
        self.stream_connection_id
    }

    pub closed spec fn shk(&self) -> Seq<u8> {
        self.shk@
    }

    pub closed spec fn request_host(&self) -> Option<Seq<char>> {
        match self.request_host {
            Some(h) => Some(h@),
            None => None,
        }
    }

    /// A session for `device` with fresh random values: the session UUID, the stream key,
    /// a control port in 49152..65534 and the stream connection id. Fails only when the
    /// operating system's random source does.
    pub fn new(device: &Device, stream_config: StreamConfig) -> (r: Result<Self, Error>)
        ensures
            r matches Ok(s) ==> s.stage() == SessionState::Disconnected && s.client_device_id()
                == spec_mac_string(device.id.0@) && s.config() == stream_config && s.session_ports() is None
                && 49152 <= s.control_port() < 49152 + 16383 && s.request_host() is None
                && (exists|b: Seq<u8>| b.len() == 16 && s.session_id() == uuid_v4_bytes(b)),
            r matches Err(e) ==> (e matches Error::Crypto(crate::base::error::CryptoError::KeyDerivation(m)) && m@
                == "operating system random source failed"@),
    {
        let shk = match random_32() {
            Some(b) => b,
            None => {
                return Err(Error::Crypto(crate::base::error::CryptoError::KeyDerivation("operating system random source failed".to_owned())));
            },
        };
        let port_rand = match random_u32() {
            Some(v) => v,
            None => {
                return Err(Error::Crypto(crate::base::error::CryptoError::KeyDerivation("operating system random source failed".to_owned())));
            },
        };
        let stream_connection_id = match random_u32() {
            Some(v) => v,
            None => {
                return Err(Error::Crypto(crate::base::error::CryptoError::KeyDerivation("operating system random source failed".to_owned())));
            },
        };
        let session_id = match new_uuid_v4() {
            Some(u) => u,
            None => {
                return Err(Error::Crypto(crate::base::error::CryptoError::KeyDerivation("operating system random source failed".to_owned())));
            },
        };
        let local_control_port: u16 = 49152 + (port_rand % 16383) as u16;
        Ok(Self {
            session_id,
            state: SessionState::Disconnected,
            client_device_id: device.id.to_mac_string(),
            stream_config,
            ports: None,
            local_control_port,
            stream_connection_id,
            shk,
            request_host: None,
        })
    }

    pub fn id(&self) -> (r: [u8; 16])
        ensures
            r@ == self.session_id(),
    {
        self.session_id
    }

    pub fn state(&self) -> (r: SessionState)
        ensures
            r == self.stage(),
    {
        self.state
    }

    pub fn set_client_device_id(&mut self, device_id: String)
        ensures
            final(self).client_device_id() == device_id@,
            final(self).stage() == old(self).stage(),
            final(self).request_host() == old(self).request_host(),
            final(self).session_id() == old(self).session_id(),
            final(self).config() == old(self).config(),
    {
        self.client_device_id = device_id;
    }

    pub fn set_request_host(&mut self, host: String)
        ensures
            final(self).request_host() == Some(host@),
            final(self).stage() == old(self).stage(),
            final(self).client_device_id() == old(self).client_device_id(),
            final(self).session_id() == old(self).session_id(),
            final(self).config() == old(self).config(),
    {
        self.request_host = Some(host);
    }

    pub fn set_local_control_port(&mut self, port: u16)
        ensures
            final(self).control_port() == port,
            final(self).stage() == old(self).stage(),
            final(self).session_id() == old(self).session_id(),
    {
        self.local_control_port = port;
    }

    /// `rtsp://{host}/{SESSION-UUID}`, the host `local` when none was set.
    pub fn request_uri(&self) -> (r: String)
        ensures
            r@ == "rtsp://"@ + uri_host(
                match self.request_host() {
                    Some(h) => h,
                    None => "local"@,
                },
            ) + "/"@ + uuid_text(self.session_id(), true),
    {
        let host: Vec<char> = match &self.request_host {
            Some(h) => str_chars(h.as_str()),
            None => str_chars("local"),
        };
        let bracket = find_char_exec(host.as_slice(), ':').is_some() && !(host.len() > 0 && host[0] == '[');
        let mut t: Vec<char> = Vec::new();
        push_str(&mut t, "rtsp://");
        if bracket {
            t.push('[');
            push_all(&mut t, host.as_slice());
            t.push(']');
        } else {
            push_all(&mut t, host.as_slice());
        }
        push_str(&mut t, "/");
        let u = uuid_string(&self.session_id, true);
        push_str(&mut t, u.as_str());
        proof {
            let hs = match self.request_host() {
                Some(h) => h,
                None => "local"@,
            };
            assert(host@ == hs);
        }
        string_from_chars(t.as_slice())
    }

    pub fn ports(&self) -> (r: Option<SessionPorts>)
        ensures
            r == self.session_ports(),
    {
        self.ports
    }

    pub fn stream_key(&self) -> (r: &[u8; 32])
        ensures
            r@ == self.shk(),
    {
        &self.shk
    }

    pub fn set_connected(&mut self) -> (r: Result<(), Error>)
        ensures
            old(self).stage() == SessionState::Disconnected ==> r is Ok && final(self).stage() == SessionState::Connected,
            old(self).stage() != SessionState::Disconnected ==> is_setup_failed(r, "Cannot connect from state "@ + state_name(old(self).stage()))
                && final(self).stage() == old(self).stage(),
            final(self).session_ports() == old(self).session_ports(),
            final(self).config() == old(self).config(),
            final(self).client_device_id() == old(self).client_device_id(),
            final(self).request_host() == old(self).request_host(),
    {
        if self.state != SessionState::Disconnected {
            return Err(refused("Cannot connect from state ", self.state));
        }
        self.state = SessionState::Connected;
        Ok(())
    }

    pub fn set_paired(&mut self) -> (r: Result<(), Error>)
        ensures
            old(self).stage() == SessionState::Connected ==> r is Ok && final(self).stage() == SessionState::Paired,
            old(self).stage() != SessionState::Connected ==> is_setup_failed(r, "Cannot pair from state "@ + state_name(old(self).stage()))
                && final(self).stage() == old(self).stage(),
            final(self).session_ports() == old(self).session_ports(),
    {
        if self.state != SessionState::Connected {
            return Err(refused("Cannot pair from state ", self.state));
        }
        self.state = SessionState::Paired;
        Ok(())
    }

    /// The phase-1 SETUP values: our device id, the session UUID (upper case), our timing
    /// port and protocol, and for PTP our timing peer (the given addresses, the session
    /// UUID in lower case) both alone and as a one-entry list.
    pub fn build_setup_phase1(&self, local_timing_port: u16, local_addresses: Option<Vec<String>>) -> (r: SetupPhase1Request)
        ensures
            r.device_id@ == self.client_device_id(),
            r.session_uuid@ == uuid_text(self.session_id(), true),
            r.timing_port == local_timing_port,
            r.timing_protocol@ == (if self.config().timing_protocol == TimingProtocol::Ptp {
                "PTP"@
            } else {
                "NTP"@
            }),
            self.config().timing_protocol == TimingProtocol::Ptp ==> (r.timing_peer_info matches Some(p)
                && p.id@ == uuid_text(self.session_id(), false) && p.supports_clock_port_matching_override
                && p.addresses@.map_values(|s: String| s@) == match local_addresses {
                Some(a) => a@.map_values(|s: String| s@),
                None => Seq::empty(),
            }),
            self.config().timing_protocol == TimingProtocol::Ptp ==> (r.timing_peer_list matches Some(l) && l@.len() == 1),
            self.config().timing_protocol != TimingProtocol::Ptp ==> r.timing_peer_info is None
                && r.timing_peer_list is None,
    {
        let is_ptp = self.stream_config.timing_protocol == TimingProtocol::Ptp;
        let timing_protocol = if is_ptp {
            "PTP".to_owned()
        } else {
            "NTP".to_owned()
        };
        let (timing_peer_info, timing_peer_list) = if is_ptp {
            let addresses: Vec<String> = match local_addresses {
                Some(a) => a,
                None => Vec::new(),
            };
            let mut list_addresses: Vec<String> = Vec::new();
            let mut i: usize = 0;
            while i < addresses.len()
                invariant
                    i <= addresses@.len(),
                    list_addresses@.len() == i,
                decreases addresses@.len() - i,
            {
                list_addresses.push(addresses[i].clone());
                i += 1;
            }
            let peer_info = TimingPeerInfo {
                addresses,
                id: uuid_string(&self.session_id, false),
                supports_clock_port_matching_override: true,
            };
            let peer_copy = TimingPeerInfo {
                addresses: list_addresses,
                id: uuid_string(&self.session_id, false),
                supports_clock_port_matching_override: true,
            };
            (Some(peer_info), Some(vec![peer_copy]))
        } else {
            (None, None)
        };
        SetupPhase1Request {
            device_id: self.client_device_id.clone(),
            session_uuid: uuid_string(&self.session_id, true),
            timing_port: local_timing_port,
            timing_protocol,
            timing_peer_info,
            timing_peer_list,
        }
    }

    /// Phase 1 answered: the event port is known; the other ports come in phase 2.
    pub fn process_setup_phase1_response(&mut self, response: &SetupPhase1Response) -> (r: Result<(), Error>)
        ensures
            old(self).stage() == SessionState::Paired ==> r is Ok && final(self).stage() == SessionState::SetupPhase1
                && final(self).session_ports() == Some(SessionPorts { data_port: 0, control_port: 0, event_port: response.event_port }),
            old(self).stage() != SessionState::Paired ==> is_setup_failed(
                r,
                "Cannot process phase 1 from state "@ + state_name(old(self).stage()),
            ) && final(self).stage() == old(self).stage() && final(self).session_ports() == old(self).session_ports(),
            final(self).config() == old(self).config(),
    {
        if self.state != SessionState::Paired {
            return Err(refused("Cannot process phase 1 from state ", self.state));
        }
        self.ports = Some(SessionPorts { data_port: 0, control_port: 0, event_port: response.event_port });
        self.state = SessionState::SetupPhase1;
        Ok(())
    }

    /// The SETPEERS body: the peer addresses as a binary plist array.
    pub fn build_setpeers(&self, peer_addresses: &[String]) -> (r: Result<Vec<u8>, Error>)
        ensures
            r matches Ok(b) && b@ == binary_plist_of_strings(peer_addresses@.map_values(|s: String| s@)),
    {
        match plist_binary_strings(peer_addresses) {
            Ok(b) => Ok(b),
            Err(m) => Err(Error::Rtsp(RtspError::PlistError(m))),
        }
    }

    /// The phase-2 SETUP values: one stream described by the configuration, our control
    /// port, the stream key and the connection id.
    pub fn build_setup_phase2(&self) -> (r: Result<SetupPhase2Request, Error>)
        ensures
            self.stage() != SessionState::SetupPhase1 ==> is_setup_failed(
                r,
                "Cannot build phase 2 from state "@ + state_name(self.stage()),
            ),
            self.stage() == SessionState::SetupPhase1 ==> (r matches Ok(req) && req.streams@.len() == 1 && ({
                let d = req.streams@[0];
                let c = self.config();
                &&& d.stream_type == stream_type_value(c.stream_type)
                &&& d.audio_format == audio_format_value_of(c.audio_format.codec)
                &&& d.audio_mode@ == "default"@
                &&& d.sample_rate == hz_of(c.audio_format.sample_rate)
                &&& d.ct == compression_type_of(c.audio_format.codec)
                &&& d.control_port == self.control_port()
                &&& d.is_media
                &&& d.latency_min == c.latency_min
                &&& d.latency_max == c.latency_max
                &&& d.shk@ == self.shk()
                &&& crate::base::device::opt_bytes(d.asc) == asc_of(c)
                &&& d.spf == c.audio_format.frames_per_packet
                &&& d.supports_dynamic_stream_id == c.supports_dynamic_stream_id
                &&& d.stream_connection_id == self.connection_id()
            })),
    {
        if self.state != SessionState::SetupPhase1 {
            return Err(refused("Cannot build phase 2 from state ", self.state));
        }
        let asc: Option<Vec<u8>> = match &self.stream_config.asc {
            Some(a) => {
                let mut v: Vec<u8> = Vec::new();
                put_all(&mut v, a.as_slice());
                Some(v)
            },
            None => match self.stream_config.audio_format.codec {
                AudioCodec::Aac | AudioCodec::AacEld => {
                    let v: Vec<u8> = vec![0x12u8, 0x10u8];
                    assert(v@ =~= seq![0x12u8, 0x10u8]);
                    Some(v)
                },
                _ => None,
            },
        };
        let mut shk: Vec<u8> = Vec::new();
        put_all(&mut shk, &self.shk);
        let c = &self.stream_config;
        let stream_def = StreamDef {
            stream_type: c.stream_type.value() as u32,
            audio_format: c.audio_format.codec.audio_format_value(),
            audio_mode: "default".to_owned(),
            sample_rate: c.audio_format.sample_rate.as_hz(),
            ct: c.audio_format.codec.compression_type(),
            control_port: self.local_control_port,
            is_media: true,
            latency_min: c.latency_min,
            latency_max: c.latency_max,
            shk,
            asc,
            spf: c.audio_format.frames_per_packet,
            supports_dynamic_stream_id: c.supports_dynamic_stream_id,
            stream_connection_id: self.stream_connection_id,
        };
        Ok(SetupPhase2Request { streams: vec![stream_def] })
    }

    /// Phase 2 answered: the data and control ports of our stream type; the session is
    /// ready.
    pub fn process_setup_phase2_response(&mut self, response: &SetupPhase2Response) -> (r: Result<(), Error>)
        ensures
            final(self).config() == old(self).config(),
            old(self).stage() != SessionState::SetupPhase1 ==> is_setup_failed(
                r,
                "Cannot process phase 2 from state "@ + state_name(old(self).stage()),
            ) && final(self).stage() == old(self).stage() && final(self).session_ports() == old(self).session_ports(),
            old(self).stage() == SessionState::SetupPhase1 ==> match first_stream_of_type(
                response.streams@,
                stream_type_value(old(self).config().stream_type) as u32,
            ) {
                None => is_setup_failed(r, "No matching stream in phase 2 response"@) && final(self).stage()
                    == old(self).stage() && final(self).session_ports() == old(self).session_ports(),
                Some(s) => r is Ok && final(self).stage() == SessionState::Ready && final(self).session_ports()
                    == match old(self).session_ports() {
                    Some(p) => Some(SessionPorts { data_port: s.data_port, control_port: s.control_port, ..p }),
                    None => None,
                },
            },
    {
        if self.state != SessionState::SetupPhase1 {
            return Err(refused("Cannot process phase 2 from state ", self.state));
        }
        let want = self.stream_config.stream_type.value() as u32;
        let found = find_stream(response.streams.as_slice(), want);
        let s = match found {
            Some(s) => s,
            None => {
                return Err(Error::Rtsp(RtspError::SetupFailed("No matching stream in phase 2 response".to_owned())));
            },
        };
        match self.ports {
            Some(p) => {
                self.ports = Some(SessionPorts { data_port: s.data_port, control_port: s.control_port, event_port: p.event_port });
            },
            None => {},
        }
        self.state = SessionState::Ready;
        Ok(())
    }

    pub fn start_playing(&mut self) -> (r: Result<(), Error>)
        ensures
            (old(self).stage() == SessionState::Ready || old(self).stage() == SessionState::Paused) ==> r is Ok
                && final(self).stage() == SessionState::Playing,
            !(old(self).stage() == SessionState::Ready || old(self).stage() == SessionState::Paused) ==> is_setup_failed(
                r,
                "Cannot start playing from state "@ + state_name(old(self).stage()),
            ) && final(self).stage() == old(self).stage(),
            final(self).session_ports() == old(self).session_ports(),
    {
        if self.state != SessionState::Ready && self.state != SessionState::Paused {
            return Err(refused("Cannot start playing from state ", self.state));
        }
        self.state = SessionState::Playing;
        Ok(())
    }

    pub fn pause(&mut self) -> (r: Result<(), Error>)
        ensures
            old(self).stage() == SessionState::Playing ==> r is Ok && final(self).stage() == SessionState::Paused,
            old(self).stage() != SessionState::Playing ==> is_setup_failed(r, "Cannot pause from state "@ + state_name(old(self).stage()))
                && final(self).stage() == old(self).stage(),
            final(self).session_ports() == old(self).session_ports(),
    {
        if self.state != SessionState::Playing {
            return Err(refused("Cannot pause from state ", self.state));
        }
        self.state = SessionState::Paused;
        Ok(())
    }

    pub fn start_teardown(&mut self) -> (r: Result<(), Error>)
        ensures
            old(self).stage() == SessionState::Disconnected ==> is_setup_failed(r, "Not connected"@) && final(self).stage()
                == old(self).stage(),
            old(self).stage() == SessionState::TearingDown ==> is_setup_failed(r, "Already tearing down"@)
                && final(self).stage() == old(self).stage(),
            old(self).stage() != SessionState::Disconnected && old(self).stage() != SessionState::TearingDown ==> r is Ok
                && final(self).stage() == SessionState::TearingDown,
            final(self).session_ports() == old(self).session_ports(),
    {
        match self.state {
            SessionState::Disconnected => {
                return Err(Error::Rtsp(RtspError::SetupFailed("Not connected".to_owned())));
            },
            SessionState::TearingDown => {
                return Err(Error::Rtsp(RtspError::SetupFailed("Already tearing down".to_owned())));
            },
            _ => {},
        }
        self.state = SessionState::TearingDown;
        Ok(())
    }
}

/// Finds the first stream of type `t`.
fn find_stream(streams: &[StreamResponse], t: u32) -> (r: Option<StreamResponse>)
    ensures
        r == first_stream_of_type(streams@, t),
{
    let mut i: usize = 0;
    assert(streams@.skip(0) =~= streams@);
    while i < streams.len()
        invariant
            i <= streams@.len(),
            first_stream_of_type(streams@, t) == first_stream_of_type(streams@.skip(i as int), t),
        decreases streams@.len() - i,
    {
        let ghost rest = streams@.skip(i as int);
        assert(rest.drop_first() =~= streams@.skip(i + 1));
        assert(rest[0] == streams@[i as int]);
        if streams[i].stream_type == t {
            return Some(streams[i]);
        }
        i += 1;
    }
    None
}

/// The first stream of the given type.
pub open spec fn first_stream_of_type(s: Seq<crate::rtsp::plist_codec::StreamResponse>, t: u32) -> Option<crate::rtsp::plist_codec::StreamResponse>
    decreases s.len(),
{
    if s.len() == 0 {
        None
    } else if s[0].stream_type == t {
        Some(s[0])
    } else {
        first_stream_of_type(s.drop_first(), t)
    }
}

} // verus!

//! The values of the binary-plist bodies of the SETUP exchange, whose (de)serialization
//! is the caller's; and the binary plist of a list of strings, which the library writes.
use vstd::prelude::*;

verus! {

/// What `plist::to_writer_binary` writes for a list of strings: the binary plist of an
/// array of those strings.
pub uninterp spec fn binary_plist_of_strings(items: Seq<Seq<char>>) -> Seq<u8>;

/// `plist::to_writer_binary` on the strings as a `Vec<String>`, into a byte vector; its
/// error turned into the error's text. Claims: it succeeds, and the bytes are the named
/// encoding of the strings. The binary writer fails only on misused dictionaries or on
/// the writer's I/O, and an array of strings written to memory has neither.
#[verifier::external_body]
pub(crate) fn plist_binary_strings(items: &[String]) -> (r: Result<Vec<u8>, String>)
    ensures
        r is Ok,
        r matches Ok(b) ==> b@ == binary_plist_of_strings(items@.map_values(|s: String| s@)),
{
    let mut buf: Vec<u8> = Vec::new();
    match plist::to_writer_binary(std::io::Cursor::new(&mut buf), &items.to_vec()) {
        Ok(()) => Ok(buf),
        Err(e) => Err(e.to_string()),
    }
}

#[derive(Debug, Clone)]
pub struct TimingPeerInfo {
    pub addresses: Vec<String>,
    pub id: String,
    pub supports_clock_port_matching_override: bool,
}

#[derive(Debug, Clone)]
pub struct SetupPhase1Request {
    pub device_id: String,
    pub session_uuid: String,
    pub timing_port: u16,
    pub timing_protocol: String,
    pub timing_peer_info: Option<TimingPeerInfo>,
    pub timing_peer_list: Option<Vec<TimingPeerInfo>>,
}

#[derive(Debug, Clone)]
pub struct SetupPhase1Response {
    pub event_port: u16,
    pub timing_port: u16,
    pub timing_peer_info: Option<TimingPeerInfo>,
}

#[derive(Debug, Clone)]
pub struct StreamDef {
    pub stream_type: u32,
    pub audio_format: u32,
    pub audio_mode: String,
    pub sample_rate: u32,
    pub ct: u8,
    pub control_port: u16,
    pub is_media: bool,
    pub latency_min: u32,
    pub latency_max: u32,
    pub shk: Vec<u8>,
    pub asc: Option<Vec<u8>>,
    pub spf: u32,
    pub supports_dynamic_stream_id: bool,
    pub stream_connection_id: u32,
}

#[derive(Debug, Clone)]
pub struct SetupPhase2Request {
    pub streams: Vec<StreamDef>,
}

#[derive(Debug, Clone, Copy)]
pub struct StreamResponse {
    pub stream_type: u32,
    pub data_port: u16,
    pub control_port: u16,
    pub stream_id: i64,
}

#[derive(Debug, Clone)]
pub struct SetupPhase2Response {
    pub streams: Vec<StreamResponse>,
}

} // verus!

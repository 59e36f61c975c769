//! The local side of connecting to a receiver: the client's device id, the headers every
//! request carries, and the control-channel keys that pairing yields.
use crate::base::error::{CryptoError, Error, RtspError};
use crate::base::random::random_32;
use crate::crypto::chacha::ControlCipher;
use crate::pairing::session::PairingSession;
use crate::protocol::{AIRPLAY_ACTIVE_REMOTE, AIRPLAY_CLIENT_NAME, AIRPLAY_USER_AGENT};
use crate::rtsp::connection::RtspConnection;
use crate::rtsp::request::{remove_colons, without_colons};
use crate::rtsp::session::{is_setup_failed, state_name, RtspSession, SessionState};
use crate::text::{hex2, push_hex2, string_from_chars};
use vstd::prelude::*;

verus! {

/// Six bytes written `XX:XX:XX:XX:XX:XX` in upper-case hexadecimal.
pub open spec fn device_id_text(b: Seq<u8>) -> Seq<char> {
    hex2(b[0]) + ":"@ + hex2(b[1]) + ":"@ + hex2(b[2]) + ":"@ + hex2(b[3]) + ":"@ + hex2(b[4]) + ":"@
        + hex2(b[5])
}

/// The headers every request of a client with id `id` carries, in order.
pub open spec fn default_headers(id: Seq<char>) -> Seq<(Seq<char>, Seq<char>)> {
    seq![
        ("User-Agent"@, AIRPLAY_USER_AGENT@),
        ("X-Apple-Client-Name"@, AIRPLAY_CLIENT_NAME@),
        ("X-Apple-Device-ID"@, id),
        ("DACP-ID"@, without_colons(id)),
        ("Client-Instance"@, without_colons(id)),
        ("Active-Remote"@, AIRPLAY_ACTIVE_REMOTE@),
    ]
}

pub fn device_id_from_bytes(bytes: &[u8; 6]) -> (r: String)
    ensures
        r@ == device_id_text(bytes@),
{
    let mut t: Vec<char> = Vec::new();
    push_hex2(&mut t, bytes[0]);
    t.push(':');
    push_hex2(&mut t, bytes[1]);
    t.push(':');
    push_hex2(&mut t, bytes[2]);
    t.push(':');
    push_hex2(&mut t, bytes[3]);
    t.push(':');
    push_hex2(&mut t, bytes[4]);
    t.push(':');
    push_hex2(&mut t, bytes[5]);
    proof {
        reveal_strlit(":");
    }
    assert(t@ =~= device_id_text(bytes@));
    string_from_chars(t.as_slice())
}

/// A fresh random device id; an error when the operating system's random source fails.
pub fn generate_device_id() -> (r: Result<String, Error>)
    ensures
        r matches Ok(s) ==> exists|b: Seq<u8>| b.len() == 6 && s@ == device_id_text(b),
        r matches Err(e) ==> (e matches Error::Crypto(CryptoError::KeyDerivation(m)) && m@
            == "operating system random source failed"@),
{
    let bytes = match random_32() {
        Some(b) => b,
        None => {
            return Err(
                Error::Crypto(CryptoError::KeyDerivation("operating system random source failed".to_owned())),
            );
        },
    };
    let six: [u8; 6] = [bytes[0], bytes[1], bytes[2], bytes[3], bytes[4], bytes[5]];
    let s = device_id_from_bytes(&six);
    assert(six@.len() == 6);
    Ok(s)
}

/// Adds the headers every request carries (see `default_headers`).
pub fn add_default_rtsp_headers(rtsp: &mut RtspConnection, client_device_id: &str)
    ensures
        final(rtsp).session_headers() == old(rtsp).session_headers() + default_headers(client_device_id@),
        final(rtsp).cseq() == old(rtsp).cseq(),
        final(rtsp).cipher() == old(rtsp).cipher(),
        final(rtsp).addr() == old(rtsp).addr(),
{
    let client_instance = remove_colons(client_device_id);
    rtsp.add_session_header("User-Agent", AIRPLAY_USER_AGENT);
    rtsp.add_session_header("X-Apple-Client-Name", AIRPLAY_CLIENT_NAME);
    rtsp.add_session_header("X-Apple-Device-ID", client_device_id);
    rtsp.add_session_header("DACP-ID", client_instance.as_str());
    rtsp.add_session_header("Client-Instance", client_instance.as_str());
    rtsp.add_session_header("Active-Remote", AIRPLAY_ACTIVE_REMOTE);
    assert(rtsp.session_headers() =~= old(rtsp).session_headers() + default_headers(client_device_id@));
}

/// Readies a session on a fresh connection: records the client's id, marks the session
/// connected, names the host that request URIs carry, and adds the default headers.
pub fn open_session(session: &mut RtspSession, rtsp: &mut RtspConnection, client_device_id: &str, host: String) -> (r:
    Result<(), Error>)
    ensures
        old(session).stage() != SessionState::Disconnected ==> is_setup_failed(
            r,
            "Cannot connect from state "@ + state_name(old(session).stage()),
        ) && final(rtsp).session_headers() == old(rtsp).session_headers() && final(session).stage() == old(
            session).stage(),
        old(session).stage() == SessionState::Disconnected ==> r is Ok && final(session).stage()
            == SessionState::Connected && final(session).client_device_id() == client_device_id@ && final(
            session).request_host() == Some(host@) && final(rtsp).session_headers() == old(rtsp).session_headers()
            + default_headers(client_device_id@),
        final(session).config() == old(session).config(),
        final(rtsp).cseq() == old(rtsp).cseq(),
        final(rtsp).cipher() == old(rtsp).cipher(),
        final(rtsp).addr() == old(rtsp).addr(),
{
    session.set_client_device_id(client_device_id.to_owned());
    match session.set_connected() {
        Ok(()) => {},
        Err(e) => {
            return Err(e);
        },
    }
    session.set_request_host(host);
    add_default_rtsp_headers(rtsp, client_device_id);
    Ok(())
}

/// Seals the control channel with the keys a finished pairing yielded; an error when the
/// pairing has none.
pub fn install_pairing_keys(rtsp: &mut RtspConnection, pairing: &mut PairingSession) -> (r: Result<(), Error>)
    ensures
        final(pairing).keys() is None,
        final(pairing).stage() == old(pairing).stage(),
        final(rtsp).cseq() == old(rtsp).cseq(),
        final(rtsp).addr() == old(rtsp).addr(),
        final(rtsp).session_headers() == old(rtsp).session_headers(),
        match old(pairing).keys() {
            Some((w, rd)) => r is Ok && (final(rtsp).cipher() matches Some(c) && c.write_key() == w && c.read_key()
                == rd && c.encrypt_counter() == 0 && c.decrypt_counter() == 0),
            None => is_setup_failed(r, "Missing session keys after transient pairing"@) && final(rtsp).cipher()
                == old(rtsp).cipher(),
        },
{
    let keys = match pairing.take_session_keys() {
        Some(k) => k,
        None => {
            return Err(
                Error::Rtsp(RtspError::SetupFailed("Missing session keys after transient pairing".to_owned())),
            );
        },
    };
    let cipher = ControlCipher::new(*keys.write_key.as_bytes(), *keys.read_key.as_bytes());
    rtsp.set_cipher(cipher);
    Ok(())
}

} // verus!

//! The decisions of a receiver connection: which timing it runs, what the first SETUP
//! answer leads to, and the RTP sender it streams with. The sockets, the RTSP round trips
//! and the timing tasks stay with the caller.
use crate::audio::cipher::ChaChaPacketCipher;
use crate::audio::sender::RtpSender;
use crate::base::error::{Error, RtspError};
use crate::base::net::{best_address_index, select_best_address, Endpoint, IpAddress};
use crate::base::stream::{PtpMode, StreamConfig, TimingProtocol};
use crate::crypto::chacha::AudioCipher;
use crate::rtsp::connection::RtspConnection;
use crate::rtsp::plist_codec::SetupPhase1Response;
use crate::rtsp::response::{exact_lookup, RtspResponse};
use crate::rtsp::request::pairs_view;
use crate::rtsp::session::{is_setup_failed, state_name, RtspSession, SessionPorts, SessionState};
use crate::timing::ptp::types::PTP_EVENT_PORT;
use vstd::prelude::*;

verus! {

/// How a connection keeps time with the receiver.
#[derive(Debug, Clone, Copy, PartialEq, Eq, Structural)]
pub enum TimingPlan {
    /// Answer the receiver's NTP queries; the sender is the reference.
    NtpServer,
    /// Yield the PTP master role to the receiver and follow its clock.
    PtpMaster,
    /// Follow the receiver's PTP clock as a slave.
    PtpSlave,
}

pub open spec fn timing_plan_of(c: StreamConfig) -> TimingPlan {
    match c.timing_protocol {
        TimingProtocol::Ntp => TimingPlan::NtpServer,
        TimingProtocol::Ptp => match c.ptp_mode {
            PtpMode::Master => TimingPlan::PtpMaster,
            PtpMode::Slave => TimingPlan::PtpSlave,
        },
    }
}

pub fn timing_plan(config: &StreamConfig) -> (r: TimingPlan)
    ensures
        r == timing_plan_of(*config),
{
    match config.timing_protocol {
        TimingProtocol::Ntp => TimingPlan::NtpServer,
        TimingProtocol::Ptp => match config.ptp_mode {
            PtpMode::Master => TimingPlan::PtpMaster,
            PtpMode::Slave => TimingPlan::PtpSlave,
        },
    }
}

/// The timing port announced in SETUP: the NTP server's port under NTP, the PTP event
/// port under PTP.
pub fn local_timing_port(config: &StreamConfig, ntp_server_port: u16) -> (r: u16)
    ensures
        r == (if config.timing_protocol == TimingProtocol::Ntp {
            ntp_server_port
        } else {
            PTP_EVENT_PORT
        }),
{
    match config.timing_protocol {
        TimingProtocol::Ntp => ntp_server_port,
        TimingProtocol::Ptp => PTP_EVENT_PORT,
    }
}

/// The session id a SETUP answer gives: its `Session` header, else `1`.
pub open spec fn session_id_of(response: RtspResponse) -> Seq<char> {
    match exact_lookup(pairs_view(response.headers@), "Session"@) {
        Some(v) => v,
        None => "1"@,
    }
}

/// Takes in the first SETUP answer (`response`, whose body decoded to `body`): the session
/// records the event port, the connection sends the session id from now on, and the
/// receiver's best address is chosen. Gives that address and the event port.
pub fn finish_setup_phase1(
    session: &mut RtspSession,
    rtsp: &mut RtspConnection,
    addresses: &[IpAddress],
    response: &RtspResponse,
    body: &SetupPhase1Response,
) -> (r: Result<(IpAddress, u16), Error>)
    ensures
        final(session).config() == old(session).config(),
        final(rtsp).cseq() == old(rtsp).cseq(),
        final(rtsp).cipher() == old(rtsp).cipher(),
        final(rtsp).addr() == old(rtsp).addr(),
        old(session).stage() != SessionState::Paired ==> is_setup_failed(
            r,
            "Cannot process phase 1 from state "@ + state_name(old(session).stage()),
        ) && final(session).stage() == old(session).stage() && final(rtsp).session_headers() == old(
            rtsp).session_headers(),
        old(session).stage() == SessionState::Paired ==> {
            &&& final(session).stage() == SessionState::SetupPhase1
            &&& final(session).session_ports() == Some(
                SessionPorts { data_port: 0, control_port: 0, event_port: body.event_port },
            )
            &&& final(rtsp).session_headers() == old(rtsp).session_headers().push(
                ("Session"@, session_id_of(*response)),
            )
            &&& match best_address_index(addresses@) {
                Some(i) => r == Ok::<(IpAddress, u16), Error>((addresses@[i], body.event_port)),
                None => r == Err::<(IpAddress, u16), Error>(Error::Rtsp(RtspError::ConnectionRefused)),
            }
        },
{
    match session.process_setup_phase1_response(body) {
        Ok(()) => {},
        Err(e) => {
            return Err(e);
        },
    }
    match response.header_exact("Session") {
        Some(id) => rtsp.add_session_header("Session", id),
        None => rtsp.add_session_header("Session", "1"),
    }
    let addr = match select_best_address(addresses) {
        Some(i) => addresses[i],
        None => {
            return Err(Error::Rtsp(RtspError::ConnectionRefused));
        },
    };
    match session.ports() {
        Some(ports) => Ok((addr, ports.event_port)),
        None => Err(Error::Rtsp(RtspError::InvalidResponse("No ports in SETUP response".to_owned()))),
    }
}

/// The RTP sender for a set-up session: data to the receiver's best address at the data
/// port, sync packets to its control port, SSRC 0, packets sealed with the stream key.
pub fn build_rtp_sender(session: &RtspSession, addresses: &[IpAddress]) -> (r: Result<RtpSender, Error>)
    ensures
        session.session_ports() is None ==> (r matches Err(Error::Rtsp(RtspError::SetupFailed(m))) && m@
            == "Missing ports from SETUP"@),
        session.session_ports() is Some && best_address_index(addresses@) is None ==> r == Err::<
            RtpSender,
            Error,
        >(Error::Rtsp(RtspError::ConnectionRefused)),
        session.session_ports() matches Some(p) ==> match best_address_index(addresses@) {
            Some(i) => r matches Ok(s) && {
                &&& s.wf()
                &&& s.dest() == Endpoint { addr: addresses@[i], port: p.data_port }
                &&& s.control_dest() == Some(Endpoint { addr: addresses@[i], port: p.control_port })
                &&& s.ssrc() == 0 && s.sequence() == 0 && s.sync_sequence() == 0
                &&& !s.first_sync_sent()
                &&& s.cipher_key() == Some(session.shk())
                &&& forall|k: int| 0 <= k < 512 ==> s.history()[k] is None
            },
            None => true,
        },
{
    let ports = match session.ports() {
        Some(p) => p,
        None => {
            return Err(Error::Rtsp(RtspError::SetupFailed("Missing ports from SETUP".to_owned())));
        },
    };
    let addr = match select_best_address(addresses) {
        Some(i) => addresses[i],
        None => {
            return Err(Error::Rtsp(RtspError::ConnectionRefused));
        },
    };
    let dest = Endpoint::new(addr, ports.data_port);
    let control_dest = Endpoint::new(addr, ports.control_port);
    let mut sender = RtpSender::new(dest, 0);
    sender.set_control_dest(control_dest);
    let stream_key = *session.stream_key();
    sender.set_cipher(ChaChaPacketCipher::new(AudioCipher::new(stream_key)));
    Ok(sender)
}

} // verus!

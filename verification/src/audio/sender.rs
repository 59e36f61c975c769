//! The packet side of an RTP sender: sequence numbers, sealing, sync packets and the
//! history that answers retransmission requests. Sockets stay with the caller.
use crate::audio::cipher::{ChaChaPacketCipher, EncryptedPayload, PacketCipher};
use crate::audio::packet::{rtp_header_bytes, RtpHeader, RtpPacket};
use crate::audio::retransmit::{build_retransmit_response, retransmit_response, RetransmitRequest};
use crate::base::error::Error;
use crate::base::net::Endpoint;
use crate::bytes::{be16, be32, be64, from_be, get_be16, lemma_from_be16, lemma_from_be32, put_all, put_be16, put_be32, put_be64};
use crate::crypto::chacha::{audio_aad, chacha_seal, seq_nonce};
use vstd::prelude::*;

verus! {

pub const PACKET_HISTORY_SIZE: usize = 512;

pub struct RtpSender {
    dest: Endpoint,
    control_dest: Option<Endpoint>,
    sequence: u16,
    ssrc: u32,
    cipher: Option<ChaChaPacketCipher>,
    sync_sequence: u16,
    first_sync_sent: bool,
    packet_history: Vec<Option<Vec<u8>>>,
}

/// The stored packets, slot by slot.
pub open spec fn history_view(h: Seq<Option<Vec<u8>>>) -> Seq<Option<Seq<u8>>> {
    h.map_values(|o: Option<Vec<u8>>| match o {
        Some(v) => Some(v@),
        None => None,
    })
}

/// The answer that the slot for sequence number `q` gives: none for an empty slot or for
/// a slot whose packet (of four bytes or more) carries another sequence number.
pub open spec fn slot_answer(h: Seq<Option<Seq<u8>>>, q: u16) -> Option<Seq<u8>> {
    match h[(q as int) % 512] {
        Some(p) => if p.len() >= 4 && (p[2] as int) * 256 + (p[3] as int) != q as int {
            None
        } else {
            Some(retransmit_response(p))
        },
        None => None,
    }
}

/// The answers to a request for `count` packets from `first` on, sequence numbers
/// wrapping at 65536, in request order.
pub open spec fn retransmit_answers(h: Seq<Option<Seq<u8>>>, first: u16, count: nat) -> Seq<Seq<u8>>
    decreases count,
{
    if count == 0 {
        Seq::<Seq<u8>>::empty()
    } else {
        let q = ((first + count - 1) % 0x1_0000) as u16;
        retransmit_answers(h, first, (count - 1) as nat) + match slot_answer(h, q) {
            Some(a) => seq![a],
            None => Seq::<Seq<u8>>::empty(),
        }
    }
}

/// The last eight bytes of the audio nonce for a sequence number.
pub open spec fn nonce_tail(sequence: u16) -> Seq<u8> {
    seq_nonce(sequence).skip(4)
}

/// An audio packet on the wire: the header, then the payload, or, with a cipher key,
/// the ChaCha20-Poly1305 seal of the payload (ciphertext and tag) and the nonce's last
/// eight bytes.
pub open spec fn audio_wire(key: Option<Seq<u8>>, header: RtpHeader, payload: Seq<u8>) -> Seq<u8> {
    match key {
        None => rtp_header_bytes(header) + payload,
        Some(k) => rtp_header_bytes(header) + chacha_seal(
            k,
            seq_nonce(header.sequence),
            audio_aad(header.timestamp, header.ssrc),
            payload,
        ) + nonce_tail(header.sequence),
    }
}

/// The header of an audio packet.
pub open spec fn audio_header(pt: u8, sequence: u16, timestamp: u32, ssrc: u32, marker: bool) -> RtpHeader {
    RtpHeader {
        version: 2,
        padding: false,
        extension: false,
        csrc_count: 0,
        marker,
        payload_type: pt,
        sequence,
        timestamp,
        ssrc,
    }
}

/// The first byte of a sync packet: `0x90` (extension bit set) on the first one after
/// a reset, `0x80` after that.
pub open spec fn sync_first_byte(first_sent: bool) -> u8 {
    if first_sent {
        0x80
    } else {
        0x90
    }
}

/// An NTP sync packet: type `0xd4`, the sync sequence number, the RTP timestamp, the
/// NTP timestamp and the RTP timestamp again.
pub open spec fn ntp_sync_packet(first_sent: bool, sync_seq: u16, rtp_ts: u32, ntp_ts: u64) -> Seq<u8> {
    seq![sync_first_byte(first_sent), 0xd4u8] + be16(sync_seq) + be32(rtp_ts) + be64(ntp_ts) + be32(
        rtp_ts,
    )
}

/// Whole seconds of a PTP time in nanoseconds, truncated to 32 bits.
pub open spec fn ptp_secs(ns: u64) -> u32 {
    (ns / 1_000_000_000 % 0x1_0000_0000) as u32
}

/// The fraction of a second of a PTP time, in units of 2^-32 s, rounded down.
pub open spec fn ptp_frac(ns: u64) -> u32 {
    ((ns % 1_000_000_000) * 0x1_0000_0000 / 1_000_000_000) as u32
}

/// A PTP sync packet: type `0xD7`, the sync sequence number, the current RTP timestamp,
/// the PTP time as seconds and fraction, the next RTP timestamp and the master clock.
pub open spec fn ptp_sync_packet(
    first_sent: bool,
    sync_seq: u16,
    current_rtp_ts: u32,
    ptp_ns: u64,
    next_rtp_ts: u32,
    clock_id: Seq<u8>,
) -> Seq<u8> {
    seq![sync_first_byte(first_sent), 0xD7u8] + be16(sync_seq) + be32(current_rtp_ts) + be32(
        ptp_secs(ptp_ns),
    ) + be32(ptp_frac(ptp_ns)) + be32(next_rtp_ts) + clock_id
}

/// A copy of `s`.
fn copy_bytes(s: &[u8]) -> (r: Vec<u8>)
    ensures
        r@ == s@,
{
    let mut r: Vec<u8> = Vec::new();
    put_all(&mut r, s);
    r
}

impl RtpSender {
    /// The history has one slot per residue of the sequence number modulo 512.
    pub closed spec fn wf(&self) -> bool {
        self.packet_history@.len() == 512
    }

    pub closed spec fn dest(&self) -> Endpoint {
        self.dest
    }

    pub closed spec fn control_dest(&self) -> Option<Endpoint> {
        self.control_dest
    }

    /// Where sync packets go: the control destination, else the data destination.
    pub open spec fn sync_dest(&self) -> Endpoint {
        match self.control_dest() {
            Some(d) => d,
            None => self.dest(),
        }
    }

    pub closed spec fn sequence(&self) -> u16 {
        self.sequence
    }

    pub closed spec fn ssrc(&self) -> u32 {
        self.ssrc
    }

    pub closed spec fn sync_sequence(&self) -> u16 {
        self.sync_sequence
    }

    pub closed spec fn first_sync_sent(&self) -> bool {
        self.first_sync_sent
    }

    /// The key of the installed cipher, if any.
    pub closed spec fn cipher_key(&self) -> Option<Seq<u8>> {
        match self.cipher {
            Some(c) => Some(c.key()),
            None => None,
        }
    }

    pub closed spec fn history(&self) -> Seq<Option<Seq<u8>>> {
        history_view(self.packet_history@)
    }

    pub fn new(dest: Endpoint, ssrc: u32) -> (r: Self)
        ensures
            r.wf(),
            r.dest() == dest,
            r.control_dest() is None,
            r.sequence() == 0,
            r.ssrc() == ssrc,
            r.cipher_key() is None,
            r.sync_sequence() == 0,
            !r.first_sync_sent(),
            r.history().len() == 512,
            forall|i: int| 0 <= i < 512 ==> r.history()[i] is None,
    {
        let mut packet_history: Vec<Option<Vec<u8>>> = Vec::new();
        while packet_history.len() < PACKET_HISTORY_SIZE
            invariant
                packet_history@.len() <= 512,
                forall|i: int| 0 <= i < packet_history@.len() ==> packet_history@[i] is None,
            decreases 512 - packet_history@.len(),
        {
            packet_history.push(None);
        }
        Self {
            dest,
            control_dest: None,
            sequence: 0,
            ssrc,
            cipher: None,
            sync_sequence: 0,
            first_sync_sent: false,
            packet_history,
        }
    }

    pub fn set_control_dest(&mut self, dest: Endpoint)
        requires
            old(self).wf(),
        ensures
            final(self).wf(),
            final(self).control_dest() == Some(dest),
            final(self).dest() == old(self).dest(),
            final(self).sequence() == old(self).sequence(),
            final(self).ssrc() == old(self).ssrc(),
            final(self).cipher_key() == old(self).cipher_key(),
            final(self).sync_sequence() == old(self).sync_sequence(),
            final(self).first_sync_sent() == old(self).first_sync_sent(),
            final(self).history() == old(self).history(),
    {
        self.control_dest = Some(dest);
    }

    pub fn set_cipher(&mut self, cipher: ChaChaPacketCipher)
        requires
            old(self).wf(),
        ensures
            final(self).wf(),
            final(self).cipher_key() == Some(cipher.key()),
            final(self).dest() == old(self).dest(),
            final(self).control_dest() == old(self).control_dest(),
            final(self).sequence() == old(self).sequence(),
            final(self).ssrc() == old(self).ssrc(),
            final(self).sync_sequence() == old(self).sync_sequence(),
            final(self).first_sync_sent() == old(self).first_sync_sent(),
            final(self).history() == old(self).history(),
    {
        self.cipher = Some(cipher);
    }

    /// The next sync packet is again marked as the first.
    pub fn reset_sync_state(&mut self)
        requires
            old(self).wf(),
        ensures
            final(self).wf(),
            !final(self).first_sync_sent(),
            final(self).dest() == old(self).dest(),
            final(self).control_dest() == old(self).control_dest(),
            final(self).sequence() == old(self).sequence(),
            final(self).ssrc() == old(self).ssrc(),
            final(self).cipher_key() == old(self).cipher_key(),
            final(self).sync_sequence() == old(self).sync_sequence(),
            final(self).history() == old(self).history(),
    {
        self.first_sync_sent = false;
    }

    /// The bytes of the next audio packet. On success the packet is stored in the slot of
    /// its sequence number and the sequence number advances (wrapping); a failure of the
    /// cipher changes nothing.
    fn serialize_audio(&mut self, payload_type: u8, timestamp: u32, payload: &[u8], marker: bool) -> (r: Result<
        Vec<u8>,
        Error,
    >)
        requires
            old(self).wf(),
        ensures
            final(self).wf(),
            final(self).dest() == old(self).dest(),
            final(self).control_dest() == old(self).control_dest(),
            final(self).ssrc() == old(self).ssrc(),
            final(self).cipher_key() == old(self).cipher_key(),
            final(self).sync_sequence() == old(self).sync_sequence(),
            final(self).first_sync_sent() == old(self).first_sync_sent(),
            (r is Err) <==> (old(self).cipher_key() is Some && payload@.len() / 64 >= 0xFFFF_FFFF),
            r is Err ==> final(self).sequence() == old(self).sequence() && final(self).history() == old(self).history(),
            r matches Ok(out) ==> {
                &&& out@ == audio_wire(
                    old(self).cipher_key(),
                    audio_header(payload_type, old(self).sequence(), timestamp, old(self).ssrc(), marker),
                    payload@,
                )
                &&& final(self).sequence() == (old(self).sequence() + 1) % 0x1_0000
                &&& final(self).history() == old(self).history().update(
                    (old(self).sequence() as int) % 512,
                    Some(out@),
                )
            },
    {
        let header = RtpHeader::new(payload_type, self.sequence, timestamp, self.ssrc).with_marker(marker);
        let serialized: Vec<u8> = match &self.cipher {
            Some(cipher) => {
                let encrypted: EncryptedPayload = match cipher.encrypt_payload(payload, timestamp, self.ssrc, self.sequence) {
                    Ok(e) => e,
                    Err(e) => {
                        return Err(e);
                    },
                };
                let header_bytes = header.serialize();
                let mut out: Vec<u8> = Vec::new();
                put_all(&mut out, &header_bytes);
                put_all(&mut out, encrypted.data.as_slice());
                if let Some(tag) = &encrypted.tag {
                    put_all(&mut out, tag);
                }
                if let Some(nonce) = &encrypted.nonce {
                    put_all(&mut out, nonce);
                }
                out
            },
            None => {
                let packet = RtpPacket::new(header, copy_bytes(payload));
                packet.serialize()
            },
        };
        assert(serialized@ =~= audio_wire(
            self.cipher_key(),
            audio_header(payload_type, self.sequence, timestamp, self.ssrc, marker),
            payload@,
        ));
        let idx: usize = self.sequence as usize % PACKET_HISTORY_SIZE;
        let stored = copy_bytes(serialized.as_slice());
        let ghost h0 = self.packet_history@;
        self.packet_history.set(idx, Some(stored));
        assert(history_view(self.packet_history@) =~= history_view(h0).update(idx as int, Some(serialized@)));
        self.sequence = self.sequence.wrapping_add(1);
        Ok(serialized)
    }

    /// The next audio packet, ready to send (see `serialize_audio`).
    pub fn prepare_audio(&mut self, payload_type: u8, timestamp: u32, payload: &[u8], marker: bool) -> (r: Result<
        Vec<u8>,
        Error,
    >)
        requires
            old(self).wf(),
        ensures
            final(self).wf(),
            final(self).dest() == old(self).dest(),
            final(self).control_dest() == old(self).control_dest(),
            final(self).ssrc() == old(self).ssrc(),
            final(self).cipher_key() == old(self).cipher_key(),
            final(self).sync_sequence() == old(self).sync_sequence(),
            final(self).first_sync_sent() == old(self).first_sync_sent(),
            (r is Err) <==> (old(self).cipher_key() is Some && payload@.len() / 64 >= 0xFFFF_FFFF),
            r is Err ==> final(self).sequence() == old(self).sequence() && final(self).history() == old(self).history(),
            r matches Ok(out) ==> audio_prepared(*old(self), *final(self), out@, (payload_type, timestamp, payload@, marker)),
    {
        self.serialize_audio(payload_type, timestamp, payload, marker)
    }

    /// The next NTP sync packet, or `None` when the sync destination has port 0 (no
    /// control port); a packet marks the first sync as sent and advances the sync
    /// sequence number.
    pub fn prepare_sync(&mut self, rtp_timestamp: u32, ntp_timestamp: u64) -> (r: Result<
        Option<Vec<u8>>,
        Error,
    >)
        requires
            old(self).wf(),
        ensures
            final(self).wf(),
            final(self).dest() == old(self).dest(),
            final(self).control_dest() == old(self).control_dest(),
            final(self).sequence() == old(self).sequence(),
            final(self).ssrc() == old(self).ssrc(),
            final(self).cipher_key() == old(self).cipher_key(),
            final(self).history() == old(self).history(),
            old(self).sync_dest().port == 0 ==> (r matches Ok(None) && final(self).sync_sequence()
                == old(self).sync_sequence() && final(self).first_sync_sent() == old(self).first_sync_sent()),
            old(self).sync_dest().port != 0 ==> (r matches Ok(Some(p)) && p@ == ntp_sync_packet(
                old(self).first_sync_sent(),
                old(self).sync_sequence(),
                rtp_timestamp,
                ntp_timestamp,
            ) && final(self).sync_sequence() == (old(self).sync_sequence() + 1) % 0x1_0000
                && final(self).first_sync_sent()),
    {
        let dest = match self.control_dest {
            Some(d) => d,
            None => self.dest,
        };
        if dest.port == 0 {
            return Ok(None);
        }
        let b0: u8 = if !self.first_sync_sent {
            self.first_sync_sent = true;
            0x90
        } else {
            0x80
        };
        let mut packet: Vec<u8> = vec![b0, 0xd4];
        put_be16(&mut packet, self.sync_sequence);
        self.sync_sequence = self.sync_sequence.wrapping_add(1);
        put_be32(&mut packet, rtp_timestamp);
        put_be64(&mut packet, ntp_timestamp);
        put_be32(&mut packet, rtp_timestamp);
        Ok(Some(packet))
    }

    /// The next PTP sync packet, or `None` when the sync destination has port 0; like
    /// `prepare_sync` otherwise.
    pub fn prepare_ptp_sync(
        &mut self,
        current_rtp_ts: u32,
        ptp_clock_ns: u64,
        next_rtp_ts: u32,
        master_clock_id: &[u8; 8],
    ) -> (r: Result<Option<Vec<u8>>, Error>)
        requires
            old(self).wf(),
        ensures
            final(self).wf(),
            final(self).dest() == old(self).dest(),
            final(self).control_dest() == old(self).control_dest(),
            final(self).sequence() == old(self).sequence(),
            final(self).ssrc() == old(self).ssrc(),
            final(self).cipher_key() == old(self).cipher_key(),
            final(self).history() == old(self).history(),
            old(self).sync_dest().port == 0 ==> (r matches Ok(None) && final(self).sync_sequence()
                == old(self).sync_sequence() && final(self).first_sync_sent() == old(self).first_sync_sent()),
            old(self).sync_dest().port != 0 ==> (r matches Ok(Some(p)) && p@ == ptp_sync_packet(
                old(self).first_sync_sent(),
                old(self).sync_sequence(),
                current_rtp_ts,
                ptp_clock_ns,
                next_rtp_ts,
                master_clock_id@,
            ) && final(self).sync_sequence() == (old(self).sync_sequence() + 1) % 0x1_0000
                && final(self).first_sync_sent()),
    {
        let dest = match self.control_dest {
            Some(d) => d,
            None => self.dest,
        };
        if dest.port == 0 {
            return Ok(None);
        }
        let b0: u8 = if !self.first_sync_sent {
            self.first_sync_sent = true;
            0x90
        } else {
            0x80
        };
        let mut packet: Vec<u8> = vec![b0, 0xD7];
        put_be16(&mut packet, self.sync_sequence);
        self.sync_sequence = self.sync_sequence.wrapping_add(1);
        put_be32(&mut packet, current_rtp_ts);
        let secs_wide: u64 = ptp_clock_ns / 1_000_000_000;
        let ptp_secs_v: u32 = (secs_wide % 0x1_0000_0000) as u32;
        let ptp_nanos: u64 = ptp_clock_ns % 1_000_000_000;
        assert(ptp_nanos * 0x1_0000_0000 < 0x1_0000_0000 * 1_000_000_000) by (nonlinear_arith)
            requires
                ptp_nanos < 1_000_000_000,
        ;
        let frac_wide: u64 = ptp_nanos * 0x1_0000_0000 / 1_000_000_000;
        assert(frac_wide < 0x1_0000_0000) by (nonlinear_arith)
            requires
                frac_wide == ptp_nanos * 0x1_0000_0000 / 1_000_000_000,
                ptp_nanos < 1_000_000_000,
        ;
        let ptp_frac_v: u32 = frac_wide as u32;
        put_be32(&mut packet, ptp_secs_v);
        put_be32(&mut packet, ptp_frac_v);
        put_be32(&mut packet, next_rtp_ts);
        put_all(&mut packet, master_clock_id);
        Ok(Some(packet))
    }

    /// The answers to a retransmission request, in request order: for each requested
    /// sequence number whose slot still holds that packet, the packet framed as an answer.
    pub fn retransmit_responses(&self, request: &RetransmitRequest) -> (r: Vec<Vec<u8>>)
        requires
            self.wf(),
        ensures
            r@.map_values(|v: Vec<u8>| v@) == retransmit_answers(
                self.history(),
                request.first_sequence,
                request.count as nat,
            ),
    {
        let mut out: Vec<Vec<u8>> = Vec::new();
        let mut i: u16 = 0;
        while i < request.count
            invariant
                i <= request.count,
                self.packet_history@.len() == 512,
                out@.map_values(|v: Vec<u8>| v@) == retransmit_answers(
                    self.history(),
                    request.first_sequence,
                    i as nat,
                ),
            decreases request.count - i,
        {
            let seq = request.first_sequence.wrapping_add(i);
            let idx: usize = seq as usize % PACKET_HISTORY_SIZE;
            let ghost before = out@.map_values(|v: Vec<u8>| v@);
            assert(self.history()[idx as int] == match self.packet_history@[idx as int] {
                Some(v) => Some(v@),
                None => None::<Seq<u8>>,
            });
            match &self.packet_history[idx] {
                Some(original) => {
                    let mut matches = true;
                    if original.len() >= 4 {
                        let stored_seq = get_be16(original.as_slice(), 2);
                        matches = stored_seq == seq;
                    }
                    if matches {
                        let response = build_retransmit_response(original.as_slice());
                        out.push(response);
                        assert(out@.map_values(|v: Vec<u8>| v@) =~= before.push(retransmit_response(original@)));
                    }
                },
                None => {},
            }
            i = i + 1;
            assert(retransmit_answers(self.history(), request.first_sequence, i as nat) =~= out@.map_values(|v: Vec<u8>| v@));
        }
        out
    }
}

/// A packet stored in the slot of its own sequence number is what a request for that
/// one sequence number is answered with.
pub proof fn law_retransmit_answers_stored(h: Seq<Option<Seq<u8>>>, q: u16, p: Seq<u8>)
    requires
        h.len() == 512,
        h[(q as int) % 512] == Some(p),
        p.len() >= 4,
        p.subrange(2, 4) == be16(q),
    ensures
        retransmit_answers(h, q, 1) == seq![retransmit_response(p)],
{
    assert(p[2] == p.subrange(2, 4)[0] && p[3] == p.subrange(2, 4)[1]);
    assert((p[2] as int) * 256 + (p[3] as int) == q as int);
    assert(retransmit_answers(h, q, 0) =~= Seq::<Seq<u8>>::empty());
    assert(((q + 1 - 1) % 0x1_0000) as u16 == q);
    assert(retransmit_answers(h, q, 1) =~= seq![retransmit_response(p)]);
}

/// One audio packet prepared from `call` (payload type, RTP timestamp, payload, marker):
/// the packet is the next sequence number's framing of the call, the sequence number moves
/// on, and the packet is kept in its slot for retransmission.
pub open spec fn audio_prepared(before: RtpSender, after: RtpSender, wire: Seq<u8>, call: (u8, u32, Seq<u8>, bool)) -> bool {
    &&& wire == audio_wire(
        before.cipher_key(),
        audio_header(call.0, before.sequence(), call.1, before.ssrc(), call.3),
        call.2,
    )
    &&& after.sequence() == (before.sequence() + 1) % 0x1_0000
    &&& after.history() == before.history().update((before.sequence() as int) % 512, Some(wire))
    &&& after.ssrc() == before.ssrc()
    &&& after.cipher_key() == before.cipher_key()
}

/// A stream of audio packets from one sender: the `k`-th packet prepared (counted from 0)
/// carries sequence number `s + k` modulo 65536, where `s` is the sender's sequence number
/// before the first, and it is framed from its own call; and after `n` packets every one
/// of the last 512 is still answered by a retransmission request for its sequence number.
pub proof fn law_prepared_stream(senders: Seq<RtpSender>, wires: Seq<Seq<u8>>, calls: Seq<(u8, u32, Seq<u8>, bool)>)
    requires
        senders.len() == wires.len() + 1,
        calls.len() == wires.len(),
        senders[0].wf(),
        forall|k: int| 0 <= k < wires.len() ==> audio_prepared(senders[k], senders[k + 1], wires[k], calls[k]),
    ensures
        forall|k: int|
            0 <= k <= wires.len() ==> (#[trigger] senders[k]).sequence() == (senders[0].sequence() + k) % 0x1_0000
                && senders[k].ssrc() == senders[0].ssrc() && senders[k].cipher_key() == senders[0].cipher_key()
                && senders[k].history().len() == 512,
        forall|k: int|
            0 <= k < wires.len() ==> #[trigger] wires[k] == audio_wire(
                senders[0].cipher_key(),
                audio_header(calls[k].0, ((senders[0].sequence() + k) % 0x1_0000) as u16, calls[k].1, senders[0].ssrc(), calls[k].3),
                calls[k].2,
            ),
        forall|k: int|
            0 <= k < wires.len() && wires.len() - k <= 512 ==> retransmit_answers(
                senders[wires.len() as int].history(),
                ((senders[0].sequence() + k) % 0x1_0000) as u16,
                1,
            ) == seq![retransmit_response(#[trigger] wires[k])],
    decreases wires.len(),
{
    let n = wires.len() as int;
    if n > 0 {
        let s2 = senders.take(n);
        let w2 = wires.take(n - 1);
        let c2 = calls.take(n - 1);
        assert forall|k: int| 0 <= k < w2.len() implies audio_prepared(s2[k], s2[k + 1], w2[k], c2[k]) by {
            assert(s2[k] == senders[k] && s2[k + 1] == senders[k + 1] && w2[k] == wires[k] && c2[k] == calls[k]);
        }
        law_prepared_stream(s2, w2, c2);
        let last = senders[n - 1];
        assert(s2[n - 1] == last);
        assert(audio_prepared(senders[n - 1], senders[n], wires[n - 1], calls[n - 1]));
        assert(senders[0].history().len() == 512);
        assert forall|k: int| 0 <= k <= n implies #[trigger] senders[k].sequence() == (senders[0].sequence() + k) % 0x1_0000
            && senders[k].ssrc() == senders[0].ssrc() && senders[k].cipher_key() == senders[0].cipher_key()
            && senders[k].history().len() == 512 by {
            if k < n {
                assert(s2[k] == senders[k]);
            } else {
                assert(s2[n - 1] == senders[n - 1]);
            }
        }
        assert forall|k: int| 0 <= k < n implies #[trigger] wires[k] == audio_wire(
            senders[0].cipher_key(),
            audio_header(calls[k].0, ((senders[0].sequence() + k) % 0x1_0000) as u16, calls[k].1, senders[0].ssrc(), calls[k].3),
            calls[k].2,
        ) by {
            if k < n - 1 {
                assert(w2[k] == wires[k] && c2[k] == calls[k]);
            }
        }
        assert forall|k: int|
            0 <= k < n && n - k <= 512 implies retransmit_answers(
                senders[n].history(),
                ((senders[0].sequence() + k) % 0x1_0000) as u16,
                1,
            ) == seq![retransmit_response(#[trigger] wires[k])] by {
            let q = ((senders[0].sequence() + k) % 0x1_0000) as u16;
            if k == n - 1 {
                law_prepared_packet_retransmitted(last.history(), last.cipher_key(), calls[k].0, q, calls[k].1, last.ssrc(), calls[k].3, calls[k].2);
            } else {
                assert(w2[k] == wires[k]);
                let p = last.sequence();
                assert((p as int) % 512 != (q as int) % 512) by {
                    assert(p as int == (senders[0].sequence() + n - 1) % 0x1_0000);
                    assert(q as int == (senders[0].sequence() + k) % 0x1_0000);
                    lemma_slots_differ(senders[0].sequence() as int, k, n - 1);
                }
                law_retransmit_other_slot(last.history(), q, p, Some(wires[n - 1]));
            }
        }
    }
}

/// Sequence numbers fewer than 512 apart, taken modulo 65536, use different slots.
proof fn lemma_slots_differ(s: int, i: int, j: int)
    requires
        0 <= s,
        0 <= i < j,
        j - i < 512,
    ensures
        ((s + i) % 0x1_0000) % 512 != ((s + j) % 0x1_0000) % 512,
{
    assert(((s + i) % 0x1_0000) % 512 == (s + i) % 512) by (nonlinear_arith)
        requires 0 <= s + i;
    assert(((s + j) % 0x1_0000) % 512 == (s + j) % 512) by (nonlinear_arith)
        requires 0 <= s + j;
    assert((s + i) % 512 != (s + j) % 512) by (nonlinear_arith)
        requires 0 <= s + i, 0 < j - i < 512;
}

/// How many of the requested sequence numbers still have their packet held.
pub open spec fn held_count(h: Seq<Option<Seq<u8>>>, first: u16, count: nat) -> nat
    decreases count,
{
    if count == 0 {
        0
    } else {
        let q = ((first + count - 1) % 0x1_0000) as u16;
        held_count(h, first, (count - 1) as nat) + if slot_answer(h, q) is Some {
            1nat
        } else {
            0nat
        }
    }
}

/// A retransmission request is answered with exactly one packet per requested sequence
/// number whose packet is still held, and so with at most as many as were asked for.
pub proof fn law_retransmit_answers_held(h: Seq<Option<Seq<u8>>>, first: u16, count: nat)
    ensures
        retransmit_answers(h, first, count).len() == held_count(h, first, count),
        held_count(h, first, count) <= count,
    decreases count,
{
    if count > 0 {
        law_retransmit_answers_held(h, first, (count - 1) as nat);
    }
}

/// A request for `count` packets is answered with at most `count` packets.
pub proof fn law_retransmit_answer_count(h: Seq<Option<Seq<u8>>>, first: u16, count: nat)
    ensures
        retransmit_answers(h, first, count).len() <= count,
    decreases count,
{
    if count > 0 {
        law_retransmit_answer_count(h, first, (count - 1) as nat);
    }
}

/// The audio packet that `prepare_audio` stores under sequence number `q` is what a
/// request for `q` is answered with.
pub proof fn law_prepared_packet_retransmitted(
    h: Seq<Option<Seq<u8>>>,
    key: Option<Seq<u8>>,
    payload_type: u8,
    q: u16,
    timestamp: u32,
    ssrc: u32,
    marker: bool,
    payload: Seq<u8>,
)
    requires
        h.len() == 512,
    ensures
        ({
            let wire = audio_wire(key, audio_header(payload_type, q, timestamp, ssrc, marker), payload);
            retransmit_answers(h.update((q as int) % 512, Some(wire)), q, 1) == seq![retransmit_response(wire)]
        }),
{
    let wire = audio_wire(key, audio_header(payload_type, q, timestamp, ssrc, marker), payload);
    law_audio_wire_sequence(key, audio_header(payload_type, q, timestamp, ssrc, marker), payload);
    law_retransmit_answers_stored(h.update((q as int) % 512, Some(wire)), q, wire);
}

/// Storing a packet in another slot leaves the answer for sequence number `q` as it was:
/// a packet stays retransmittable until one of the next 512 packets takes its slot.
pub proof fn law_retransmit_other_slot(h: Seq<Option<Seq<u8>>>, q: u16, k: u16, v: Option<Seq<u8>>)
    requires
        h.len() == 512,
        (k as int) % 512 != (q as int) % 512,
    ensures
        retransmit_answers(h.update((k as int) % 512, v), q, 1) == retransmit_answers(h, q, 1),
{
    let h2 = h.update((k as int) % 512, v);
    assert(((q + 1 - 1) % 0x1_0000) as u16 == q);
    assert(h2[(q as int) % 512] == h[(q as int) % 512]);
    assert(slot_answer(h2, q) == slot_answer(h, q));
    assert(retransmit_answers(h2, q, 0) =~= retransmit_answers(h, q, 0));
}

/// Every audio packet carries its own sequence number in bytes 2 and 3.
pub proof fn law_audio_wire_sequence(key: Option<Seq<u8>>, header: RtpHeader, payload: Seq<u8>)
    ensures
        audio_wire(key, header, payload).len() >= 4,
        audio_wire(key, header, payload).subrange(2, 4) == be16(header.sequence),
{
    let w = audio_wire(key, header, payload);
    assert(w.subrange(2, 4) =~= be16(header.sequence));
}

/// A PTP sync packet carries the current RTP timestamp, big-endian, in bytes 4 to 7 and
/// the next packet's RTP timestamp in bytes 16 to 19, then the master's clock identity.
pub proof fn law_ptp_sync_timestamps(
    first_sent: bool,
    sync_seq: u16,
    current_rtp_ts: u32,
    ptp_ns: u64,
    next_rtp_ts: u32,
    clock_id: Seq<u8>,
)
    ensures
        ({
            let p = ptp_sync_packet(first_sent, sync_seq, current_rtp_ts, ptp_ns, next_rtp_ts, clock_id);
            &&& p.len() == 20 + clock_id.len()
            &&& p[1] == 0xD7u8
            &&& from_be(p.subrange(2, 4)) == sync_seq
            &&& from_be(p.subrange(4, 8)) == current_rtp_ts
            &&& from_be(p.subrange(16, 20)) == next_rtp_ts
            &&& p.subrange(20, p.len() as int) == clock_id
        }),
{
    let p = ptp_sync_packet(first_sent, sync_seq, current_rtp_ts, ptp_ns, next_rtp_ts, clock_id);
    assert(p.subrange(2, 4) =~= be16(sync_seq));
    assert(p.subrange(4, 8) =~= be32(current_rtp_ts));
    assert(p.subrange(16, 20) =~= be32(next_rtp_ts));
    assert(p.subrange(20, p.len() as int) =~= clock_id);
    lemma_from_be16(sync_seq);
    lemma_from_be32(current_rtp_ts);
    lemma_from_be32(next_rtp_ts);
}

} // verus!

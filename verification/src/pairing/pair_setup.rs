//! The client side of transient HomeKit pair-setup (M1 to M4) over SRP.
use crate::base::random::random_32;
use crate::base::error::{parse_error_text, CryptoError, Error, PairingError};
use crate::crypto::keys::SharedSecret;
use crate::crypto::srp::{pad384, pad_to_n, srp_answer, SrpChallenge, SrpClient, SrpProof, be_min};
use crate::crypto::tlv::{first_byte, tlv_encode_spec, tlv_parse_spec, Tlv8, TlvType};
use crate::bytes::put_all;
use crate::text::{dec, push_radix, push_str, string_from_chars};
use vstd::prelude::*;

verus! {

#[derive(Debug, Clone, Copy, PartialEq, Eq, Structural)]
pub enum PairSetupState {
    Initial,
    M1Sent,
    M2Received,
    M3Sent,
    M4Received,
    Complete,
    Failed,
}

pub struct PairSetup {
    state: PairSetupState,
    pin: String,
    srp_client: Option<SrpClient>,
    srp_proof: Option<SrpProof>,
}

/// `b"Pair-Setup"`.
pub open spec fn pair_setup_identity() -> Seq<u8> {
    seq![0x50u8, 0x61, 0x69, 0x72, 0x2D, 0x53, 0x65, 0x74, 0x75, 0x70]
}

/// The pair-setup M1 message: state 1, method 0, transient flags.
pub open spec fn m1_map() -> Map<u8, Seq<u8>> {
    Map::<u8, Seq<u8>>::empty().insert(0x06, seq![0x01u8]).insert(0x00, seq![0x00u8]).insert(
        0x13,
        seq![0x10u8, 0x00, 0x00, 0x00],
    )
}

/// The error text of a failed SRP step.
pub open spec fn srp_failure(m: Seq<char>) -> Seq<char> {
    "Failed to process SRP challenge: Encryption failed: "@ + m
}

/// The checks on a parsed M2, in order; on success its salt and the server's public key
/// (up to 384 bytes).
pub open spec fn m2_check(m: Map<u8, Seq<u8>>) -> Result<(Seq<u8>, Seq<u8>), Seq<char>> {
    if first_byte(m, 0x07) is Some {
        Err("Server returned error in M2"@)
    } else if first_byte(m, 0x06) != Some(0x02u8) {
        Err("M2 has wrong state value"@)
    } else if !m.contains_key(0x02) {
        Err("M2 missing salt"@)
    } else if m[0x02].len() != 16 {
        Err("M2 salt has wrong length: "@ + dec(m[0x02].len()) + " (expected 16)"@)
    } else if !m.contains_key(0x03) {
        Err("M2 missing server public key"@)
    } else if m[0x03].len() > 384 {
        Err("M2 public key too long: "@ + dec(m[0x03].len()) + " (expected <= 384)"@)
    } else {
        Ok((m[0x02], m[0x03]))
    }
}

/// The checks on a parsed M4, in order; on success the server's proof.
pub open spec fn m4_check(m: Map<u8, Seq<u8>>) -> Result<Seq<u8>, Seq<char>> {
    if first_byte(m, 0x07) is Some {
        Err("Server returned error in M4 (wrong PIN?)"@)
    } else if first_byte(m, 0x06) != Some(0x04u8) {
        Err("M4 has wrong state value"@)
    } else if !m.contains_key(0x04) {
        Err("M4 missing server proof"@)
    } else {
        Ok(m[0x04])
    }
}

/// `r` is `Error::Pairing(PairingError::Protocol(msg))`.
pub open spec fn is_protocol_error<T>(r: Result<T, Error>, msg: Seq<char>) -> bool {
    r matches Err(Error::Pairing(PairingError::Protocol(m))) && m@ == msg
}

/// `r` is `Error::Pairing(PairingError::InvalidState(msg))`.
pub open spec fn is_state_error<T>(r: Result<T, Error>, msg: Seq<char>) -> bool {
    r matches Err(Error::Pairing(PairingError::InvalidState(m))) && m@ == msg
}

fn protocol_error(m: &[char]) -> (e: Error)
    ensures
        e matches Error::Pairing(PairingError::Protocol(s)) && s@ == m@,
{
    Error::Pairing(PairingError::Protocol(string_from_chars(m)))
}

/// A client for `identity` and `password` with a random private exponent: a fresh draw of
/// 32 bytes, drawn again while it is zero (up to 16 draws). None when the source fails.
fn new_srp_client(identity: &[u8], password: &[u8]) -> (r: Option<SrpClient>)
    ensures
        r matches Some(c) ==> c.identity() == identity@ && c.password() == password@,
{
    let mut tries: u32 = 0;
    while tries < 16
        decreases 16 - tries,
    {
        let bytes = match random_32() {
            Some(b) => b,
            None => {
                return None;
            },
        };
        match SrpClient::from_private_key(identity, password, bytes) {
            Some(c) => {
                return Some(c);
            },
            None => {},
        }
        tries += 1;
    }
    None
}

impl PairSetup {
    pub closed spec fn stage(&self) -> PairSetupState {
        self.state
    }

    pub closed spec fn pin(&self) -> Seq<char> {
        self.pin@
    }

    pub closed spec fn client(&self) -> Option<SrpClient> {
        self.srp_client
    }

    /// The proof computed from M2, as (client proof, shared secret, expected server proof).
    pub closed spec fn srp_result(&self) -> Option<(Seq<u8>, Seq<u8>, Seq<u8>)> {
        match self.srp_proof {
            Some(p) => Some((p.client_proof@, p.shared_secret@, p.expected_server_proof@)),
            None => None,
        }
    }

    pub fn new_transient_with_pin(pin: &str) -> (r: Self)
        ensures
            r.stage() == PairSetupState::Initial,
            r.pin() == pin@,
            r.client() is None,
            r.srp_result() is None,
    {
        Self { state: PairSetupState::Initial, pin: pin.to_owned(), srp_client: None, srp_proof: None }
    }

    /// M1: from the initial state, a new SRP client for the PIN and the M1 message.
    pub fn generate_m1(&mut self) -> (r: Result<Vec<u8>, Error>)
        ensures
            final(self).pin() == old(self).pin(),
            final(self).srp_result() == old(self).srp_result(),
            old(self).stage() != PairSetupState::Initial ==> is_state_error(
                r,
                "M1 can only be generated from Initial state"@,
            ) && final(self).stage() == PairSetupState::Failed && final(self).client() == old(self).client(),
            old(self).stage() == PairSetupState::Initial ==> match r {
                Ok(m) => m@ == tlv_encode_spec(m1_map()) && final(self).stage() == PairSetupState::M1Sent
                    && (final(self).client() matches Some(c) && c.identity() == pair_setup_identity()
                    && c.password() == vstd::utf8::encode_utf8(old(self).pin())),
                Err(_) => final(self).stage() == PairSetupState::Failed,
            },
    {
        if self.state != PairSetupState::Initial {
            self.state = PairSetupState::Failed;
            return Err(Error::Pairing(PairingError::InvalidState("M1 can only be generated from Initial state".to_owned())));
        }
        let ident: Vec<u8> = vec![0x50u8, 0x61, 0x69, 0x72, 0x2D, 0x53, 0x65, 0x74, 0x75, 0x70];
        assert(ident@ =~= pair_setup_identity());
        let client = match new_srp_client(ident.as_slice(), self.pin.as_str().as_bytes()) {
            Some(c) => c,
            None => {
                self.state = PairSetupState::Failed;
                return Err(Error::Crypto(CryptoError::Encryption("operating system random source failed".to_owned())));
            },
        };
        self.srp_client = Some(client);
        let tlv = Tlv8::pair_setup_m1_with_flags();
        self.state = PairSetupState::M1Sent;
        Ok(tlv.encode())
    }

    /// M2: the server's salt and public key answered with the SRP proof.
    #[verifier::rlimit(50)]
    pub fn process_m2(&mut self, response: &[u8]) -> (r: Result<(), Error>)
        ensures
            final(self).pin() == old(self).pin(),
            final(self).client() == old(self).client(),
            r is Err ==> final(self).stage() == PairSetupState::Failed && final(self).srp_result() == old(self).srp_result(),
            old(self).stage() != PairSetupState::M1Sent ==> is_state_error(r, "M2 can only be processed after M1"@),
            old(self).stage() == PairSetupState::M1Sent ==> match tlv_parse_spec(response@) {
                Err(e) => is_protocol_error(r, "Failed to parse M2: "@ + parse_error_text(e)),
                Ok(m) => match m2_check(m) {
                    Err(msg) => is_protocol_error(r, msg),
                    Ok((salt, pk)) => match old(self).client() {
                        None => is_protocol_error(r, "SRP client not initialized"@),
                        Some(c) => match srp_answer(c.identity(), c.password(), c.secret(), c.public_value(), salt, pad384(pk)) {
                            Err(msg) => is_protocol_error(r, srp_failure(msg)),
                            Ok(p) => r is Ok && final(self).stage() == PairSetupState::M2Received
                                && final(self).srp_result() == Some(p),
                        },
                    },
                },
            },
    {
        if self.state != PairSetupState::M1Sent {
            self.state = PairSetupState::Failed;
            return Err(Error::Pairing(PairingError::InvalidState("M2 can only be processed after M1".to_owned())));
        }
        let tlv = match Tlv8::parse(response) {
            Ok(t) => t,
            Err(e) => {
                self.state = PairSetupState::Failed;
                let mut m: Vec<char> = Vec::new();
                push_str(&mut m, "Failed to parse M2: ");
                push_str(&mut m, e.message().as_str());
                return Err(protocol_error(m.as_slice()));
            },
        };
        if tlv.error().is_some() {
            self.state = PairSetupState::Failed;
            return Err(Error::Pairing(PairingError::Protocol("Server returned error in M2".to_owned())));
        }
        if tlv.state() != Some(0x02u8) {
            self.state = PairSetupState::Failed;
            return Err(Error::Pairing(PairingError::Protocol("M2 has wrong state value".to_owned())));
        }
        let salt = match tlv.get(TlvType::Salt) {
            Some(s) => s,
            None => {
                self.state = PairSetupState::Failed;
                return Err(Error::Pairing(PairingError::Protocol("M2 missing salt".to_owned())));
            },
        };
        if salt.len() != 16 {
            self.state = PairSetupState::Failed;
            let mut m: Vec<char> = Vec::new();
            push_str(&mut m, "M2 salt has wrong length: ");
            push_radix(&mut m, salt.len() as u128, 10);
            push_str(&mut m, " (expected 16)");
            return Err(protocol_error(m.as_slice()));
        }
        let server_pk_raw = match tlv.get(TlvType::PublicKey) {
            Some(p) => p,
            None => {
                self.state = PairSetupState::Failed;
                return Err(Error::Pairing(PairingError::Protocol("M2 missing server public key".to_owned())));
            },
        };
        if server_pk_raw.len() > 384 {
            self.state = PairSetupState::Failed;
            let mut m: Vec<char> = Vec::new();
            push_str(&mut m, "M2 public key too long: ");
            push_radix(&mut m, server_pk_raw.len() as u128, 10);
            push_str(&mut m, " (expected <= 384)");
            return Err(protocol_error(m.as_slice()));
        }
        let server_pk = pad_to_n(server_pk_raw);
        let salt_arr: [u8; 16] = [
            salt[0], salt[1], salt[2], salt[3], salt[4], salt[5], salt[6], salt[7], salt[8], salt[9],
            salt[10], salt[11], salt[12], salt[13], salt[14], salt[15],
        ];
        assert(salt_arr@ =~= salt@);
        let challenge = SrpChallenge { salt: salt_arr, server_public_key: server_pk };
        let proof = match &self.srp_client {
            Some(client) => match client.process_challenge(&challenge) {
                Ok(p) => p,
                Err(e) => {
                    self.state = PairSetupState::Failed;
                    let mut m: Vec<char> = Vec::new();
                    push_str(&mut m, "Failed to process SRP challenge: Encryption failed: ");
                    match e {
                        CryptoError::Encryption(s) => push_str(&mut m, s.as_str()),
                        _ => {},
                    }
                    return Err(protocol_error(m.as_slice()));
                },
            },
            None => {
                self.state = PairSetupState::Failed;
                return Err(Error::Pairing(PairingError::Protocol("SRP client not initialized".to_owned())));
            },
        };
        self.srp_proof = Some(proof);
        self.state = PairSetupState::M2Received;
        Ok(())
    }

    /// M3: our public key and the client proof.
    pub fn generate_m3(&mut self) -> (r: Result<Vec<u8>, Error>)
        ensures
            final(self).pin() == old(self).pin(),
            final(self).client() == old(self).client(),
            final(self).srp_result() == old(self).srp_result(),
            r is Err ==> final(self).stage() == PairSetupState::Failed,
            old(self).stage() != PairSetupState::M2Received ==> is_state_error(
                r,
                "M3 can only be generated after processing M2"@,
            ),
            old(self).stage() == PairSetupState::M2Received ==> match old(self).client() {
                None => is_protocol_error(r, "SRP client not initialized"@),
                Some(c) => match old(self).srp_result() {
                    None => is_protocol_error(r, "SRP proof not computed"@),
                    Some((m1, _, _)) => r matches Ok(msg) && msg@ == tlv_encode_spec(
                        Map::<u8, Seq<u8>>::empty().insert(0x06, seq![0x03u8]).insert(
                            0x03,
                            pad384(be_min(c.public_value())),
                        ).insert(0x04, m1),
                    ) && final(self).stage() == PairSetupState::M3Sent,
                },
            },
    {
        if self.state != PairSetupState::M2Received {
            self.state = PairSetupState::Failed;
            return Err(Error::Pairing(PairingError::InvalidState("M3 can only be generated after processing M2".to_owned())));
        }
        let pk = match &self.srp_client {
            Some(c) => c.public_key(),
            None => {
                self.state = PairSetupState::Failed;
                return Err(Error::Pairing(PairingError::Protocol("SRP client not initialized".to_owned())));
            },
        };
        let client_proof = match &self.srp_proof {
            Some(p) => {
                let mut v: Vec<u8> = Vec::new();
                put_all(&mut v, p.client_proof.as_slice());
                v
            },
            None => {
                self.state = PairSetupState::Failed;
                return Err(Error::Pairing(PairingError::Protocol("SRP proof not computed".to_owned())));
            },
        };
        let mut tlv = Tlv8::new();
        let st: Vec<u8> = vec![0x03];
        assert(st@ =~= seq![0x03u8]);
        tlv.set(TlvType::State, st);
        tlv.set(TlvType::PublicKey, pk);
        tlv.set(TlvType::Proof, client_proof);
        self.state = PairSetupState::M3Sent;
        Ok(tlv.encode())
    }

    /// M4: the server's proof checked against the expected one.
    pub fn process_m4(&mut self, response: &[u8]) -> (r: Result<(), Error>)
        ensures
            final(self).pin() == old(self).pin(),
            final(self).client() == old(self).client(),
            final(self).srp_result() == old(self).srp_result(),
            r is Err ==> final(self).stage() == PairSetupState::Failed,
            old(self).stage() != PairSetupState::M3Sent ==> is_state_error(r, "M4 can only be processed after M3"@),
            old(self).stage() == PairSetupState::M3Sent ==> match tlv_parse_spec(response@) {
                Err(e) => is_protocol_error(r, "Failed to parse M4: "@ + parse_error_text(e)),
                Ok(m) => match m4_check(m) {
                    Err(msg) => is_protocol_error(r, msg),
                    Ok(server_proof) => match old(self).client() {
                        None => is_protocol_error(r, "SRP client not initialized"@),
                        Some(_) => match old(self).srp_result() {
                            None => is_protocol_error(r, "SRP proof not computed"@),
                            Some((_, _, m2)) => if server_proof == m2 {
                                r is Ok && final(self).stage() == PairSetupState::M4Received
                            } else {
                                is_protocol_error(r, "Server proof verification failed"@)
                            },
                        },
                    },
                },
            },
    {
        if self.state != PairSetupState::M3Sent {
            self.state = PairSetupState::Failed;
            return Err(Error::Pairing(PairingError::InvalidState("M4 can only be processed after M3".to_owned())));
        }
        let tlv = match Tlv8::parse(response) {
            Ok(t) => t,
            Err(e) => {
                self.state = PairSetupState::Failed;
                let mut m: Vec<char> = Vec::new();
                push_str(&mut m, "Failed to parse M4: ");
                push_str(&mut m, e.message().as_str());
                return Err(protocol_error(m.as_slice()));
            },
        };
        if tlv.error().is_some() {
            self.state = PairSetupState::Failed;
            return Err(Error::Pairing(PairingError::Protocol("Server returned error in M4 (wrong PIN?)".to_owned())));
        }
        if tlv.state() != Some(0x04u8) {
            self.state = PairSetupState::Failed;
            return Err(Error::Pairing(PairingError::Protocol("M4 has wrong state value".to_owned())));
        }
        let server_proof = match tlv.get(TlvType::Proof) {
            Some(p) => p,
            None => {
                self.state = PairSetupState::Failed;
                return Err(Error::Pairing(PairingError::Protocol("M4 missing server proof".to_owned())));
            },
        };
        let verified = match &self.srp_client {
            Some(client) => match &self.srp_proof {
                Some(proof) => client.verify_server_proof(server_proof, proof.expected_server_proof.as_slice()),
                None => {
                    self.state = PairSetupState::Failed;
                    return Err(Error::Pairing(PairingError::Protocol("SRP proof not computed".to_owned())));
                },
            },
            None => {
                self.state = PairSetupState::Failed;
                return Err(Error::Pairing(PairingError::Protocol("SRP client not initialized".to_owned())));
            },
        };
        if !verified {
            self.state = PairSetupState::Failed;
            return Err(Error::Pairing(PairingError::Protocol("Server proof verification failed".to_owned())));
        }
        self.state = PairSetupState::M4Received;
        Ok(())
    }

    /// The shared secret, once M4 checked out.
    pub fn complete_transient(&mut self) -> (r: Result<SharedSecret, Error>)
        ensures
            final(self).pin() == old(self).pin(),
            final(self).client() == old(self).client(),
            final(self).srp_result() == old(self).srp_result(),
            r is Err ==> final(self).stage() == PairSetupState::Failed,
            old(self).stage() != PairSetupState::M4Received ==> is_state_error(
                r,
                "complete_transient() can only be called after processing M4"@,
            ),
            old(self).stage() == PairSetupState::M4Received ==> match old(self).srp_result() {
                None => is_protocol_error(r, "SRP proof not computed"@),
                Some((_, key, _)) => r matches Ok(s) && s.0@ == key && final(self).stage() == PairSetupState::Complete,
            },
    {
        if self.state != PairSetupState::M4Received {
            self.state = PairSetupState::Failed;
            return Err(Error::Pairing(PairingError::InvalidState("complete_transient() can only be called after processing M4".to_owned())));
        }
        let secret = match &self.srp_proof {
            Some(p) => {
                let mut v: Vec<u8> = Vec::new();
                put_all(&mut v, p.shared_secret.as_slice());
                v
            },
            None => {
                self.state = PairSetupState::Failed;
                return Err(Error::Pairing(PairingError::Protocol("SRP proof not computed".to_owned())));
            },
        };
        self.state = PairSetupState::Complete;
        Ok(SharedSecret::new(secret))
    }
}

} // verus!

//! A transient pairing run from M1 to the session keys.
use crate::base::error::{Error, PairingError};
use crate::crypto::hkdf::constants::{CONTROL_READ_KEY_INFO, CONTROL_SALT, CONTROL_WRITE_KEY_INFO};
use crate::crypto::hkdf::hkdf_sha512_32;
use crate::crypto::keys::SessionKeys;
use crate::pairing::pair_setup::{is_state_error, PairSetup, PairSetupState};
use vstd::prelude::*;

verus! {

#[derive(Debug, Clone, Copy, PartialEq, Eq, Structural)]
pub enum TransientStage {
    NotStarted,
    WaitingM2,
    WaitingM4,
    Complete,
}

pub struct PairingSession {
    transient_setup: Option<PairSetup>,
    transient_state: TransientStage,
    session_keys: Option<SessionKeys>,
}

impl PairingSession {
    pub closed spec fn stage(&self) -> TransientStage {
        self.transient_state
    }

    pub closed spec fn started(&self) -> bool {
        self.transient_setup is Some
    }

    pub closed spec fn setup(&self) -> Option<PairSetup> {
        self.transient_setup
    }

    /// The derived (write, read) keys, until they are taken.
    pub closed spec fn keys(&self) -> Option<(Seq<u8>, Seq<u8>)> {
        match self.session_keys {
            Some(k) => Some((k.write_key.0@, k.read_key.0@)),
            None => None,
        }
    }

    pub fn new() -> (r: Self)
        ensures
            r.stage() == TransientStage::NotStarted,
            !r.started(),
            r.keys() is None,
    {
        Self { transient_setup: None, transient_state: TransientStage::NotStarted, session_keys: None }
    }

    /// Starts a transient pairing with the PIN and returns M1.
    pub fn start_transient_pairing_with_pin(&mut self, pin: &str) -> (r: Result<Vec<u8>, Error>)
        ensures
            final(self).keys() == old(self).keys(),
            old(self).started() ==> is_state_error(r, "Transient pairing already started"@) && final(self).stage()
                == old(self).stage() && final(self).setup() == old(self).setup(),
            !old(self).started() ==> match r {
                Ok(_) => final(self).stage() == TransientStage::WaitingM2 && (final(self).setup() matches Some(s)
                    && s.stage() == PairSetupState::M1Sent && s.pin() == pin@),
                Err(_) => final(self).stage() == old(self).stage() && !final(self).started(),
            },
    {
        if self.transient_setup.is_some() {
            return Err(Error::Pairing(PairingError::InvalidState("Transient pairing already started".to_owned())));
        }
        let mut transient = PairSetup::new_transient_with_pin(pin);
        let m1 = transient.generate_m1()?;
        self.transient_setup = Some(transient);
        self.transient_state = TransientStage::WaitingM2;
        Ok(m1)
    }

    /// Feeds the receiver's answer: after M2 it returns M3; after M4 it derives the
    /// session keys and returns nothing.
    pub fn continue_transient_pairing(&mut self, response: &[u8]) -> (r: Result<Option<Vec<u8>>, Error>)
        ensures
            !old(self).started() ==> is_state_error(r, "Transient pairing not started"@) && final(self).stage()
                == old(self).stage() && final(self).keys() == old(self).keys(),
            old(self).started() && old(self).stage() == TransientStage::WaitingM2 ==> match r {
                Ok(Some(_)) => final(self).stage() == TransientStage::WaitingM4 && (final(self).setup() matches Some(s)
                    && s.stage() == PairSetupState::M3Sent),
                Ok(None) => false,
                Err(_) => final(self).stage() == TransientStage::WaitingM2,
            },
            old(self).started() && old(self).stage() == TransientStage::WaitingM4 ==> match r {
                Ok(Some(_)) => false,
                Ok(None) => final(self).stage() == TransientStage::Complete && (final(self).setup() matches Some(s)
                    && s.stage() == PairSetupState::Complete && (s.srp_result() matches Some((_, key, _))
                    && final(self).keys() == Some(
                    (
                        hkdf_sha512_32(key, CONTROL_SALT@, CONTROL_WRITE_KEY_INFO@),
                        hkdf_sha512_32(key, CONTROL_SALT@, CONTROL_READ_KEY_INFO@),
                    ),
                ))),
                Err(_) => final(self).stage() == TransientStage::WaitingM4,
            },
            old(self).started() && old(self).stage() != TransientStage::WaitingM2 && old(self).stage()
                != TransientStage::WaitingM4 ==> is_state_error(r, "Invalid transient state for continue"@)
                && final(self).stage() == old(self).stage(),
    {
        let mut transient = match self.transient_setup.take() {
            Some(t) => t,
            None => {
                return Err(Error::Pairing(PairingError::InvalidState("Transient pairing not started".to_owned())));
            },
        };
        let result = match self.transient_state {
            TransientStage::WaitingM2 => {
                match transient.process_m2(response) {
                    Ok(()) => match transient.generate_m3() {
                        Ok(m3) => {
                            self.transient_state = TransientStage::WaitingM4;
                            Ok(Some(m3))
                        },
                        Err(e) => Err(e),
                    },
                    Err(e) => Err(e),
                }
            },
            TransientStage::WaitingM4 => {
                match transient.process_m4(response) {
                    Ok(()) => match transient.complete_transient() {
                        Ok(shared_secret) => match SessionKeys::derive_control_keys(&shared_secret) {
                            Ok(keys) => {
                                self.session_keys = Some(keys);
                                self.transient_state = TransientStage::Complete;
                                Ok(None)
                            },
                            Err(e) => Err(Error::Crypto(e)),
                        },
                        Err(e) => Err(e),
                    },
                    Err(e) => Err(e),
                }
            },
            _ => Err(Error::Pairing(PairingError::InvalidState("Invalid transient state for continue".to_owned()))),
        };
        self.transient_setup = Some(transient);
        result
    }

    /// Hands out the session keys once; later calls give none.
    pub fn take_session_keys(&mut self) -> (r: Option<SessionKeys>)
        ensures
            match r {
                Some(k) => old(self).keys() == Some((k.write_key.0@, k.read_key.0@)),
                None => old(self).keys() is None,
            },
            final(self).keys() is None,
            final(self).stage() == old(self).stage(),
    {
        self.session_keys.take()
    }
}

} // verus!

//! Shared secrets and the control-channel keys derived from them.
use crate::base::error::CryptoError;
use crate::crypto::hkdf::constants::{CONTROL_READ_KEY_INFO, CONTROL_SALT, CONTROL_WRITE_KEY_INFO};
use crate::crypto::hkdf::{derive_control_read_key, derive_control_write_key, hkdf_sha512_32};
use vstd::prelude::*;

verus! {

#[derive(Clone)]
pub struct SharedSecret(pub Vec<u8>);

#[derive(Clone, Copy)]
pub struct EncryptionKey(pub [u8; 32]);

pub struct SessionKeys {
    pub write_key: EncryptionKey,
    pub read_key: EncryptionKey,
}

impl SharedSecret {
    pub fn new(bytes: Vec<u8>) -> (r: Self)
        ensures
            r.0@ == bytes@,
    {
        Self(bytes)
    }

    pub fn as_bytes(&self) -> (r: &[u8])
        ensures
            r@ == self.0@,
    {
        self.0.as_slice()
    }
}

impl EncryptionKey {
    pub fn as_bytes(&self) -> (r: &[u8; 32])
        ensures
            r@ == self.0@,
    {
        &self.0
    }
}

impl SessionKeys {
    /// The write and read keys of the control channel, derived from the pairing secret.
    pub fn derive_control_keys(shared_secret: &SharedSecret) -> (r: Result<Self, CryptoError>)
        ensures
            r matches Ok(k) && k.write_key.0@ == hkdf_sha512_32(
                shared_secret.0@,
                CONTROL_SALT@,
                CONTROL_WRITE_KEY_INFO@,
            ) && k.read_key.0@ == hkdf_sha512_32(shared_secret.0@, CONTROL_SALT@, CONTROL_READ_KEY_INFO@),
    {
        let write_key = derive_control_write_key(shared_secret.as_bytes())?;
        let read_key = derive_control_read_key(shared_secret.as_bytes())?;
        Ok(Self { write_key: EncryptionKey(write_key), read_key: EncryptionKey(read_key) })
    }
}

} // verus!

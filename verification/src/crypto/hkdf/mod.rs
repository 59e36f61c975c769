//! HKDF-SHA512 key derivation of the control-channel keys.
use crate::base::error::CryptoError;
use vstd::prelude::*;

pub mod constants;

verus! {

/// What HKDF-SHA512 gives as 32 bytes of output key material for input key material,
/// salt and info.
pub uninterp spec fn hkdf_sha512_32(ikm: Seq<u8>, salt: Seq<u8>, info: Seq<u8>) -> Seq<u8>;

/// `Hkdf::<Sha512>::new(Some(salt), ikm).expand(info, &mut okm)` into 32 bytes. Claims:
/// the expansion succeeds (the crate fails only above 255 hash lengths of output) and
/// gives the named key material.
#[verifier::external_body]
fn hkdf_expand_32(ikm: &[u8], salt: &[u8], info: &[u8]) -> (r: Option<[u8; 32]>)
    ensures
        r is Some,
        r matches Some(k) ==> k@ == hkdf_sha512_32(ikm@, salt@, info@),
{
    let hk = hkdf::Hkdf::<sha2::Sha512>::new(Some(salt), ikm);
    let mut okm = [0u8; 32];
    match hk.expand(info, &mut okm) {
        Ok(()) => Some(okm),
        Err(_) => None,
    }
}

/// 32 bytes of HKDF-SHA512 key material.
pub fn derive_key_32(ikm: &[u8], salt: &[u8], info: &[u8]) -> (r: Result<[u8; 32], CryptoError>)
    ensures
        r matches Ok(k) && k@ == hkdf_sha512_32(ikm@, salt@, info@),
{
    match hkdf_expand_32(ikm, salt, info) {
        Some(k) => Ok(k),
        None => Err(CryptoError::KeyDerivation("HKDF expand failed".to_owned())),
    }
}

/// The key that encrypts what we send on the control channel.
pub fn derive_control_write_key(shared_secret: &[u8]) -> (r: Result<[u8; 32], CryptoError>)
    ensures
        r matches Ok(k) && k@ == hkdf_sha512_32(
            shared_secret@,
            constants::CONTROL_SALT@,
            constants::CONTROL_WRITE_KEY_INFO@,
        ),
{
    derive_key_32(shared_secret, &constants::CONTROL_SALT, &constants::CONTROL_WRITE_KEY_INFO)
}

/// The key that decrypts what we receive on the control channel.
pub fn derive_control_read_key(shared_secret: &[u8]) -> (r: Result<[u8; 32], CryptoError>)
    ensures
        r matches Ok(k) && k@ == hkdf_sha512_32(
            shared_secret@,
            constants::CONTROL_SALT@,
            constants::CONTROL_READ_KEY_INFO@,
        ),
{
    derive_key_32(shared_secret, &constants::CONTROL_SALT, &constants::CONTROL_READ_KEY_INFO)
}

} // verus!

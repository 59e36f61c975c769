//! Encryption of audio payloads.
use crate::base::error::Error;
use crate::crypto::chacha::{audio_aad, chacha_seal, seq_nonce, AudioCipher};
use vstd::prelude::*;

verus! {

pub struct EncryptedPayload {
    pub data: Vec<u8>,
    pub tag: Option<[u8; 16]>,
    pub nonce: Option<[u8; 8]>,
}

/// What seals an audio payload before it goes on the wire.
pub trait PacketCipher {
    fn encrypt_payload(&self, payload: &[u8], timestamp: u32, ssrc: u32, sequence: u16) -> Result<
        EncryptedPayload,
        Error,
    >;
}

pub struct ChaChaPacketCipher {
    cipher: AudioCipher,
}

impl ChaChaPacketCipher {
    pub fn new(cipher: AudioCipher) -> (r: Self)
        ensures
            r.key() == cipher.key(),
    {
        Self { cipher }
    }

    pub closed spec fn key(&self) -> Seq<u8> {
        self.cipher.key()
    }

    /// The sealed payload: ciphertext and tag make up the ChaCha20-Poly1305 seal under
    /// the sequence-number nonce and the timestamp/SSRC data; the nonce field holds the
    /// nonce's last eight bytes.
    pub open spec fn sealed(&self, r: EncryptedPayload, payload: Seq<u8>, timestamp: u32, ssrc: u32, sequence: u16) -> bool {
        &&& r.tag matches Some(tag)
        &&& r.nonce matches Some(nonce)
        &&& r.data@ + tag@ == chacha_seal(self.key(), seq_nonce(sequence), audio_aad(timestamp, ssrc), payload)
        &&& nonce@ == seq_nonce(sequence).skip(4)
    }
}

impl PacketCipher for ChaChaPacketCipher {
    fn encrypt_payload(&self, payload: &[u8], timestamp: u32, ssrc: u32, sequence: u16) -> (r: Result<
        EncryptedPayload,
        Error,
    >)
        ensures
            r is Ok <==> payload@.len() / 64 < 0xFFFF_FFFF,
            r matches Ok(p) ==> self.sealed(p, payload@, timestamp, ssrc, sequence),
    {
        match self.cipher.encrypt_with_seq(payload, timestamp, ssrc, sequence) {
            Ok((ciphertext, nonce, tag)) => Ok(EncryptedPayload { data: ciphertext, tag: Some(tag), nonce: Some(nonce) }),
            Err(e) => Err(Error::Crypto(e)),
        }
    }
}

} // verus!

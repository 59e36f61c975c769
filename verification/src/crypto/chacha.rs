//! ChaCha20-Poly1305 framing of the RTSP control channel and of audio packets.
use crate::base::error::CryptoError;
use crate::bytes::{be32, le16, le64, put_all, put_be32, put_le16, put_le64};
use chacha20poly1305::aead::{Aead, KeyInit, Payload};
use vstd::prelude::*;

verus! {

/// What `ChaCha20Poly1305::encrypt` returns for a key, a 12-byte nonce, associated data
/// and a message: the ciphertext followed by the 16-byte tag.
pub uninterp spec fn chacha_seal(key: Seq<u8>, nonce: Seq<u8>, aad: Seq<u8>, msg: Seq<u8>) -> Seq<u8>;

/// What `ChaCha20Poly1305::decrypt` returns for a key, a nonce, associated data and a
/// ciphertext with its tag: the plaintext when the tag verifies.
pub uninterp spec fn chacha_open(key: Seq<u8>, nonce: Seq<u8>, aad: Seq<u8>, ct: Seq<u8>) -> Option<
    Seq<u8>,
>;

/// `ChaCha20Poly1305::new(key).encrypt(nonce, Payload { msg, aad })`, its error turned
/// into the error's text. Claims: it fails exactly when the message has `u32::MAX` or
/// more 64-byte blocks; on success the output is the named seal, 16 bytes longer than the
/// message, and opening it under the same key, nonce and associated data gives the
/// message back.
#[verifier::external_body]
fn aead_seal(key: &[u8; 32], nonce: &[u8; 12], aad: &[u8], msg: &[u8]) -> (r: Result<
    Vec<u8>,
    String,
>)
    ensures
        r is Ok <==> msg@.len() / 64 < 0xFFFF_FFFF,
        r matches Ok(c) ==> c@ == chacha_seal(key@, nonce@, aad@, msg@) && c@.len() == msg@.len()
            + 16 && chacha_open(key@, nonce@, aad@, c@) == Some(msg@),
{
    chacha20poly1305::ChaCha20Poly1305::new(key.into()).encrypt(
        chacha20poly1305::Nonce::from_slice(nonce),
        Payload { msg, aad },
    ).map_err(|e| e.to_string())
}

/// `ChaCha20Poly1305::new(key).decrypt(nonce, Payload { msg: ct, aad })`, its error
/// turned into the error's text. Claims: the result is the named opening of the inputs.
#[verifier::external_body]
fn aead_open(key: &[u8; 32], nonce: &[u8; 12], aad: &[u8], ct: &[u8]) -> (r: Result<
    Vec<u8>,
    String,
>)
    ensures
        match r {
            Ok(p) => chacha_open(key@, nonce@, aad@, ct@) == Some(p@),
            Err(_) => chacha_open(key@, nonce@, aad@, ct@) is None,
        },
{
    chacha20poly1305::ChaCha20Poly1305::new(key.into()).decrypt(
        chacha20poly1305::Nonce::from_slice(nonce),
        Payload { msg: ct, aad },
    ).map_err(|e| e.to_string())
}

/// Four zero bytes, then the counter little-endian.
pub open spec fn counter_nonce(counter: u64) -> Seq<u8> {
    seq![0u8, 0u8, 0u8, 0u8] + le64(counter)
}

/// The RTP timestamp and the SSRC, big-endian.
pub open spec fn audio_aad(rtp_timestamp: u32, ssrc: u32) -> Seq<u8> {
    be32(rtp_timestamp) + be32(ssrc)
}

/// Four zero bytes, the sequence number little-endian, six zero bytes.
pub open spec fn seq_nonce(seqnum: u16) -> Seq<u8> {
    seq![0u8, 0u8, 0u8, 0u8] + le16(seqnum) + seq![0u8, 0u8, 0u8, 0u8, 0u8, 0u8]
}

/// The 12-byte nonce of the control channel for a message counter.
pub fn build_nonce_from_counter(counter: u64) -> (r: [u8; 12])
    ensures
        r@ == counter_nonce(counter),
{
    let mut v: Vec<u8> = vec![0u8, 0u8, 0u8, 0u8];
    put_le64(&mut v, counter);
    assert(v@ =~= counter_nonce(counter));
    [v[0], v[1], v[2], v[3], v[4], v[5], v[6], v[7], v[8], v[9], v[10], v[11]]
}

/// The associated data of an audio packet.
pub fn build_aad(rtp_timestamp: u32, ssrc: u32) -> (r: [u8; 8])
    ensures
        r@ == audio_aad(rtp_timestamp, ssrc),
{
    let mut v: Vec<u8> = Vec::new();
    put_be32(&mut v, rtp_timestamp);
    put_be32(&mut v, ssrc);
    let r = [v[0], v[1], v[2], v[3], v[4], v[5], v[6], v[7]];
    assert(r@ =~= audio_aad(rtp_timestamp, ssrc));
    r
}

/// The cipher of the RTSP control channel: one key per direction, one counter per
/// direction.
pub struct ControlCipher {
    write_key: [u8; 32],
    read_key: [u8; 32],
    encrypt_counter: u64,
    decrypt_counter: u64,
}

/// The frames of `p` from message counter `counter` on: blocks of at most 1024 bytes,
/// each sent as its length (little-endian, also the associated data) and its seal.
pub open spec fn control_frames(key: Seq<u8>, counter: nat, p: Seq<u8>) -> Seq<u8>
    decreases p.len(),
{
    if p.len() == 0 {
        Seq::<u8>::empty()
    } else {
        let n = if p.len() > 1024 {
            1024
        } else {
            p.len()
        };
        let aad = le16(n as u16);
        aad + chacha_seal(key, counter_nonce(counter as u64), aad, p.take(n as int))
            + control_frames(key, counter + 1, p.skip(n as int))
    }
}

/// Each block's seal in `control_frames(key, counter, p)` is 16 bytes longer than the
/// block and opens, under the same key, nonce and length bytes, to the block.
pub open spec fn frames_open(key: Seq<u8>, counter: nat, p: Seq<u8>) -> bool
    decreases p.len(),
{
    if p.len() == 0 {
        true
    } else {
        let n = if p.len() > 1024 {
            1024
        } else {
            p.len()
        };
        let aad = le16(n as u16);
        let nonce = counter_nonce(counter as u64);
        let sealed = chacha_seal(key, nonce, aad, p.take(n as int));
        &&& sealed.len() == n + 16
        &&& chacha_open(key, nonce, aad, sealed) == Some(p.take(n as int))
        &&& frames_open(key, counter + 1, p.skip(n as int))
    }
}

/// What a peer recovers from control-channel bytes `w` when it reads them as
/// `decrypt_block` expects, from message counter `counter` on: a frame's length `n`
/// (two bytes, little-endian), then `n + 16` bytes opened under the key, the counter's
/// nonce and the length bytes. `None` when a frame is cut short or does not open.
pub open spec fn open_control_frames(key: Seq<u8>, counter: nat, w: Seq<u8>) -> Option<Seq<u8>>
    decreases w.len(),
{
    if w.len() == 0 {
        Some(Seq::<u8>::empty())
    } else if w.len() < 2 {
        None
    } else {
        let n: int = w[0] + 256 * w[1];
        if w.len() < 2 + n + 16 {
            None
        } else {
            match chacha_open(key, counter_nonce(counter as u64), le16(n as u16), w.subrange(2, 2 + n + 16)) {
                None => None,
                Some(block) => match open_control_frames(key, counter + 1, w.skip(2 + n + 16)) {
                    None => None,
                    Some(rest) => Some(block + rest),
                },
            }
        }
    }
}

/// The control channel reads back what it writes: a peer that holds the sender's write
/// key as its read key and starts at the sender's counter recovers, frame by frame, the
/// message that `ControlCipher::encrypt` framed.
pub proof fn law_control_frames_roundtrip(key: Seq<u8>, counter: nat, p: Seq<u8>)
    requires
        frames_open(key, counter, p),
    ensures
        open_control_frames(key, counter, control_frames(key, counter, p)) == Some(p),
    decreases p.len(),
{
    if p.len() > 0 {
        let n: int = if p.len() > 1024 {
            1024
        } else {
            p.len() as int
        };
        let aad = le16(n as u16);
        let sealed = chacha_seal(key, counter_nonce(counter as u64), aad, p.take(n));
        let tail = control_frames(key, counter + 1, p.skip(n));
        law_control_frames_roundtrip(key, counter + 1, p.skip(n));
        let w = control_frames(key, counter, p);
        assert(w == aad + sealed + tail);
        assert(w[0] == aad[0] && w[1] == aad[1]);
        assert(w[0] + 256 * w[1] == n) by {
            assert((n as u16) == n);
            assert(aad[0] == (n % 256) as u8 && aad[1] == (n / 256) as u8);
        }
        assert(w.subrange(2, 2 + n + 16) =~= sealed);
        assert(w.skip(2 + n + 16) =~= tail);
        assert(p.take(n) + p.skip(n) =~= p);
    }
}

/// Blocks in a message of `len` bytes.
pub open spec fn block_count(len: nat) -> nat {
    (len + 1023) / 1024
}

impl ControlCipher {
    pub fn new(write_key: [u8; 32], read_key: [u8; 32]) -> (r: Self)
        ensures
            r.write_key() == write_key@,
            r.read_key() == read_key@,
            r.encrypt_counter() == 0,
            r.decrypt_counter() == 0,
    {
        Self { write_key, read_key, encrypt_counter: 0, decrypt_counter: 0 }
    }

    pub closed spec fn write_key(&self) -> Seq<u8> {
        self.write_key@
    }

    pub closed spec fn read_key(&self) -> Seq<u8> {
        self.read_key@
    }

    pub closed spec fn encrypt_counter(&self) -> u64 {
        self.encrypt_counter
    }

    pub closed spec fn decrypt_counter(&self) -> u64 {
        self.decrypt_counter
    }

    /// Frames and seals a message; the counter advances by one per block.
    pub fn encrypt(&mut self, plaintext: &[u8]) -> (r: Result<Vec<u8>, CryptoError>)
        requires
            old(self).encrypt_counter() + block_count(plaintext@.len()) <= u64::MAX,
        ensures
            final(self).write_key() == old(self).write_key(),
            final(self).read_key() == old(self).read_key(),
            final(self).decrypt_counter() == old(self).decrypt_counter(),
            plaintext@.len() == 0 ==> r is Err && final(self).encrypt_counter() == old(
                self,
            ).encrypt_counter(),
            plaintext@.len() > 0 ==> (r matches Ok(out) && out@ == control_frames(
                old(self).write_key(),
                old(self).encrypt_counter() as nat,
                plaintext@,
            ) && final(self).encrypt_counter() == old(self).encrypt_counter() + block_count(
                plaintext@.len(),
            )),
            plaintext@.len() > 0 ==> frames_open(
                old(self).write_key(),
                old(self).encrypt_counter() as nat,
                plaintext@,
            ),
    {
        if plaintext.len() == 0 {
            return Err(CryptoError::Encryption("Empty plaintext".to_owned()));
        }
        let ghost key = self.write_key@;
        let ghost c0 = self.encrypt_counter as nat;
        let ghost rk = self.read_key;
        let ghost dc = self.decrypt_counter;
        let mut out: Vec<u8> = Vec::new();
        let mut offset: usize = 0;
        assert(plaintext@.skip(0) =~= plaintext@);
        while offset < plaintext.len()
            invariant
                offset <= plaintext@.len(),
                key == self.write_key@,
                rk == self.read_key,
                dc == self.decrypt_counter,
                self.encrypt_counter + block_count((plaintext@.len() - offset) as nat) <= u64::MAX,
                control_frames(key, c0, plaintext@) == out@ + control_frames(
                    key,
                    self.encrypt_counter as nat,
                    plaintext@.skip(offset as int),
                ),
                self.encrypt_counter as nat + block_count((plaintext@.len() - offset) as nat) == c0
                    + block_count(plaintext@.len()),
                frames_open(key, self.encrypt_counter as nat, plaintext@.skip(offset as int)) ==> frames_open(
                    key,
                    c0,
                    plaintext@,
                ),
            decreases plaintext@.len() - offset,
        {
            let remaining = plaintext.len() - offset;
            let block_len: usize = if remaining > 0x400 {
                0x400
            } else {
                remaining
            };
            let ghost rest = plaintext@.skip(offset as int);
            let block = slice_sub(plaintext, offset, offset + block_len);
            assert(block@ =~= rest.take(block_len as int));
            let mut aad: Vec<u8> = Vec::new();
            put_le16(&mut aad, block_len as u16);
            let nonce = build_nonce_from_counter(self.encrypt_counter);
            let sealed = match aead_seal(&self.write_key, &nonce, aad.as_slice(), block.as_slice()) {
                Ok(c) => c,
                Err(e) => {
                    assert(false);
                    return Err(CryptoError::Encryption(e));
                },
            };
            put_all(&mut out, aad.as_slice());
            put_all(&mut out, sealed.as_slice());
            assert(rest.skip(block_len as int) =~= plaintext@.skip(offset + block_len));
            assert(frames_open(key, (self.encrypt_counter + 1) as nat, plaintext@.skip(offset + block_len)) ==> frames_open(
                key,
                self.encrypt_counter as nat,
                rest,
            ));
            assert(block_count((plaintext@.len() - offset) as nat) == 1 + block_count(
                (plaintext@.len() - offset - block_len) as nat,
            ));
            self.encrypt_counter = self.encrypt_counter + 1;
            offset = offset + block_len;
        }
        Ok(out)
    }

    /// Opens one received block of `block_len` plaintext bytes; the counter advances on success.
    pub fn decrypt_block(&mut self, ciphertext_with_tag: &[u8], block_len: u16) -> (r: Result<
        Vec<u8>,
        CryptoError,
    >)
        requires
            old(self).decrypt_counter() < u64::MAX,
        ensures
            final(self).write_key() == old(self).write_key(),
            final(self).read_key() == old(self).read_key(),
            final(self).encrypt_counter() == old(self).encrypt_counter(),
            ciphertext_with_tag@.len() < block_len + 16 ==> r is Err && *final(self) == *old(self),
            ciphertext_with_tag@.len() >= block_len + 16 ==> match r {
                Ok(p) => chacha_open(
                    old(self).read_key(),
                    counter_nonce(old(self).decrypt_counter()),
                    le16(block_len),
                    ciphertext_with_tag@,
                ) == Some(p@) && final(self).decrypt_counter() == old(self).decrypt_counter() + 1,
                Err(_) => chacha_open(
                    old(self).read_key(),
                    counter_nonce(old(self).decrypt_counter()),
                    le16(block_len),
                    ciphertext_with_tag@,
                ) is None && *final(self) == *old(self),
            },
    {
        if ciphertext_with_tag.len() < block_len as usize + 16 {
            return Err(CryptoError::Decryption("Ciphertext block too short".to_owned()));
        }
        let mut aad: Vec<u8> = Vec::new();
        put_le16(&mut aad, block_len);
        let nonce = build_nonce_from_counter(self.decrypt_counter);
        match aead_open(&self.read_key, &nonce, aad.as_slice(), ciphertext_with_tag) {
            Ok(p) => {
                self.decrypt_counter = self.decrypt_counter + 1;
                Ok(p)
            },
            Err(_) => Err(CryptoError::Decryption("Decryption/authentication failed".to_owned())),
        }
    }
}

/// A copy of `s[from..to]`.
pub fn slice_sub(s: &[u8], from: usize, to: usize) -> (r: Vec<u8>)
    requires
        from <= to <= s@.len(),
    ensures
        r@ == s@.subrange(from as int, to as int),
{
    let mut r: Vec<u8> = Vec::new();
    let mut k = from;
    while k < to
        invariant
            from <= k <= to <= s@.len(),
            r@ == s@.subrange(from as int, k as int),
        decreases to - k,
    {
        r.push(s[k]);
        k += 1;
    }
    r
}

/// The cipher of audio packets.
pub struct AudioCipher {
    key: [u8; 32],
}

/// The parts of a sealed audio payload: ciphertext, the 8 nonce bytes after the four
/// leading zeros, and the tag.
pub type AudioEncryptResult = (Vec<u8>, [u8; 8], [u8; 16]);

impl AudioCipher {
    pub fn new(key: [u8; 32]) -> (r: Self)
        ensures
            r.key() == key@,
    {
        Self { key }
    }

    pub closed spec fn key(&self) -> Seq<u8> {
        self.key@
    }

    /// Seals an audio payload under the sequence-number nonce and the timestamp/SSRC data.
    pub fn encrypt_with_seq(&self, audio_data: &[u8], rtp_timestamp: u32, ssrc: u32, seqnum: u16) -> (r:
        Result<AudioEncryptResult, CryptoError>)
        ensures
            r is Ok <==> audio_data@.len() / 64 < 0xFFFF_FFFF,
            r matches Ok((ct, nonce, tag)) ==> ct@ + tag@ == chacha_seal(
                self.key(),
                seq_nonce(seqnum),
                audio_aad(rtp_timestamp, ssrc),
                audio_data@,
            ) && tag@.len() == 16 && nonce@ == seq_nonce(seqnum).skip(4),
    {
        let mut nv: Vec<u8> = vec![0u8, 0u8, 0u8, 0u8];
        put_le16(&mut nv, seqnum);
        put_all(&mut nv, &[0u8, 0u8, 0u8, 0u8, 0u8, 0u8]);
        assert(nv@ =~= seq_nonce(seqnum));
        let nonce_12: [u8; 12] = [
            nv[0],
            nv[1],
            nv[2],
            nv[3],
            nv[4],
            nv[5],
            nv[6],
            nv[7],
            nv[8],
            nv[9],
            nv[10],
            nv[11],
        ];
        assert(nonce_12@ =~= seq_nonce(seqnum));
        let aad = build_aad(rtp_timestamp, ssrc);
        let sealed = match aead_seal(&self.key, &nonce_12, &aad, audio_data) {
            Ok(c) => c,
            Err(e) => {
                let mut msg = "Encryption failed: ".to_owned();
                msg.append(e.as_str());
                return Err(CryptoError::Encryption(msg));
            },
        };
        let tag_start = sealed.len() - 16;
        let ct = slice_sub(sealed.as_slice(), 0, tag_start);
        let t = slice_sub(sealed.as_slice(), tag_start, sealed.len());
        let tag: [u8; 16] = [
            t[0],
            t[1],
            t[2],
            t[3],
            t[4],
            t[5],
            t[6],
            t[7],
            t[8],
            t[9],
            t[10],
            t[11],
            t[12],
            t[13],
            t[14],
            t[15],
        ];
        assert(tag@ =~= t@);
        let nonce_8: [u8; 8] = [nv[4], nv[5], nv[6], nv[7], nv[8], nv[9], nv[10], nv[11]];
        assert(nonce_8@ =~= seq_nonce(seqnum).skip(4));
        assert(ct@ + tag@ =~= sealed@);
        Ok((ct, nonce_8, tag))
    }
}

} // verus!

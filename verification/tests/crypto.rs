use airplay::crypto::chacha::{AudioCipher, ControlCipher};
use airplay::crypto::hkdf::{derive_control_read_key, derive_control_write_key, derive_key_32};
use airplay::crypto::keys::{SessionKeys, SharedSecret};
use airplay::crypto::srp::{SrpChallenge, SrpClient};
use airplay::crypto::tlv::{Tlv8, TlvType};

fn unhex(s: &str) -> Vec<u8> {
    (0..s.len()).step_by(2).map(|i| u8::from_str_radix(&s[i..i + 2], 16).unwrap()).collect()
}

fn key(start: u8) -> [u8; 32] {
    let mut k = [0u8; 32];
    for (i, b) in k.iter_mut().enumerate() {
        *b = start.wrapping_add(i as u8);
    }
    k
}

#[test]
fn control_cipher_frame_matches_reference() {
    let mut c = ControlCipher::new(key(0), key(100));
    let out = c.encrypt(b"GET /info RTSP/1.0\r\n\r\n").unwrap();
    assert_eq!(out, unhex("16005ffd1611828fc8b77c410e35fc136116d681feffeca715409082bd1c9235376385ddbd7d6997"));
}

#[test]
fn control_cipher_roundtrip_between_peers() {
    let msg: Vec<u8> = (0..2500u32).map(|i| (i % 251) as u8).collect();
    let mut sender = ControlCipher::new(key(1), key(2));
    let mut receiver = ControlCipher::new(key(2), key(1));
    let wire = sender.encrypt(&msg).unwrap();
    let mut pos = 0;
    let mut plain = Vec::new();
    let mut blocks = 0;
    while pos < wire.len() {
        let len = u16::from_le_bytes([wire[pos], wire[pos + 1]]);
        let end = pos + 2 + len as usize + 16;
        let block = receiver.decrypt_block(&wire[pos + 2..end], len).unwrap();
        plain.extend_from_slice(&block);
        pos = end;
        blocks += 1;
    }
    assert_eq!(blocks, 3);
    assert_eq!(plain, msg);
}

#[test]
fn control_cipher_rejects_empty_and_tampered() {
    let mut c = ControlCipher::new(key(1), key(2));
    assert!(c.encrypt(b"").is_err());
    let mut wire = c.encrypt(b"SETUP").unwrap();
    let last = wire.len() - 1;
    wire[last] ^= 1;
    let mut peer = ControlCipher::new(key(2), key(1));
    assert!(peer.decrypt_block(&wire[2..], 5).is_err());
    assert!(peer.decrypt_block(&wire[2..10], 5).is_err());
}

#[test]
fn audio_cipher_matches_reference() {
    let c = AudioCipher::new(key(0));
    let (ct, nonce, tag) = c.encrypt_with_seq(b"hello audio", 0x11223344, 0x55667788, 5).unwrap();
    let mut sealed = ct.clone();
    sealed.extend_from_slice(&tag);
    assert_eq!(sealed, unhex("4b6dfa662a05264befc356f0907982b654fb1c63b1b6629a0fc9d9"));
    assert_eq!(nonce, [5, 0, 0, 0, 0, 0, 0, 0]);
}

#[test]
fn hkdf_control_keys_match_reference() {
    let secret: Vec<u8> = (0..32u8).collect();
    let w = derive_control_write_key(&secret).unwrap();
    let r = derive_control_read_key(&secret).unwrap();
    assert_eq!(w.to_vec(), unhex("c3ca130c7033dbe5e7ff7f91d117ead869bac476994c7a48ca170c111136ed96"));
    assert_eq!(r.to_vec(), unhex("c09403ef8aa6c5045cbd8cf9bf3e665b2caed623af2be0e87c8f80f519914d3d"));
    let keys = SessionKeys::derive_control_keys(&SharedSecret::new(secret.clone())).unwrap();
    assert_eq!(keys.write_key.as_bytes(), &w);
    assert_eq!(keys.read_key.as_bytes(), &r);
    assert_eq!(derive_key_32(&secret, b"Control-Salt", b"Control-Write-Encryption-Key").unwrap(), w);
}

#[test]
fn srp_client_matches_reference_exchange() {
    let private: [u8; 32] = core::array::from_fn(|i| (i + 1) as u8);
    let client = SrpClient::from_private_key(b"Pair-Setup", b"3939", private).unwrap();
    assert_eq!(client.public_key(), unhex("bc0e7cf5dc3babf67dcedbb3b140aacc6cac43f4336b43bbd5de48d6ea7c8eda66924e354255225bccad9debe21182e6bb050f3ff3e6cfbb62c229379968c70ca436ad649a0b051373184215eef046f6f1f2256838f958581f6c7b2b85fa4afe326a0e8a951d4489305331aff88a136fd8d108bcc95fceb7e557c889c828bd23fb0702f053e1ca6470fb3c76bce4843fc005c7ea675740f8550212656cfc8919d9db805a434a68229e0d9dfe43fc16dc680a5ce74b77cf374353b05759bc1da3a9dabde30a4209381c87ca83d9483abdf66b86f9b1cbda9ad82c62712b87ce6fb7069b8fc8df344261821a06d0dc5106af76d4245f3f7737a94dbc484b415555dc401842d3011204553ba9f611b02bc38de26eba1a76bf8350205a62c436ba1c3c7c69d59318bd107fd1c1f5d846b3142e85a5d49e522655e020ed1bfe1e186cf923bf328f0b9b4c6a8aa3266ed9125bb98d63827110713be7803122ee4603c54ea31863ce4b10aff31f9073cf63b94733b4f066e72d4ec35687047d5d0db160"));
    let salt: [u8; 16] = core::array::from_fn(|i| (0x10 + i) as u8);
    let challenge = SrpChallenge { salt, server_public_key: unhex("fa6440ccf2aadc65520f61e9a7e42fa1e53847c4a5c1cbb0becded4d78a4398320a6173a96cc6b2c407c5574c43e67660256dc87d428bd3d4022dfa5c4674a18f3d146bd06a4b168782c9fe7014f832cad192f3f0c2a848b7c6e3d59cacf60c89dc283b256cce942bd82a27f773e3d2ecf3c1ffe817aef772cf63615d4fc5c51853377522a3565b6081c35ff720b835188c3292b0c9a292e58ff6e9e29e8f56ec5c34a0289a2f75044abe031d4fb7eb556ecb030faa4eeb3125773f87a84e6f1bc52b9914c8383f2268b612efe10cd4036f2fd89c85d660badaf53839798b24b69eec89ed873136e8f1c9e4049509cb3885f9af73a1366d0ad5c86a9f54affe085e23fc108166cf47be9d267dbf9d4fff6278ea7342d0d5afdcc7c0d87f662d4f288b30619fed4d15d36593cab26e55619dfbbaf1e380ccddd138f4ceb5ae3672d4fe754023d7117c2cf60b17999f1be8ae925394a7d100441435382285c7969f126464b4954576c83fd921745f9073da8cdf6606e81a21669295ef6b63abbf4") };
    let proof = client.process_challenge(&challenge).unwrap();
    assert_eq!(proof.client_proof.len(), 64);
    assert_eq!(proof.shared_secret.len(), 64);
    assert_eq!(proof.expected_server_proof.len(), 64);
    assert_eq!(proof.client_proof, unhex("5c8e9362e33d3eaf3ca663676d3bf86956c51d4976d272d6cb793c8d96fa79e512453d5d9073ef678009d54e55040c4a4eba8e09f3edc510b8384c85a4709909"));
    assert_eq!(proof.shared_secret, unhex("f062e8435715ab8aa634cc235fce0433aa9293b4d483a480ea67f09938ed3b4903f77f32a1eec8573acf49edecb0611beafb49b4f8e8137310b14849b5fa996a"));
    assert_eq!(proof.expected_server_proof, unhex("323685a20cfb2de2b9809ad360df8f915d8003a5b7abea1d3efa5da832df75f340386ef166188578663ada1655cebf8d1e7d0c46b9dcbfa8de23277c09cd500f"));
    assert!(client.verify_server_proof(&proof.expected_server_proof, &unhex("323685a20cfb2de2b9809ad360df8f915d8003a5b7abea1d3efa5da832df75f340386ef166188578663ada1655cebf8d1e7d0c46b9dcbfa8de23277c09cd500f")));
    assert!(!client.verify_server_proof(&proof.client_proof, &unhex("323685a20cfb2de2b9809ad360df8f915d8003a5b7abea1d3efa5da832df75f340386ef166188578663ada1655cebf8d1e7d0c46b9dcbfa8de23277c09cd500f")));
}

#[test]
fn srp_rejects_zero_key_and_bad_server_key() {
    assert!(SrpClient::from_private_key(b"Pair-Setup", b"3939", [0u8; 32]).is_none());
    let client = SrpClient::from_private_key(b"Pair-Setup", b"3939", [7u8; 32]).unwrap();
    let challenge = SrpChallenge { salt: [1u8; 16], server_public_key: vec![0u8; 384] };
    assert!(client.process_challenge(&challenge).is_err());
}

#[test]
fn tlv_roundtrip_and_fragments() {
    let mut t = Tlv8::new();
    t.set(TlvType::State, vec![3]);
    t.set(TlvType::PublicKey, (0..300u32).map(|i| i as u8).collect());
    let bytes = t.encode();
    let back = Tlv8::parse(&bytes).unwrap();
    assert_eq!(back.state(), Some(3));
    assert_eq!(back.get(TlvType::PublicKey).unwrap().len(), 300);
    assert_eq!(back.encode(), bytes);
    assert_eq!(back.error(), None);
    assert!(Tlv8::parse(&[6, 5, 1]).is_err());
    let m1 = Tlv8::pair_setup_m1_with_flags();
    assert_eq!(m1.state(), Some(1));
    assert_eq!(TlvType::Flags.code(), 0x13);
}

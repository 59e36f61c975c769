use airplay::base::error::{Error, PairingError};
use airplay::client::handshake::install_pairing_keys;
use airplay::base::net::{Endpoint, IpAddress};
use airplay::crypto::chacha::ControlCipher;
use airplay::crypto::keys::{SessionKeys, SharedSecret};
use airplay::crypto::srp::RFC5054_N_3072;
use airplay::crypto::tlv::{Tlv8, TlvType};
use airplay::pairing::pair_setup::PairSetup;
use airplay::pairing::session::PairingSession;
use airplay::rtsp::connection::RtspConnection;
use airplay::rtsp::request::RtspRequest;
use num_bigint::BigUint;
use sha2::{Digest, Sha512};

fn h(parts: &[&[u8]]) -> Vec<u8> {
    let mut d = Sha512::new();
    for p in parts {
        d.update(p);
    }
    d.finalize().to_vec()
}

fn pad(b: &[u8]) -> Vec<u8> {
    let mut v = vec![0u8; 384 - b.len()];
    v.extend_from_slice(b);
    v
}

/// The server side of transient pair-setup with PIN 3939.
struct Server {
    n: BigUint,
    v: BigUint,
    b: BigUint,
    big_b: BigUint,
    salt: [u8; 16],
}

impl Server {
    fn new() -> Self {
        let n = BigUint::from_bytes_be(&RFC5054_N_3072);
        let g = BigUint::from(5u32);
        let salt = [0x42u8; 16];
        let x = BigUint::from_bytes_be(&h(&[&salt, &h(&[b"Pair-Setup:3939"])]));
        let v = g.modpow(&x, &n);
        let k = BigUint::from_bytes_be(&h(&[&pad(&n.to_bytes_be()), &pad(&g.to_bytes_be())]));
        let b = BigUint::from(987_654_321u64);
        let big_b = (k * &v + g.modpow(&b, &n)) % &n;
        Server { n, v, b, big_b, salt }
    }

    fn m2(&self) -> Vec<u8> {
        let mut t = Tlv8::new();
        t.set(TlvType::State, vec![2]);
        t.set(TlvType::Salt, self.salt.to_vec());
        t.set(TlvType::PublicKey, self.big_b.to_bytes_be());
        t.encode()
    }

    /// The session key and M4 for a client's M3.
    fn m4(&self, m3: &[u8]) -> (Vec<u8>, Vec<u8>) {
        let t = Tlv8::parse(m3).unwrap();
        let a_bytes = t.get(TlvType::PublicKey).unwrap().to_vec();
        let m1 = t.get(TlvType::Proof).unwrap().to_vec();
        let a = BigUint::from_bytes_be(&a_bytes);
        let u = BigUint::from_bytes_be(&h(&[&pad(&a.to_bytes_be()), &pad(&self.big_b.to_bytes_be())]));
        let s = (a * self.v.modpow(&u, &self.n)).modpow(&self.b, &self.n);
        let key = h(&[&pad(&s.to_bytes_be())]);
        let m2 = h(&[&pad(&BigUint::from_bytes_be(&a_bytes).to_bytes_be()), &m1, &key]);
        let mut r = Tlv8::new();
        r.set(TlvType::State, vec![4]);
        r.set(TlvType::Proof, m2);
        (key, r.encode())
    }
}

fn error_message(e: Error) -> String {
    match e {
        Error::Pairing(PairingError::Protocol(m)) => m,
        Error::Pairing(PairingError::InvalidState(m)) => m,
        other => panic!("unexpected error {:?}", other),
    }
}

#[test]
fn pair_setup_completes_with_reference_server() {
    let server = Server::new();
    let mut p = PairSetup::new_transient_with_pin("3939");
    let m1 = p.generate_m1().unwrap();
    let t = Tlv8::parse(&m1).unwrap();
    assert_eq!(t.state(), Some(1));
    assert_eq!(t.get(TlvType::Flags), Some(&[0x10u8, 0, 0, 0][..]));
    p.process_m2(&server.m2()).unwrap();
    let m3 = p.generate_m3().unwrap();
    assert_eq!(Tlv8::parse(&m3).unwrap().state(), Some(3));
    let (key, m4) = server.m4(&m3);
    p.process_m4(&m4).unwrap();
    let secret = p.complete_transient().unwrap();
    assert_eq!(secret.as_bytes(), &key[..]);
    assert!(p.complete_transient().is_err());
}

#[test]
fn pair_setup_refuses_wrong_proof_and_order() {
    let server = Server::new();
    let mut p = PairSetup::new_transient_with_pin("3939");
    assert_eq!(error_message(p.process_m2(&server.m2()).unwrap_err()), "M2 can only be processed after M1");
    assert_eq!(error_message(p.generate_m1().unwrap_err()), "M1 can only be generated from Initial state");
    let mut p = PairSetup::new_transient_with_pin("3939");
    p.generate_m1().unwrap();
    let mut bad = Tlv8::new();
    bad.set(TlvType::State, vec![2]);
    bad.set(TlvType::Error, vec![2]);
    assert_eq!(error_message(p.process_m2(&bad.encode()).unwrap_err()), "Server returned error in M2");
    let mut p = PairSetup::new_transient_with_pin("0000");
    p.generate_m1().unwrap();
    p.process_m2(&server.m2()).unwrap();
    let m3 = p.generate_m3().unwrap();
    let (_, m4) = server.m4(&m3);
    assert!(p.process_m4(&m4).is_err());
    let mut p = PairSetup::new_transient_with_pin("3939");
    p.generate_m1().unwrap();
    let mut short_salt = Tlv8::new();
    short_salt.set(TlvType::State, vec![2]);
    short_salt.set(TlvType::Salt, vec![1, 2, 3]);
    short_salt.set(TlvType::PublicKey, vec![1]);
    assert_eq!(error_message(p.process_m2(&short_salt.encode()).unwrap_err()), "M2 salt has wrong length: 3 (expected 16)");
}

#[test]
fn pairing_session_yields_control_keys() {
    let server = Server::new();
    let mut s = PairingSession::new();
    assert!(s.continue_transient_pairing(&[]).is_err());
    let _m1 = s.start_transient_pairing_with_pin("3939").unwrap();
    assert!(s.start_transient_pairing_with_pin("3939").is_err());
    let m3 = s.continue_transient_pairing(&server.m2()).unwrap().unwrap();
    let (key, m4) = server.m4(&m3);
    assert!(s.continue_transient_pairing(&m4).unwrap().is_none());
    let expected = SessionKeys::derive_control_keys(&SharedSecret::new(key)).unwrap();
    let mut rtsp = RtspConnection::new(Endpoint::new(IpAddress::V4(1), 7000));
    install_pairing_keys(&mut rtsp, &mut s).unwrap();
    assert!(s.take_session_keys().is_none());
    assert!(install_pairing_keys(&mut rtsp, &mut s).is_err());
    let (wire, _) = rtsp.prepare_request(RtspRequest::options()).unwrap();
    let mut receiver = ControlCipher::new(*expected.read_key.as_bytes(), *expected.write_key.as_bytes());
    let len = u16::from_le_bytes([wire[0], wire[1]]);
    let plain = receiver.decrypt_block(&wire[2..], len).unwrap();
    assert!(plain.starts_with(b"OPTIONS * RTSP/1.0\r\nCSeq: 1\r\n"));
}

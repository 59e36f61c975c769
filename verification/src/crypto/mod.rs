pub mod tlv;
pub mod chacha;
pub mod hkdf;
pub mod keys;
pub mod srp;

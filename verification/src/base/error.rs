//! Error types of the library.
use crate::text::{push_str, string_from_chars};
use vstd::prelude::*;

verus! {

/// The contents of a [`ParseError`], as text.
pub enum ParseErrorV {
    InvalidFormat(Seq<char>),
    MissingField(Seq<char>),
    InvalidHex(Seq<char>),
    InvalidValue(Seq<char>),
}

#[derive(Debug)]
#[non_exhaustive]
pub enum ParseError {
    InvalidFormat(String),
    MissingField(&'static str),
    InvalidHex(String),
    InvalidValue(String),
}

impl View for ParseError {
    type V = ParseErrorV;

    open spec fn view(&self) -> ParseErrorV {
        match self {
            ParseError::InvalidFormat(s) => ParseErrorV::InvalidFormat(s@),
            ParseError::MissingField(s) => ParseErrorV::MissingField(s@),
            ParseError::InvalidHex(s) => ParseErrorV::InvalidHex(s@),
            ParseError::InvalidValue(s) => ParseErrorV::InvalidValue(s@),
        }
    }
}

/// The text of a parse error, as its `Display` shows it.
pub open spec fn parse_error_text(e: ParseErrorV) -> Seq<char> {
    match e {
        ParseErrorV::InvalidFormat(s) => "Invalid format: "@ + s,
        ParseErrorV::MissingField(s) => "Missing required field: "@ + s,
        ParseErrorV::InvalidHex(s) => "Invalid hex value: "@ + s,
        ParseErrorV::InvalidValue(s) => "Invalid value: "@ + s,
    }
}

impl ParseError {
    /// The error's text (what `Display` shows).
    pub fn message(&self) -> (r: String)
        ensures
            r@ == parse_error_text(self@),
    {
        let mut m: Vec<char> = Vec::new();
        match self {
            ParseError::InvalidFormat(s) => {
                push_str(&mut m, "Invalid format: ");
                push_str(&mut m, s.as_str());
            },
            ParseError::MissingField(s) => {
                push_str(&mut m, "Missing required field: ");
                push_str(&mut m, s);
            },
            ParseError::InvalidHex(s) => {
                push_str(&mut m, "Invalid hex value: ");
                push_str(&mut m, s.as_str());
            },
            ParseError::InvalidValue(s) => {
                push_str(&mut m, "Invalid value: ");
                push_str(&mut m, s.as_str());
            },
        }
        string_from_chars(m.as_slice())
    }
}

#[derive(Debug)]
#[non_exhaustive]
pub enum DiscoveryError {
    Daemon(String),
    Resolution(String),
    NoDevicesFound,
    DeviceNotFound(String),
}

#[derive(Debug)]
#[non_exhaustive]
pub enum PairingError {
    InvalidPin,
    Rejected,
    SrpVerificationFailed,
    InvalidServerPublicKey,
    SignatureInvalid,
    StateMismatch { expected: u8, actual: u8 },
    TlvParse(String),
    MissingTlv(u8),
    InvalidState(String),
    Protocol(String),
}

#[derive(Debug)]
#[non_exhaustive]
pub enum RtspError {
    ConnectionRefused,
    InvalidResponse(String),
    UnexpectedStatus(u16),
    MissingHeader(String),
    PlistError(String),
    NoSession,
    SetupFailed(String),
}

#[derive(Debug)]
#[non_exhaustive]
pub enum StreamingError {
    Encoding(String),
    BufferUnderrun,
    BufferOverflow,
    TimingSyncLost,
    Interrupted,
    InvalidFormat(String),
}

#[derive(Debug)]
#[non_exhaustive]
pub enum CryptoError {
    Encryption(String),
    Decryption(String),
    KeyDerivation(String),
    InvalidKeyLength { expected: usize, actual: usize },
    AuthTagMismatch,
}

/// `std::io::Error`, carried through unchanged.
#[verifier::external_type_specification]
#[verifier::external_body]
pub struct ExIoError(std::io::Error);

#[derive(Debug)]
#[non_exhaustive]
pub enum Error {
    Discovery(DiscoveryError),
    Connection(std::io::Error),
    Pairing(PairingError),
    Rtsp(RtspError),
    Streaming(StreamingError),
    Crypto(CryptoError),
    Parse(ParseError),
    UnsupportedFeature { feature: &'static str },
    MfiRequired,
    Timeout,
}

} // verus!

//! The salt and info strings of the control-channel key derivation.
use vstd::prelude::*;

verus! {

/// `b"Control-Salt"`.
pub const CONTROL_SALT: [u8; 12] = [
    0x43, 0x6F, 0x6E, 0x74, 0x72, 0x6F, 0x6C, 0x2D, 0x53, 0x61, 0x6C, 0x74,
];

/// `b"Control-Write-Encryption-Key"`.
pub const CONTROL_WRITE_KEY_INFO: [u8; 28] = [
    0x43, 0x6F, 0x6E, 0x74, 0x72, 0x6F, 0x6C, 0x2D, 0x57, 0x72, 0x69, 0x74, 0x65, 0x2D, 0x45, 0x6E,
    0x63, 0x72, 0x79, 0x70, 0x74, 0x69, 0x6F, 0x6E, 0x2D, 0x4B, 0x65, 0x79,
];

/// `b"Control-Read-Encryption-Key"`.
pub const CONTROL_READ_KEY_INFO: [u8; 27] = [
    0x43, 0x6F, 0x6E, 0x74, 0x72, 0x6F, 0x6C, 0x2D, 0x52, 0x65, 0x61, 0x64, 0x2D, 0x45, 0x6E, 0x63,
    0x72, 0x79, 0x70, 0x74, 0x69, 0x6F, 0x6E, 0x2D, 0x4B, 0x65, 0x79,
];

} // verus!

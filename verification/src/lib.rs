use vstd::prelude::*;

pub mod audio;
pub mod base;
pub mod bytes;
pub mod client;
pub mod crypto;
pub mod discovery;
pub mod pairing;
pub mod protocol;
pub mod rtsp;
pub mod text;
pub mod timing;

verus! {

} // verus!

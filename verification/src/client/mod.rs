//! What the client decides on its own: its configuration, its statistics, its playback
//! states and how it answers the receivers' control traffic.
pub mod builder;
pub mod connection;
pub mod control;
pub mod group;
pub mod handshake;
pub mod playback;
pub mod stats;

use vstd::prelude::*;

verus! {

/// How far ahead of the wall clock packets are stamped, unless set otherwise.
pub const DEFAULT_RENDER_DELAY_MS: u32 = 200;

/// The PIN of transient pairing.
pub const DEFAULT_TRANSIENT_PIN: &'static str = "3939";

/// How many live frames the channel to the decoder holds.
pub const LIVE_FRAME_CHANNEL_CAPACITY: usize = 16;

/// The priority a client announces when it yields the PTP master role.
pub const BMCA_YIELD_PRIORITY: u8 = 250;

} // verus!

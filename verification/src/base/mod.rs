pub mod error;
pub mod codec;
pub mod stream;
pub mod features;
pub mod device;
pub mod net;
pub mod random;

pub mod buffer;
pub mod payload_types;
pub mod packet;
pub mod retransmit;
pub mod cipher;
pub mod sender;
pub mod encoder;
pub mod live_decoder;
pub mod streamer;
pub mod sender_thread;

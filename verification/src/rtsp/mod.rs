pub mod request;
pub mod response;
pub mod plist_codec;
pub mod session;
pub mod connection;

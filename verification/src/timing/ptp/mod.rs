pub mod types;
pub mod tlv;
pub mod messages;
pub mod flows;

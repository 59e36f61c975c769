pub mod clock;
pub mod ntp;
pub mod ptp;

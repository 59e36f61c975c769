pub mod pair_setup;
pub mod session;

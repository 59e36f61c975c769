pub mod browser;
pub mod parser;
pub mod traits;

use vstd::prelude::*;

verus! {

pub const AIRPLAY_SERVICE_TYPE: &'static str = "_airplay._tcp.local.";

pub const RAOP_SERVICE_TYPE: &'static str = "_raop._tcp.local.";

} // verus!

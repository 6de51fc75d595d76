//! What the server decides before it serves: the parameters it runs with,
//! and how the failures of the engine are answered on the bridge for
//! client-side encryption.

pub mod config;
pub mod google_cse;
pub mod params;

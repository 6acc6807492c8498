//! What a PostgreSQL client is told over the wire.
use vstd::prelude::*;

pub mod capture;
pub mod json;
pub mod laws;
pub mod startup;
pub mod statements;
pub mod values;

verus! {

/// The server version that clients are told, and gate their feature detection on.
pub const SERVER_VERSION: &'static str = "17.4.0";

} // verus!

//! The runtime types of the language and the description of procedure
//! signatures.

pub mod iface;
pub mod types;

//! The runtime library that compiled programs call.

pub mod conversion;
pub mod interaction;

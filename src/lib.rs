//! Deterministic 24-byte address seeds for credential identifiers, and the
//! one-time initialization of the multi-party authorization account that a
//! seed addresses.

pub mod hex;
pub mod seed;
pub mod wallet;

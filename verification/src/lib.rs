//! A proof-compliance registry: an authenticated keyed store that records
//! which account first attested to an opaque byte string (a "proof") and at
//! which point of a globally ordered execution sequence that happened.
//!
//! The host environment is expected to authenticate callers, assign sequence
//! numbers and persist state; the registry itself is pure logic over a keyed
//! store, and is what this crate verifies.

pub mod laws;
pub mod model;
pub mod registry;

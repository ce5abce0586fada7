//! Keys per provider, with rotation, quotas and automatic status transitions.
pub mod choosing;
pub mod hub;
pub mod hub_laws;
pub mod laws;
pub mod pool;
pub mod transitions;

pub use self::hub::KeyHub;
pub use self::pool::{FreeKeyCandidate, KeyPool, RoundRobin};
pub use crate::keystate::key_fingerprint;

//! What the gateway learns of models, keys and requests.
pub mod laws;
pub mod learner;
pub mod record_laws;
pub mod rows;
pub mod store;
pub mod sync;
pub mod tallies;
pub mod usage;

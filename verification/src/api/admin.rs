//! The administrative interface.
pub mod analysis;
pub mod change_laws;
pub mod course_laws;
pub mod events;
pub mod keys;
pub mod laws;
pub mod metadata;
pub mod models;
pub mod overview;
pub mod refresh;
pub mod reports;
pub mod settings;
pub mod trial;
pub mod validation;

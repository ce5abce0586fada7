//! What the public and the administrative interface say and understand.
pub mod admin;
pub mod attempts;
pub mod chat;
pub mod compat;
pub mod laws;
pub mod listing_laws;
pub mod models;
pub mod status;
pub mod status_laws;

//! Adaptive routing: what a request needs, which candidate meets it best, and
//! which routes there are.
pub mod chat;
pub mod laws;
pub mod observations;
pub mod profile;
pub mod route_laws;
pub mod routing;
pub mod scoring;
pub mod summary;
pub mod summary_laws;

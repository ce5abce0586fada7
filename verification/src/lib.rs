//! A gateway in front of free and paid language-model providers: key pools with
//! cooldowns and quotas, adaptive routing, error classification and the JSON
//! shapes of the public and administrative interfaces.
pub mod adaptive;
pub mod api;
pub mod clock;
pub mod config;
pub mod cors;
pub mod error;
pub mod health;
pub mod identifiers;
pub mod json;
pub mod json_text;
pub mod keyhub;
pub mod keystate;
pub mod laws;
pub mod lists;
pub mod metadata;
pub mod models;
pub mod patterns;
pub mod providers;
pub mod rate_rules;
pub mod registry;
pub mod sanitize;
pub mod sorting;
pub mod text;

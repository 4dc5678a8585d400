//! Talking to web services.
pub mod github;

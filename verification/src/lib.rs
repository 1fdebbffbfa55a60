//! Core of a URL shortener: collision-safe short-token generation, a
//! versioned schema-migration runner, and the redirect store and service
//! that map short tokens to destination URLs.

pub mod errors;
pub mod migrate;
pub mod service;
pub mod store;
pub mod token;

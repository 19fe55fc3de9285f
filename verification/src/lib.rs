//! Core of an OAuth2-style authorization server: claims decoding and
//! validation, a role/resource/action permission matrix, client
//! authentication and redirect validation, and the single-use,
//! time-bounded authorization-code store, with machine-checked contracts.

pub mod bytes;
pub mod claims;
pub mod client;
pub mod config;
pub mod crypto;
pub mod errors;
pub mod flow;
pub mod hexcodec;
pub mod permissions;
pub mod requests;
pub mod store;

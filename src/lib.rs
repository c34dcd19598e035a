//! Feature-flag evaluation: rule matching with ordered precedence, stable percentage
//! bucketing, and the decision cache of the remote client.

pub mod cache;
pub mod eval;
pub mod hashing;
pub mod key;
pub mod models;
pub mod text;
pub mod url;

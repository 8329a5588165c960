//! OAuth 2.1 provider.
pub mod types;
pub mod crypto;

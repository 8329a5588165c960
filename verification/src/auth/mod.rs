//! Authentication support: the OAuth 2.1 provider's types and checks.
pub mod jwks;
pub mod provider;

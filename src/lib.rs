//! Credential verification and token issuance for a vault sync service.
pub mod account;
pub mod claims;
pub mod codec;
pub mod error;
pub mod grant;
pub mod guard;
pub mod import;
pub mod issuer;
pub mod json;
pub mod models;

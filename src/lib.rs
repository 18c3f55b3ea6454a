//! Session authentication: signed expiring tokens, credential checks, and the
//! uniform response envelope that every flow answers with.

pub mod auth;
pub mod envelope;
pub mod mac;
pub mod text;
pub mod token;

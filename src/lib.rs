//! Session credentials for an authentication backend: minting, rotation and
//! validation of encrypted bearer tokens, with the record stores they live in.
pub mod api;
pub mod auth;
pub mod claims;
pub mod connector;
pub mod device;
pub mod encoding;
pub mod envelope;
pub mod error;
pub mod guarantees;
pub mod lookup;
pub mod session;
pub mod token;
pub mod transcription;
pub mod user;

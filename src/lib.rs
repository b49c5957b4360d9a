//! An in-memory store of WebAuthn challenges and credentials, keyed by user.
//!
//! Everything it holds is lost when the process ends: it is meant for demo
//! sites, for tests, and as the model that a durable store can be held to.

pub mod config;
pub mod credential_set;
pub mod ephemeral;
pub mod laws;
pub mod model;
pub mod proto;
mod table;

pub use config::WebauthnConfig;
pub use ephemeral::WebauthnEphemeralConfig;
pub use model::{StoreModel, StoreOp};
pub use proto::{Challenge, Credential, CredentialModel, UserId};

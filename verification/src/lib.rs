//! A peer-to-peer conversation protocol engine.
//!
//! The engine establishes addressable, encrypted conversations between
//! identities over a pluggable transport. Application content travels
//! through a layered wire encoding — tagged payload, envelope, encrypted
//! bytes, reliability wrapper, application frame — built and parsed by the
//! codec in `wire`, `payload` and `codec`. A conversation (`convo`) is a
//! private session or the client's own inbox; the registry (`registry`)
//! maps deterministic conversation identifiers (`topics`) to live
//! conversations; the orchestrator (`client`) drives the invite handshake
//! and the per-message receive pipeline. A lighter single-session flavor
//! of the same stack lives in `session`.
//!
//! Every encoding comes with a proved round-trip law; the identifier
//! derivation is proved symmetric; invite registration is proved
//! idempotent; and the receive pipeline is proved to deliver a private
//! send, and to register an invite, exactly as sent.

pub mod client;
pub mod codec;
pub mod content_types;
pub mod convo;
pub mod crypto;
pub mod error;
pub mod payload;
pub mod registry;
pub mod session;
pub mod topics;
pub mod utils;
pub mod wire;

//! The error taxonomy of the protocol engine.
//!
//! Outbound failures (`PublishError`, `EncodingError`) are reported to the
//! caller synchronously; inbound failures (`DecodingError`) abort only the
//! message being processed, never the receive loop.

use vstd::prelude::*;

verus! {

/// Every failure the engine can report.
#[derive(Debug, Clone, PartialEq, Eq)]
pub enum UmbraError {
    /// The transport failed to send a message.
    PublishError(String),
    /// The transport failed while receiving.
    PollError(String),
    /// A value could not be serialized.
    EncodingError(String),
    /// Malformed bytes at some decoding layer: payload, envelope,
    /// encrypted bytes, reliability wrapper, or inner frame.
    DecodingError(String),
    /// An internal invariant was violated, or an operation was invoked
    /// on a conversation kind that can never support it.
    UnexpectedError,
    /// A reserved protocol or tag path that is not built yet.
    UnimplementedError,
}

} // verus!

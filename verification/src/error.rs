use vstd::prelude::*;

verus! {

/// Errors of the robot's message bus.
#[derive(Debug)]
pub enum CommsError {
    /// The transport failed; the message is the transport's own description.
    Transport(String),
    /// A payload could not be encoded or decoded.
    Serialization(postcard::Error),
    /// A payload was decoded but does not make sense for its topic.
    InvalidPayload { topic: &'static str, reason: &'static str },
}

impl CommsError {
    /// Whether a receiver should skip this error and wait for the next message
    /// (a bad payload) rather than stop (a transport or decoding failure).
    pub fn is_invalid_payload(&self) -> (skip: bool)
        ensures
            skip == (self is InvalidPayload),
    {
        match self {
            CommsError::InvalidPayload { .. } => true,
            _ => false,
        }
    }
}

} // verus!

//! The encoding contract a payload type satisfies to travel on a bus.

use vstd::prelude::*;

use crate::errors::{DecodeError, EncodeError};
use crate::subject::SubjectIter;

verus! {

/// A wire encoding scheme. Types implementing this are markers: a bus is
/// bound to one scheme when it is built, and applies it to every publish and
/// subscribe made through it.
pub trait MessageEncoding {
}

/// A message payload under the encoding scheme `E`.
///
/// Encoding is expected to be a pure, deterministic function of the message;
/// on failure the caller discards the sink, so no partial write is ever
/// observable.
pub trait Message<E: MessageEncoding>: Sized {
    /// Serializes the message into a growable byte sink.
    fn encode(&self, buf: &mut Vec<u8>) -> Result<(), EncodeError>;

    /// Deserializes a delivered payload. The delivery topic is made
    /// available because some encodings pick a message variant by topic.
    fn decode(topic: SubjectIter, payload: &[u8]) -> Result<Self, DecodeError>;
}

} // verus!

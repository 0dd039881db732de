//! The failure taxonomy of the bus: encode, decode, broker and topic
//! construction failures, each surfaced as an explicit outcome at the point
//! of the failing call or delivery.

use vstd::prelude::*;

verus! {

/// An encode-time structural violation of a topic. The codec reports these
/// as distinct construction errors rather than silently producing a
/// truncated or malformed subject.
#[derive(Clone, Copy, Debug, PartialEq, Eq, Structural)]
pub enum TopicError {
    /// The topic has no levels at all.
    EmptyTopic,
    /// An exact token is empty, which would make an ambiguous empty segment.
    EmptyToken,
    /// An exact token contains the level delimiter, which could not be told
    /// apart from a level boundary.
    DelimiterInToken,
    /// A publish topic contains a wildcard level; wildcards are a
    /// subscription-only concept.
    WildcardInPublish,
    /// A publish topic asks for a remainder match; remainder matches are a
    /// subscription-only concept.
    RemainderInPublish,
}

/// A payload could not be serialized; the cause is application-defined.
#[derive(Debug)]
pub struct EncodeError {
    pub detail: String,
}

/// A delivered payload could not be deserialized into the expected message
/// type. Surfaced as the value at that position of a subscription's
/// sequence; it never terminates the sequence.
#[derive(Debug)]
pub struct DecodeError {
    pub detail: String,
}

/// The broker rejected an operation or the connection is unusable.
#[derive(Debug)]
pub struct BusError {
    pub detail: String,
}

/// Why a publish attempt failed.
#[derive(Debug)]
pub enum PublishError {
    /// The message could not be serialized; the broker was never contacted.
    EncodeError(EncodeError),
    /// The topic is not fit for publishing; the broker was never contacted.
    TopicError(TopicError),
    /// The broker rejected the send or the connection is down.
    BusError(BusError),
}

/// Why a subscribe registration failed.
#[derive(Debug)]
pub enum SubscribeError {
    /// The topic could not be translated to a subject.
    TopicError(TopicError),
    /// The broker rejected the registration or the connection is down.
    BusError(BusError),
}

/// A delivery-time failure on a live subscription.
#[derive(Debug)]
pub enum SubscriptionError {
    /// One delivered payload failed to decode; the sequence continues with
    /// the next delivery.
    DecodeError(DecodeError),
}

} // verus!

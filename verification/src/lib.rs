//! A typed publish/subscribe layer over a wire-level message broker.
//!
//! Messages are addressed with a structured, hierarchical [`topic::Topic`]
//! instead of a raw broker subject string. The subject codec translates
//! between the two losslessly, and every payload moves through the message
//! encoding contract. The broker-facing plumbing (connections, async
//! delivery) lives outside this crate; everything here is pure computation.

pub mod bus;
pub mod errors;
pub mod message;
pub mod subject;
pub mod topic;

pub use bus::{decode_delivery, delivery_item, prepare_publish, publishable_topic};
pub use bus::{subscribe_subject, subscription_step, SubscriptionEvent, SubscriptionState};
pub use errors::{BusError, DecodeError, EncodeError, PublishError, SubscribeError};
pub use errors::{SubscriptionError, TopicError};
pub use message::{Message, MessageEncoding};
pub use subject::{subject_to_topic, topic_level, topic_to_subject, SubjectIter};
pub use topic::{Topic, TopicLevel, TopicPath};

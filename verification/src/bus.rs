//! The compute side of the bus operations, and the lifecycle of one
//! subscription.
//!
//! A concrete bus holds a live broker connection; everything it decides —
//! how a publish is prepared, how a subscribe registration names its
//! subject, and what one raw delivery turns into — is computed here, on
//! plain values, so the connection-holding shell only moves bytes.

use vstd::prelude::*;

use crate::errors::{DecodeError, EncodeError, PublishError, SubscribeError};
use crate::errors::{SubscriptionError, TopicError};
use crate::message::{Message, MessageEncoding};
use crate::subject::{parse_subject, subject_chars, subject_to_topic, topic_encodable};
use crate::subject::{topic_encode_error, topic_to_subject, SubjectIter};
use crate::topic::{LevelView, Topic, TopicLevel};

verus! {

/// A topic fit for publishing: no wildcard levels and no remainder match.
/// Wildcards are a subscription-only concept; publishing through one is a
/// caller error that is rejected rather than handed to the broker.
pub open spec fn publishable(levels: Seq<LevelView>, prefix_match: bool) -> bool {
    !prefix_match && forall|i: int| 0 <= i < levels.len() ==> #[trigger] levels[i] is Exact
}

/// Checks a topic against the publish-side contract.
pub fn publishable_topic<T: Topic>(topic: &T) -> (b: bool)
    ensures
        b == publishable(topic.levels(), topic.prefix()),
{
    if topic.prefix_match() {
        return false;
    }
    let ghost lvls = topic.levels();
    let n = topic.level_count();
    let mut i: usize = 0;
    while i < n
        invariant
            0 <= i <= n,
            n == lvls.len(),
            lvls == topic.levels(),
            forall|j: int| 0 <= j < i ==> #[trigger] lvls[j] is Exact,
        decreases n - i,
    {
        match topic.level_at(i) {
            TopicLevel::Exact(_) => {},
            TopicLevel::WildCard => {
                proof {
                    assert(!(lvls[i as int] is Exact));
                }
                return false;
            },
        }
        i = i + 1;
    }
    true
}

/// Serializes one message into a fresh byte sink, handing back either the
/// populated sink or the encoder's own error. The contract ties both
/// outcomes to the encode call itself: the bytes are what one encode call
/// wrote into an initially empty sink, and a reported error is one the
/// encoder itself returned.
fn encode_message<E: MessageEncoding, M: Message<E>>(msg: &M) -> (r: Result<Vec<u8>, EncodeError>)
    ensures
        r matches Err(e) ==> exists|bp: &mut Vec<u8>, o: Result<(), EncodeError>|
            #[trigger] call_ensures(M::encode, (msg, bp), o) && o == Err::<(), EncodeError>(e),
        r matches Ok(b) ==> exists|bp: &mut Vec<u8>, o: Result<(), EncodeError>|
            #[trigger] call_ensures(M::encode, (msg, bp), o) && o is Ok && (*bp)@ == Seq::<
                u8,
            >::empty() && (*final(bp))@ == b@,
{
    let mut buf: Vec<u8> = Vec::new();
    match msg.encode(&mut buf) {
        Ok(()) => Ok(buf),
        Err(e) => Err(e),
    }
}

/// The compute side of one publish attempt: encode the message, then
/// validate the topic and translate it to its subject. On success the
/// caller hands the subject and the bytes to the broker for a one-shot
/// send; on any failure reported here the broker is never contacted.
pub fn prepare_publish<E: MessageEncoding, M: Message<E>, T: Topic>(topic: &T, msg: &M) -> (r:
    Result<(String, Vec<u8>), PublishError>)
    ensures
        r matches Ok((s, b)) ==> topic_encodable(topic.levels()) && publishable(
            topic.levels(),
            topic.prefix(),
        ) && s@ == subject_chars(topic.levels(), false),
        r matches Ok((s, b)) ==> exists|bp: &mut Vec<u8>, o: Result<(), EncodeError>|
            #[trigger] call_ensures(M::encode, (msg, bp), o) && o is Ok && (*bp)@ == Seq::<
                u8,
            >::empty() && (*final(bp))@ == b@,
        r matches Err(PublishError::EncodeError(e)) ==> exists|
            bp: &mut Vec<u8>,
            o: Result<(), EncodeError>,
        |
            #[trigger] call_ensures(M::encode, (msg, bp), o) && o == Err::<(), EncodeError>(e),
        topic_encodable(topic.levels()) && publishable(topic.levels(), topic.prefix()) && (
        forall|bp: &mut Vec<u8>, o: Result<(), EncodeError>|
            #[trigger] call_ensures(M::encode, (msg, bp), o) ==> o is Ok) ==> r is Ok,
        topic_encodable(topic.levels()) && publishable(topic.levels(), topic.prefix()) ==> (
        r matches Err(e) ==> e is EncodeError),
        !(topic_encodable(topic.levels()) && publishable(topic.levels(), topic.prefix()))
            ==> r is Err,
        r matches Err(e) ==> !(e is BusError),
        (match r {
            Err(PublishError::TopicError(te)) => match te {
                TopicError::RemainderInPublish => topic.prefix(),
                TopicError::WildcardInPublish => exists|i: int|
                    0 <= i < topic.levels().len() && !(#[trigger] topic.levels()[i] is Exact),
                _ => topic_encode_error(topic.levels(), te),
            },
            _ => true,
        }),
{
    let buf = match encode_message::<E, M>(msg) {
        Err(e) => {
            return Err(PublishError::EncodeError(e));
        },
        Ok(b) => b,
    };
    let subject = match topic_to_subject(topic) {
        Err(te) => {
            return Err(PublishError::TopicError(te));
        },
        Ok(s) => s,
    };
    if topic.prefix_match() {
        return Err(PublishError::TopicError(TopicError::RemainderInPublish));
    }
    if !publishable_topic(topic) {
        return Err(PublishError::TopicError(TopicError::WildcardInPublish));
    }
    Ok((subject, buf))
}

/// The compute side of one subscribe registration: translate the topic —
/// wildcard levels and a remainder match are welcome here — to the subject
/// to register with the broker.
pub fn subscribe_subject<T: Topic>(topic: &T) -> (r: Result<String, SubscribeError>)
    ensures
        r is Ok <==> topic_encodable(topic.levels()),
        r matches Ok(s) ==> s@ == subject_chars(topic.levels(), topic.prefix()),
        r matches Err(e) ==> e matches SubscribeError::TopicError(te) && topic_encode_error(
            topic.levels(),
            te,
        ),
{
    match topic_to_subject(topic) {
        Ok(s) => Ok(s),
        Err(te) => Err(SubscribeError::TopicError(te)),
    }
}

/// Wraps one decode outcome as the subscription's sequence reports it: a
/// success becomes the item, a failure becomes the error value standing at
/// that position — never a terminated sequence.
pub fn delivery_item<E: MessageEncoding, M: Message<E>>(outcome: Result<M, DecodeError>) -> (r:
    Result<M, SubscriptionError>)
    ensures
        match outcome {
            Ok(m) => r == Result::<M, SubscriptionError>::Ok(m),
            Err(e) => r == Result::<M, SubscriptionError>::Err(
                SubscriptionError::DecodeError(e),
            ),
        },
{
    match outcome {
        Ok(m) => Ok(m),
        Err(e) => Err(SubscriptionError::DecodeError(e)),
    }
}

/// The per-delivery adapter between a raw broker delivery and the decoded
/// sequence a subscription promises: recover the topic from the delivered
/// subject, then decode the payload under it. One delivery in, exactly one
/// item out: the item is the outcome of one decode call on this payload
/// under the parsed topic, a failure wrapped in place as the error value.
pub fn decode_delivery<E: MessageEncoding, M: Message<E>>(subject: &str, payload: &[u8]) -> (r:
    Result<M, SubscriptionError>)
    ensures
        exists|t: SubjectIter, o: Result<M, DecodeError>|
            t.levels() == parse_subject(subject@) && t.prefix() == false
                && #[trigger] call_ensures(M::decode, (t, payload), o) && r == (match o {
                Ok(m) => Result::<M, SubscriptionError>::Ok(m),
                Err(e) => Result::<M, SubscriptionError>::Err(SubscriptionError::DecodeError(e)),
            }),
{
    let topic = subject_to_topic(subject);
    let ghost t0 = topic;
    let outcome = M::decode(topic, payload);
    let ghost o0 = outcome;
    let r = delivery_item::<E, M>(outcome);
    proof {
        assert(call_ensures(M::decode, (t0, payload), o0));
    }
    r
}

/// The lifecycle of one subscription: registered with the broker, then
/// delivering zero or more decode outcomes, until the connection or the
/// caller-held handle closes it for good.
#[derive(Clone, Copy, Debug, PartialEq, Eq, Structural)]
pub enum SubscriptionState {
    /// The subscribe call succeeded; nothing has been delivered yet.
    Registered,
    /// At least one delivery has been adapted; more may follow.
    Delivering,
    /// Terminal: no further items, reads see end-of-sequence.
    Closed,
}

/// One thing that can happen to a subscription.
#[derive(Debug)]
pub enum SubscriptionEvent {
    /// The broker delivered a subject and a raw payload on a matched
    /// subject.
    Delivery(String, Vec<u8>),
    /// The underlying broker connection closed.
    ConnectionClosed,
    /// The caller dropped the subscription handle; handle lifetime is the
    /// cancellation mechanism.
    HandleDropped,
}

/// The successor state of a subscription: the closed state absorbs every
/// event, a delivery keeps a live subscription delivering, and either
/// closing event is terminal.
pub open spec fn next_state(state: SubscriptionState, event: SubscriptionEvent)
    -> SubscriptionState {
    if state is Closed {
        SubscriptionState::Closed
    } else {
        match event {
            SubscriptionEvent::Delivery(_, _) => SubscriptionState::Delivering,
            SubscriptionEvent::ConnectionClosed => SubscriptionState::Closed,
            SubscriptionEvent::HandleDropped => SubscriptionState::Closed,
        }
    }
}

/// Whether a step hands the consumer an item: exactly the deliveries that
/// reach a subscription which is not yet closed.
pub open spec fn yields_item(state: SubscriptionState, event: SubscriptionEvent) -> bool {
    !(state is Closed) && event is Delivery
}

/// Advances one subscription by one event. A delivery reaching a live
/// subscription yields exactly one decoded item — the outcome of one decode
/// call on that delivery's payload under its parsed subject, `Ok` or `Err`
/// — and the subscription keeps delivering either way; a closing event, or
/// any event after closing, yields nothing.
pub fn subscription_step<E: MessageEncoding, M: Message<E>>(
    state: SubscriptionState,
    event: SubscriptionEvent,
) -> (r: (SubscriptionState, Option<Result<M, SubscriptionError>>))
    ensures
        r.0 == next_state(state, event),
        r.1 is Some <==> yields_item(state, event),
        (match r.1 {
            Some(item) => match event {
                SubscriptionEvent::Delivery(s, p) => exists|
                    t: SubjectIter,
                    pl: &[u8],
                    o: Result<M, DecodeError>,
                |
                    t.levels() == parse_subject(s@) && t.prefix() == false && pl@ == p@
                        && #[trigger] call_ensures(M::decode, (t, pl), o) && item == (match o {
                        Ok(m) => Result::<M, SubscriptionError>::Ok(m),
                        Err(e) => Result::<M, SubscriptionError>::Err(
                            SubscriptionError::DecodeError(e),
                        ),
                    }),
                _ => false,
            },
            None => true,
        }),
{
    match event {
        SubscriptionEvent::Delivery(subject, payload) => {
            if state == SubscriptionState::Closed {
                (SubscriptionState::Closed, None)
            } else {
                let pl = payload.as_slice();
                let item = decode_delivery::<E, M>(subject.as_str(), pl);
                (SubscriptionState::Delivering, Some(item))
            }
        },
        SubscriptionEvent::ConnectionClosed => (SubscriptionState::Closed, None),
        SubscriptionEvent::HandleDropped => (SubscriptionState::Closed, None),
    }
}

/// Once a subscription is closed it is closed for good: no event reopens
/// it, and no further item is ever yielded — a read after close sees
/// end-of-sequence, not an error.
pub proof fn lemma_closed_is_terminal(event: SubscriptionEvent)
    ensures
        next_state(SubscriptionState::Closed, event) is Closed,
        !yields_item(SubscriptionState::Closed, event),
{
}

/// One delivery can never close a live subscription: however its payload
/// decodes, the item is yielded at its position and the subscription keeps
/// delivering. A single bad message degrades one item, not the stream.
pub proof fn lemma_delivery_keeps_subscription_alive(
    state: SubscriptionState,
    event: SubscriptionEvent,
)
    requires
        !(state is Closed),
        event is Delivery,
    ensures
        next_state(state, event) is Delivering,
        yields_item(state, event),
{
}

/// Dropping the caller-held handle cancels the subscription at once: the
/// drop event yields no item, closes the subscription, and — with the
/// closed state terminal — no later delivery is ever observable.
pub proof fn lemma_drop_cancels(state: SubscriptionState, event: SubscriptionEvent)
    ensures
        next_state(state, SubscriptionEvent::HandleDropped) is Closed,
        !yields_item(state, SubscriptionEvent::HandleDropped),
        !yields_item(next_state(state, SubscriptionEvent::HandleDropped), event),
{
}

} // verus!

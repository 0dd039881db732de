use openfmb_bus::{decode_delivery, delivery_item, prepare_publish, publishable_topic};
use openfmb_bus::{subscribe_subject, subscription_step};
use openfmb_bus::{DecodeError, EncodeError, Message, MessageEncoding, PublishError};
use openfmb_bus::{SubjectIter, SubscribeError, SubscriptionError, SubscriptionEvent};
use openfmb_bus::{SubscriptionState, Topic, TopicError, TopicLevel, TopicPath};

struct TestEncoding;

impl MessageEncoding for TestEncoding {}

/// Encodes as exactly one byte; decoding anything else fails.
#[derive(Debug, PartialEq)]
struct Probe {
    value: u8,
}

impl Message<TestEncoding> for Probe {
    fn encode(&self, buf: &mut Vec<u8>) -> Result<(), EncodeError> {
        buf.push(self.value);
        Ok(())
    }

    fn decode(_topic: SubjectIter, payload: &[u8]) -> Result<Probe, DecodeError> {
        if payload.len() == 1 {
            Ok(Probe { value: payload[0] })
        } else {
            Err(DecodeError {
                detail: "expected exactly one byte".to_string(),
            })
        }
    }
}

/// Refuses to encode at all.
struct Unencodable;

impl Message<TestEncoding> for Unencodable {
    fn encode(&self, _buf: &mut Vec<u8>) -> Result<(), EncodeError> {
        Err(EncodeError {
            detail: "refused".to_string(),
        })
    }

    fn decode(_topic: SubjectIter, _payload: &[u8]) -> Result<Unencodable, DecodeError> {
        Err(DecodeError {
            detail: "never decodes".to_string(),
        })
    }
}

fn exact(token: &str) -> TopicLevel {
    TopicLevel::Exact(token.to_string())
}

#[test]
fn prepare_publish_produces_subject_and_bytes() {
    let topic = TopicPath::new(vec![exact("meter"), exact("reading")], false);
    let (subject, payload) =
        prepare_publish::<TestEncoding, Probe, TopicPath>(&topic, &Probe { value: 7 }).unwrap();
    assert_eq!(subject, "meter.reading");
    assert_eq!(payload, vec![7]);
}

#[test]
fn encode_failure_reports_before_any_send() {
    let topic = TopicPath::new(vec![exact("meter")], false);
    let outcome = prepare_publish::<TestEncoding, Unencodable, TopicPath>(&topic, &Unencodable);
    assert!(matches!(outcome, Err(PublishError::EncodeError(_))));
}

#[test]
fn publish_rejects_wildcard_topic() {
    let topic = TopicPath::new(vec![exact("meter"), TopicLevel::WildCard], false);
    let outcome = prepare_publish::<TestEncoding, Probe, TopicPath>(&topic, &Probe { value: 1 });
    assert!(matches!(
        outcome,
        Err(PublishError::TopicError(TopicError::WildcardInPublish))
    ));
}

#[test]
fn publish_rejects_remainder_topic() {
    let topic = TopicPath::new(vec![exact("meter")], true);
    let outcome = prepare_publish::<TestEncoding, Probe, TopicPath>(&topic, &Probe { value: 1 });
    assert!(matches!(
        outcome,
        Err(PublishError::TopicError(TopicError::RemainderInPublish))
    ));
}

#[test]
fn publish_rejects_malformed_topic() {
    let topic = TopicPath::new(vec![], false);
    let outcome = prepare_publish::<TestEncoding, Probe, TopicPath>(&topic, &Probe { value: 1 });
    assert!(matches!(
        outcome,
        Err(PublishError::TopicError(TopicError::EmptyTopic))
    ));
}

#[test]
fn publishable_topic_checks_wildcards_and_remainder() {
    assert!(publishable_topic(&TopicPath::new(vec![exact("a")], false)));
    assert!(!publishable_topic(&TopicPath::new(vec![exact("a")], true)));
    assert!(!publishable_topic(&TopicPath::new(
        vec![TopicLevel::WildCard],
        false
    )));
}

#[test]
fn subscribe_subject_keeps_wildcards_and_remainder() {
    let topic = TopicPath::new(vec![exact("breaker"), TopicLevel::WildCard], true);
    assert_eq!(subscribe_subject(&topic).unwrap(), "breaker.*.>");
}

#[test]
fn subscribe_subject_rejects_malformed_topic() {
    let topic = TopicPath::new(vec![exact("")], false);
    let outcome = subscribe_subject(&topic);
    assert!(matches!(
        outcome,
        Err(SubscribeError::TopicError(TopicError::EmptyToken))
    ));
}

#[test]
fn decode_delivery_hands_topic_and_payload_through() {
    let decoded = decode_delivery::<TestEncoding, Probe>("meter.reading", &[9]).unwrap();
    assert_eq!(decoded, Probe { value: 9 });
}

#[test]
fn decode_delivery_reports_bad_payload_in_place() {
    let outcome = decode_delivery::<TestEncoding, Probe>("meter.reading", &[]);
    assert!(matches!(
        outcome,
        Err(SubscriptionError::DecodeError(_))
    ));
}

#[test]
fn delivery_item_wraps_both_outcomes() {
    let ok = delivery_item::<TestEncoding, Probe>(Ok(Probe { value: 3 }));
    assert_eq!(ok.unwrap(), Probe { value: 3 });
    let err = delivery_item::<TestEncoding, Probe>(Err(DecodeError {
        detail: "bad".to_string(),
    }));
    assert!(matches!(err, Err(SubscriptionError::DecodeError(_))));
}

#[test]
fn bad_delivery_does_not_kill_subscription() {
    let malformed = SubscriptionEvent::Delivery("meter.reading".to_string(), vec![]);
    let (state, item) =
        subscription_step::<TestEncoding, Probe>(SubscriptionState::Registered, malformed);
    assert_eq!(state, SubscriptionState::Delivering);
    assert!(matches!(item, Some(Err(SubscriptionError::DecodeError(_)))));

    let valid = SubscriptionEvent::Delivery("meter.reading".to_string(), vec![5]);
    let (state, item) = subscription_step::<TestEncoding, Probe>(state, valid);
    assert_eq!(state, SubscriptionState::Delivering);
    assert_eq!(item.unwrap().unwrap(), Probe { value: 5 });
}

#[test]
fn dropped_handle_yields_nothing_further() {
    let (state, item) = subscription_step::<TestEncoding, Probe>(
        SubscriptionState::Delivering,
        SubscriptionEvent::HandleDropped,
    );
    assert_eq!(state, SubscriptionState::Closed);
    assert!(item.is_none());

    let late = SubscriptionEvent::Delivery("meter.reading".to_string(), vec![5]);
    let (state, item) = subscription_step::<TestEncoding, Probe>(state, late);
    assert_eq!(state, SubscriptionState::Closed);
    assert!(item.is_none());
}

#[test]
fn connection_close_is_terminal() {
    let (state, item) = subscription_step::<TestEncoding, Probe>(
        SubscriptionState::Registered,
        SubscriptionEvent::ConnectionClosed,
    );
    assert_eq!(state, SubscriptionState::Closed);
    assert!(item.is_none());
}

/// Decodes to the delivery topic itself, to observe what the adapter hands
/// the decoder.
struct TopicEcho {
    levels: Vec<TopicLevel>,
    prefix: bool,
}

impl Message<TestEncoding> for TopicEcho {
    fn encode(&self, _buf: &mut Vec<u8>) -> Result<(), EncodeError> {
        Ok(())
    }

    fn decode(topic: SubjectIter, _payload: &[u8]) -> Result<TopicEcho, DecodeError> {
        Ok(TopicEcho {
            prefix: topic.prefix_match(),
            levels: topic.collect_levels(),
        })
    }
}

#[test]
fn decode_sees_the_delivery_topic() {
    let echoed = decode_delivery::<TestEncoding, TopicEcho>("ess.status", &[]).unwrap();
    assert_eq!(echoed.levels, vec![exact("ess"), exact("status")]);
    assert_eq!(echoed.prefix, false);
}

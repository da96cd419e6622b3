use splatoon3_ghost_drawer::event_stream::{EventEnvelope, EventMetadata, EventStream, EventStreamError};
use splatoon3_ghost_drawer::events::ArtworkEvent;
use splatoon3_ghost_drawer::ids::{ArtworkId, EventId};
use splatoon3_ghost_drawer::shared::Timestamp;

#[test]
fn test_event_metadata() {
    let metadata = EventMetadata::new("test-source".to_string())
        .with_correlation_id("corr-123".to_string())
        .with_user_id("user-456".to_string())
        .add_property("key1".to_string(), "value1".to_string());

    assert_eq!(metadata.source, "test-source");
    assert_eq!(metadata.correlation_id, Some("corr-123".to_string()));
    assert_eq!(metadata.user_id, Some("user-456".to_string()));
    assert_eq!(metadata.get_property("key1"), Some(&"value1".to_string()));
}

#[test]
fn test_event_stream() {
    let stream = EventStream::new("agg-123".to_string(), "TestAggregate".to_string());
    assert!(stream.is_empty());
    assert_eq!(stream.version, 0);

    let stats = stream.statistics();
    assert_eq!(stats.total_events, 0);
    assert_eq!(stats.current_version, 0);
}

fn envelope(kind: &str, aggregate: &str, version: u32, at: u64) -> EventEnvelope {
    EventEnvelope {
        event_id: EventId::generate(),
        event_type: kind.to_string(),
        aggregate_id: aggregate.to_string(),
        aggregate_type: "TestAggregate".to_string(),
        version,
        occurred_at: Timestamp::from_millis(at),
        data: serde_json::Value::Null,
        metadata: EventMetadata::default(),
    }
}

#[test]
fn test_event_envelope_age() {
    let envelope = EventEnvelope {
        event_id: EventId::generate(),
        event_type: "TestEvent".to_string(),
        aggregate_id: "agg-123".to_string(),
        aggregate_type: "TestAggregate".to_string(),
        version: 1,
        occurred_at: Timestamp::now(),
        data: serde_json::Value::Null,
        metadata: EventMetadata::default(),
    };

    assert!(!envelope.is_older_than(1000));
    assert!(envelope.age_millis() < 100);
}

#[test]
fn properties_overwrite_and_miss() {
    let m = EventMetadata::new("s".to_string())
        .add_property("a".to_string(), "1".to_string())
        .add_property("b".to_string(), "2".to_string())
        .add_property("a".to_string(), "3".to_string());
    assert_eq!(m.custom_properties.len(), 2);
    assert_eq!(m.get_property("a"), Some(&"3".to_string()));
    assert_eq!(m.get_property("b"), Some(&"2".to_string()));
    assert_eq!(m.get_property("c"), None);
    let c = m.clone();
    assert_eq!(c.get_property("a"), Some(&"3".to_string()));
}

#[test]
fn stream_appends_in_order_and_refuses_mismatches() {
    let mut s = EventStream::new("agg".to_string(), "T".to_string());
    assert!(s.append_event(envelope("A", "agg", 1, 10)).is_ok());
    assert!(s.append_event(envelope("B", "agg", 2, 20)).is_ok());
    match s.append_event(envelope("A", "agg", 5, 30)) {
        Err(EventStreamError::VersionMismatch { expected, actual }) => {
            assert_eq!(expected, 3);
            assert_eq!(actual, 5);
        }
        _ => panic!("expected a version mismatch"),
    }
    match s.append_event(envelope("A", "other", 3, 30)) {
        Err(e @ EventStreamError::AggregateIdMismatch { .. }) => {
            assert_eq!(e.display_string(), "Aggregate ID mismatch: expected agg, got other");
        }
        _ => panic!("expected an aggregate mismatch"),
    }
    assert!(s.append_event(envelope("A", "agg", 3, 30)).is_ok());
    assert_eq!(s.event_count(), 3);
    assert_eq!(s.version, 3);
    assert_eq!(s.latest_event().unwrap().event_type, "A");
    let since: Vec<u32> = s.events_since_version(1).iter().map(|e| e.version).collect();
    assert_eq!(since, vec![2, 3]);
    assert_eq!(s.events_of_type("A").len(), 2);
    let in_range: Vec<u32> = s.events_in_range(Timestamp::from_millis(15), Timestamp::from_millis(30)).iter().map(|e| e.version).collect();
    assert_eq!(in_range, vec![2, 3]);
    let stats = s.statistics();
    assert_eq!(stats.total_events, 3);
    assert_eq!(stats.unique_event_types, 2);
    assert_eq!(stats.first_event_at, Some(Timestamp::from_millis(10)));
    assert_eq!(stats.last_event_at, Some(Timestamp::from_millis(30)));
    assert_eq!(
        EventStreamError::VersionMismatch { expected: 3, actual: 5 }.display_string(),
        "Version mismatch: expected 3, got 5"
    );
}

#[test]
fn envelope_from_event_copies_its_identity() {
    let id = ArtworkId::generate();
    let event = ArtworkEvent::painting_started(id, 12, 60, 4, EventMetadata::new("src".to_string()));
    let env = EventEnvelope::new(&event, "Artwork".to_string(), serde_json::Value::Bool(true));
    assert_eq!(env.event_type, "PaintingStarted");
    assert_eq!(env.aggregate_id, id.as_str());
    assert_eq!(env.version, 4);
    assert_eq!(env.metadata.source, "src");
    assert_eq!(env.data, serde_json::Value::Bool(true));
    assert!(env.is_older_than_at(5, env.occurred_at.epoch_millis + 6));
    assert!(!env.is_older_than_at(5, env.occurred_at.epoch_millis + 5));
}

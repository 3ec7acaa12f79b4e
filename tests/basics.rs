use eda_core::telemetry::EventCounter;
use eda_core::{calculate_backoff, get_kafka_config, route_event, should_retry};

#[test]
fn test_default_config() {
    let config = get_kafka_config();
    assert_eq!(config.broker, "localhost:9092");
    assert_eq!(config.topic, "events");
    assert_eq!(config.group, "poc");
}

#[test]
fn test_retry_noop() {
    assert_eq!(should_retry("some error", 1), false);
    assert_eq!(should_retry("another error", 5), false);
}

#[test]
fn test_backoff_noop() {
    assert_eq!(calculate_backoff(1), 0);
    assert_eq!(calculate_backoff(10), 0);
}

#[test]
fn test_routing_noop() {
    assert_eq!(route_event("user.created"), 0);
    assert_eq!(route_event("order.placed"), 0);
}

#[test]
fn test_event_counting() {
    let mut counter = EventCounter::new();
    let before = counter.get_event_count();
    counter.record_event_received("test.event");
    let after = counter.get_event_count();
    assert!(after > before);
}

#[test]
fn processed_events_count_and_retries_do_not() {
    let mut counter = EventCounter::new();
    counter.record_event_received("a");
    counter.record_event_processed("a", true, 12);
    counter.record_retry_attempt(1, 0);
    assert_eq!(counter.get_event_count(), 2);
}

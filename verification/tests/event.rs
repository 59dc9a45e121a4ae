use std::sync::Arc;

use devdash::event::{Event, EventBus};

#[derive(Debug, Clone)]
struct SystemMetrics {
    cpu_usage: f32,
    memory_used: u64,
    memory_total: u64,
}

#[test]
fn test_topic_matching() {
    assert!(EventBus::topic_matches("system.cpu", "system.cpu"));
    assert!(EventBus::topic_matches("system.cpu", "system.*"));
    assert!(EventBus::topic_matches("system.cpu.usage", "system.*"));
    assert!(!EventBus::topic_matches("git.branch", "system.*"));
    assert!(EventBus::topic_matches("any.thing.here", "*"));
}

#[test]
fn test_pubsub() {
    let mut bus = EventBus::new();
    let (_sub, rx) = bus.subscribe("system.*".to_string());

    let metrics = SystemMetrics {
        cpu_usage: 50.0,
        memory_used: 1024,
        memory_total: 2048,
    };

    bus.publish(Event::new("system.metrics".to_string(), metrics.clone()));

    let event = rx.recv().unwrap();
    assert_eq!(event.topic, "system.metrics");

    let received: Arc<SystemMetrics> = event.payload.downcast().unwrap();
    assert_eq!(received.cpu_usage, 50.0);
    assert_eq!(received.memory_used, 1024);
    assert_eq!(received.memory_total, 2048);
}

#[test]
fn test_unsubscribe() {
    let mut bus = EventBus::new();
    let (sub, rx) = bus.subscribe("test".to_string());

    bus.publish(Event::new("test".to_string(), 42));
    assert!(rx.recv().is_ok());

    bus.unsubscribe(sub);

    bus.publish(Event::new("test".to_string(), 43));
    assert!(rx.recv().is_err());
}

#[test]
fn test_bare_wildcard_matches_everything() {
    assert!(EventBus::topic_matches("system", "*"));
    assert!(EventBus::topic_matches("system.cpu", "*"));
}

#[test]
fn test_final_wildcard_needs_a_segment_to_cover() {
    assert!(!EventBus::topic_matches("system", "system.*"));
    assert!(EventBus::topic_matches("system.x", "system.*"));
}

#[test]
fn test_longer_pattern_never_matches() {
    assert!(!EventBus::topic_matches("system.cpu", "system.cpu.usage"));
}

#[test]
fn test_mid_pattern_wildcard_skips_one_segment() {
    // A wildcard before the end matches exactly one topic segment — the
    // documented quirk of the matcher.
    assert!(EventBus::topic_matches("a.b.c", "a.*.c"));
    assert!(!EventBus::topic_matches("a.b.b.c", "a.*.c"));
}

#[test]
fn test_publish_reaches_only_matching_subscribers() {
    let mut bus = EventBus::new();
    let (_sub_sys, rx_sys) = bus.subscribe("system.*".to_string());
    let (_sub_git, rx_git) = bus.subscribe("git.branch".to_string());

    bus.publish(Event::new("system.disk.io".to_string(), 7_u64));

    let got = rx_sys.recv().unwrap();
    assert_eq!(got.topic, "system.disk.io");
    assert!(rx_git.try_recv().is_err());
}

#[test]
fn test_delivery_order_matches_publish_order() {
    let mut bus = EventBus::new();
    let (_sub, rx) = bus.subscribe("seq".to_string());
    bus.publish(Event::new("seq".to_string(), 1_u32));
    bus.publish(Event::new("seq".to_string(), 2_u32));
    bus.publish(Event::new("seq".to_string(), 3_u32));
    let a: Arc<u32> = rx.recv().unwrap().payload.downcast().unwrap();
    let b: Arc<u32> = rx.recv().unwrap().payload.downcast().unwrap();
    let c: Arc<u32> = rx.recv().unwrap().payload.downcast().unwrap();
    assert_eq!((*a, *b, *c), (1, 2, 3));
}

#[test]
fn test_downcast_to_the_wrong_type_is_none() {
    let mut bus = EventBus::new();
    let (_sub, rx) = bus.subscribe("typed".to_string());
    bus.publish(Event::new("typed".to_string(), 5_u32));
    let event = rx.recv().unwrap();
    assert!(event.payload.downcast::<String>().is_none());
    assert!(event.payload.downcast::<u32>().is_some());
}

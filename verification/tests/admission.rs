use stats_ingest::admission::{cost_of, AdmissionBuffer, AdmissionPolicy, Backpressure, EVENT_BASE_COST};
use stats_ingest::event::{NewEvent, Timestamp};

fn event(id: &str, url: &str) -> NewEvent {
    NewEvent {
        id: id.to_string(),
        url: url.to_string(),
        referrer: None,
        name: "visit".to_string(),
        timestamp: Timestamp { secs: 1_700_000_000, nanos: 0 },
        collector_id: "c1".to_string(),
    }
}

#[test]
fn count_policy_admits_up_to_capacity() {
    let mut buffer = AdmissionBuffer::new(3, AdmissionPolicy::Count);
    assert!(buffer.is_empty());
    assert_eq!(buffer.submit(event("a", "u")), Ok(()));
    assert_eq!(buffer.submit(event("b", "u")), Ok(()));
    assert_eq!(buffer.submit(event("c", "u")), Ok(()));
    assert_eq!(buffer.len(), 3);
    assert_eq!(buffer.occupancy(), 3);
    assert_eq!(buffer.capacity(), 3);
    assert!(buffer.is_full());
}

#[test]
fn full_buffer_answers_with_backpressure() {
    let mut buffer = AdmissionBuffer::new(2, AdmissionPolicy::Count);
    assert_eq!(buffer.submit(event("a", "u")), Ok(()));
    assert_eq!(buffer.submit(event("b", "u")), Ok(()));
    assert_eq!(buffer.submit(event("c", "u")), Err(Backpressure));
    assert_eq!(buffer.submit(event("d", "u")), Err(Backpressure));
    assert_eq!(buffer.len(), 2);
    assert_eq!(buffer.occupancy(), 2);
}

#[test]
fn zero_capacity_refuses_everything() {
    let mut buffer = AdmissionBuffer::new(0, AdmissionPolicy::Count);
    assert!(buffer.is_full());
    assert_eq!(buffer.submit(event("a", "u")), Err(Backpressure));
    assert!(buffer.is_empty());
}

#[test]
fn take_returns_events_in_submission_order() {
    let mut buffer = AdmissionBuffer::new(10, AdmissionPolicy::Count);
    for id in ["a", "b", "c"] {
        assert_eq!(buffer.submit(event(id, "u")), Ok(()));
    }
    assert_eq!(buffer.take().map(|e| e.id), Some("a".to_string()));
    assert_eq!(buffer.take().map(|e| e.id), Some("b".to_string()));
    assert_eq!(buffer.take().map(|e| e.id), Some("c".to_string()));
    assert!(buffer.take().is_none());
    assert_eq!(buffer.occupancy(), 0);
}

#[test]
fn taking_an_event_makes_room_again() {
    let mut buffer = AdmissionBuffer::new(1, AdmissionPolicy::Count);
    assert_eq!(buffer.submit(event("a", "u")), Ok(()));
    assert_eq!(buffer.submit(event("b", "u")), Err(Backpressure));
    assert_eq!(buffer.take().map(|e| e.id), Some("a".to_string()));
    assert_eq!(buffer.submit(event("c", "u")), Ok(()));
    assert_eq!(buffer.take().map(|e| e.id), Some("c".to_string()));
}

#[test]
fn byte_cost_is_base_plus_text_bytes() {
    let e = NewEvent {
        id: "0123456789".to_string(),
        url: "https://example.com".to_string(),
        referrer: Some("ref".to_string()),
        name: "visit".to_string(),
        timestamp: Timestamp { secs: 0, nanos: 0 },
        collector_id: "abcd".to_string(),
    };
    assert_eq!(EVENT_BASE_COST, 128);
    assert_eq!(cost_of(AdmissionPolicy::Bytes, &e), Some(128 + 10 + 19 + 3 + 5 + 4));
    assert_eq!(cost_of(AdmissionPolicy::Count, &e), Some(1));
}

#[test]
fn byte_cost_counts_utf8_bytes_not_characters() {
    let e = NewEvent {
        id: String::new(),
        url: "é".to_string(),
        referrer: None,
        name: "日本".to_string(),
        timestamp: Timestamp { secs: 0, nanos: 0 },
        collector_id: String::new(),
    };
    assert_eq!(cost_of(AdmissionPolicy::Bytes, &e), Some(128 + 2 + 6));
}

#[test]
fn byte_policy_refuses_what_does_not_fit() {
    // Each event costs 128 + 1 + 1 + 5 + 2 = 137 bytes.
    let mut buffer = AdmissionBuffer::new(300, AdmissionPolicy::Bytes);
    assert_eq!(buffer.policy(), AdmissionPolicy::Bytes);
    assert_eq!(buffer.submit(event("a", "u")), Ok(()));
    assert_eq!(buffer.occupancy(), 137);
    assert_eq!(buffer.submit(event("b", "u")), Ok(()));
    assert_eq!(buffer.occupancy(), 274);
    assert!(!buffer.is_full());
    assert_eq!(buffer.submit(event("c", "u")), Err(Backpressure));
    assert_eq!(buffer.occupancy(), 274);
    assert_eq!(buffer.len(), 2);
    assert!(buffer.take().is_some());
    assert_eq!(buffer.occupancy(), 137);
    assert_eq!(buffer.submit(event("c", "u")), Ok(()));
}

#[test]
fn byte_policy_admits_an_exact_fit() {
    let mut buffer = AdmissionBuffer::new(137, AdmissionPolicy::Bytes);
    assert_eq!(buffer.submit(event("a", "u")), Ok(()));
    assert!(buffer.is_full());
    assert_eq!(buffer.submit(event("b", "u")), Err(Backpressure));
}

use stats_ingest::admission::{AdmissionBuffer, AdmissionPolicy, Backpressure};
use stats_ingest::event::{NewEvent, Timestamp};
use stats_ingest::pipeline::{drain, flush_all, flush_due, IngestSettings};
use stats_ingest::scheduler::BatchScheduler;
use stats_ingest::sink::{PersistenceSink, RetryPolicy, SinkError, SinkOutcome};

fn numbered(id: String) -> NewEvent {
    NewEvent {
        id,
        url: "https://example.com".to_string(),
        referrer: None,
        name: "visit".to_string(),
        timestamp: Timestamp { secs: 1_700_000_000, nanos: 0 },
        collector_id: "c1".to_string(),
    }
}

/// Writes every waiting batch to a healthy store and returns the stored ids.
fn write_all(sink: &mut PersistenceSink) -> Vec<String> {
    let mut stored = Vec::new();
    while sink.begin_write() {
        let rows = sink.in_flight().expect("a write is under way").len();
        match sink.on_result(Ok(rows)) {
            SinkOutcome::Committed { batch, rows } => {
                assert_eq!(rows, batch.len());
                stored.extend(batch.events.into_iter().map(|e| e.id));
            }
            other => panic!("unexpected outcome {:?}", other),
        }
    }
    stored
}

#[test]
fn no_event_is_lost_under_capacity() {
    let n = 25;
    let mut buffer = AdmissionBuffer::new(n, AdmissionPolicy::Count);
    let mut scheduler = BatchScheduler::new(10, 5_000, 0);
    let mut sink = PersistenceSink::new(RetryPolicy::conservative());
    let submitted: Vec<String> = (0..n).map(|i| format!("e{}", i)).collect();
    for id in &submitted {
        assert_eq!(buffer.submit(numbered(id.clone())), Ok(()));
    }
    assert_eq!(drain(&mut buffer, &mut scheduler, &mut sink, 100), n);
    assert!(buffer.is_empty());
    assert_eq!(sink.backlog(), 2);
    assert_eq!(scheduler.pending_len(), 5);
    assert!(!flush_due(&mut scheduler, &mut sink, 4_000));
    assert!(flush_due(&mut scheduler, &mut sink, 5_100));
    assert_eq!(sink.backlog(), 3);
    assert_eq!(scheduler.pending_len(), 0);
    assert_eq!(write_all(&mut sink), submitted);
}

#[test]
fn drain_of_an_empty_buffer_moves_nothing() {
    let mut buffer = AdmissionBuffer::new(4, AdmissionPolicy::Count);
    let mut scheduler = BatchScheduler::new(2, 5_000, 0);
    let mut sink = PersistenceSink::new(RetryPolicy::conservative());
    assert_eq!(drain(&mut buffer, &mut scheduler, &mut sink, 1), 0);
    assert_eq!(sink.backlog(), 0);
    assert_eq!(scheduler.pending_len(), 0);
    assert!(!flush_due(&mut scheduler, &mut sink, 10_000));
    assert_eq!(sink.backlog(), 0);
}

#[test]
fn interleaved_producers_preserve_count_and_own_order() {
    let producers = 4;
    let each = 6;
    let mut buffer = AdmissionBuffer::new(producers * each, AdmissionPolicy::Count);
    let mut scheduler = BatchScheduler::new(5, 5_000, 0);
    let mut sink = PersistenceSink::new(RetryPolicy::conservative());
    let mut stored = Vec::new();
    // Round-robin interleaving, with the consumer running in between.
    for round in 0..each {
        for p in 0..producers {
            assert_eq!(buffer.submit(numbered(format!("p{}-{}", p, round))), Ok(()));
        }
        drain(&mut buffer, &mut scheduler, &mut sink, round as u64);
        stored.extend(write_all(&mut sink));
    }
    flush_due(&mut scheduler, &mut sink, 10_000);
    stored.extend(write_all(&mut sink));
    assert_eq!(stored.len(), producers * each);
    let mut unique = stored.clone();
    unique.sort();
    unique.dedup();
    assert_eq!(unique.len(), producers * each);
    for p in 0..producers {
        let prefix = format!("p{}-", p);
        let own: Vec<String> = stored.iter().filter(|id| id.starts_with(&prefix)).cloned().collect();
        let expected: Vec<String> = (0..each).map(|r| format!("p{}-{}", p, r)).collect();
        assert_eq!(own, expected);
    }
}

#[test]
fn rejected_events_never_reach_storage() {
    let mut buffer = AdmissionBuffer::new(2, AdmissionPolicy::Count);
    let mut scheduler = BatchScheduler::new(10, 1_000, 0);
    let mut sink = PersistenceSink::new(RetryPolicy::conservative());
    assert_eq!(buffer.submit(numbered("a".to_string())), Ok(()));
    assert_eq!(buffer.submit(numbered("b".to_string())), Ok(()));
    assert_eq!(buffer.submit(numbered("c".to_string())), Err(Backpressure));
    drain(&mut buffer, &mut scheduler, &mut sink, 1);
    assert_eq!(buffer.submit(numbered("d".to_string())), Ok(()));
    drain(&mut buffer, &mut scheduler, &mut sink, 2);
    assert!(flush_due(&mut scheduler, &mut sink, 1_000));
    assert_eq!(write_all(&mut sink), vec!["a", "b", "d"]);
}

#[test]
fn dropped_batch_does_not_return_to_the_buffer() {
    let mut buffer = AdmissionBuffer::new(4, AdmissionPolicy::Count);
    let mut scheduler = BatchScheduler::new(2, 1_000, 0);
    let mut sink = PersistenceSink::new(RetryPolicy { max_attempts: 2, base_backoff_ms: 10 });
    for id in ["a", "b", "c", "d"] {
        assert_eq!(buffer.submit(numbered(id.to_string())), Ok(()));
    }
    drain(&mut buffer, &mut scheduler, &mut sink, 1);
    assert_eq!(sink.backlog(), 2);
    assert!(sink.begin_write());
    assert!(matches!(
        sink.on_result(Err(SinkError::StorageUnavailable)),
        SinkOutcome::Retry { delay_ms: 10 }
    ));
    sink.backoff_elapsed();
    assert!(sink.begin_write());
    assert!(matches!(
        sink.on_result(Err(SinkError::StorageUnavailable)),
        SinkOutcome::Dropped { .. }
    ));
    assert!(buffer.is_empty());
    assert_eq!(scheduler.pending_len(), 0);
    assert_eq!(write_all(&mut sink), vec!["c", "d"]);
}

#[test]
fn flush_all_empties_buffer_and_scheduler() {
    let mut buffer = AdmissionBuffer::new(10, AdmissionPolicy::Count);
    let mut scheduler = BatchScheduler::new(3, 60_000, 0);
    let mut sink = PersistenceSink::new(RetryPolicy::conservative());
    assert_eq!(buffer.submit(numbered("a".to_string())), Ok(()));
    drain(&mut buffer, &mut scheduler, &mut sink, 1);
    for id in ["b", "c", "d", "e"] {
        assert_eq!(buffer.submit(numbered(id.to_string())), Ok(()));
    }
    assert_eq!(flush_all(&mut buffer, &mut scheduler, &mut sink, 2), 4);
    assert!(buffer.is_empty());
    assert_eq!(scheduler.pending_len(), 0);
    assert_eq!(sink.backlog(), 2);
    assert_eq!(write_all(&mut sink), vec!["a", "b", "c", "d", "e"]);
    assert_eq!(flush_all(&mut buffer, &mut scheduler, &mut sink, 3), 0);
    assert_eq!(sink.backlog(), 0);
}

#[test]
fn default_settings_are_the_documented_ones() {
    let settings = IngestSettings::default();
    assert_eq!(settings.capacity, 500);
    assert_eq!(settings.policy, AdmissionPolicy::Count);
    assert_eq!(settings.batch_size, 100);
    assert_eq!(settings.window_ms, 5_000);
    assert_eq!(settings.retry, RetryPolicy::conservative());
}

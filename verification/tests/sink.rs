use stats_ingest::event::{NewEvent, Timestamp};
use stats_ingest::scheduler::Batch;
use stats_ingest::sink::{PersistenceSink, RetryPolicy, SinkError, SinkOutcome, SinkPhase};

fn batch_of(ids: &[&str]) -> Batch {
    Batch {
        events: ids
            .iter()
            .map(|id| NewEvent {
                id: id.to_string(),
                url: "https://example.com".to_string(),
                referrer: None,
                name: "visit".to_string(),
                timestamp: Timestamp { secs: 1_700_000_000, nanos: 0 },
                collector_id: "c1".to_string(),
            })
            .collect(),
    }
}

fn batch_ids(batch: &Batch) -> Vec<String> {
    batch.events.iter().map(|e| e.id.clone()).collect()
}

#[test]
fn conservative_policy_is_three_attempts_from_100_ms() {
    let policy = RetryPolicy::conservative();
    assert_eq!(policy.max_attempts, 3);
    assert_eq!(policy.base_backoff_ms, 100);
}

#[test]
fn backoff_doubles_with_every_failure() {
    let policy = RetryPolicy { max_attempts: 10, base_backoff_ms: 100 };
    assert_eq!(policy.delay_ms(0), 100);
    assert_eq!(policy.delay_ms(1), 100);
    assert_eq!(policy.delay_ms(2), 200);
    assert_eq!(policy.delay_ms(3), 400);
    assert_eq!(policy.delay_ms(4), 800);
    assert_eq!(policy.delay_ms(11), 102_400);
}

#[test]
fn backoff_is_capped_when_doubling_overflows() {
    let policy = RetryPolicy { max_attempts: 200, base_backoff_ms: 1 << 62 };
    assert_eq!(policy.delay_ms(1), 1 << 62);
    assert_eq!(policy.delay_ms(2), 1 << 63);
    assert_eq!(policy.delay_ms(3), u64::MAX);
    assert_eq!(policy.delay_ms(100), u64::MAX);
    let zero = RetryPolicy { max_attempts: 3, base_backoff_ms: 0 };
    assert_eq!(zero.delay_ms(70), 0);
}

#[test]
fn write_starts_only_with_a_batch_in_line() {
    let mut sink = PersistenceSink::new(RetryPolicy::conservative());
    assert_eq!(sink.phase(), SinkPhase::Idle);
    assert!(!sink.begin_write());
    assert!(sink.in_flight().is_none());
    assert!(sink.next_batch().is_none());
    sink.enqueue(batch_of(&["a"]));
    assert!(sink.in_flight().is_none());
    assert!(sink.begin_write());
    assert_eq!(sink.phase(), SinkPhase::Writing);
    assert_eq!(sink.in_flight().map(batch_ids), Some(vec!["a".to_string()]));
}

#[test]
fn no_second_write_starts_while_one_is_under_way() {
    let mut sink = PersistenceSink::new(RetryPolicy::conservative());
    sink.enqueue(batch_of(&["a"]));
    sink.enqueue(batch_of(&["b"]));
    assert!(sink.begin_write());
    assert!(!sink.begin_write());
    assert!(!sink.begin_write());
    assert_eq!(sink.in_flight().map(batch_ids), Some(vec!["a".to_string()]));
    assert!(matches!(sink.on_result(Ok(1)), SinkOutcome::Committed { rows: 1, .. }));
    assert_eq!(sink.phase(), SinkPhase::Idle);
    assert!(sink.begin_write());
    assert_eq!(sink.in_flight().map(batch_ids), Some(vec!["b".to_string()]));
}

#[test]
fn no_write_starts_while_a_backoff_is_pending() {
    let mut sink = PersistenceSink::new(RetryPolicy::conservative());
    sink.enqueue(batch_of(&["a"]));
    assert!(sink.begin_write());
    assert!(matches!(
        sink.on_result(Err(SinkError::StorageUnavailable)),
        SinkOutcome::Retry { delay_ms: 100 }
    ));
    assert_eq!(sink.phase(), SinkPhase::Waiting);
    assert!(!sink.begin_write());
    assert!(sink.in_flight().is_none());
    sink.backoff_elapsed();
    assert_eq!(sink.phase(), SinkPhase::Idle);
    assert!(sink.begin_write());
    assert_eq!(sink.in_flight().map(batch_ids), Some(vec!["a".to_string()]));
}

#[test]
fn backoff_elapsed_changes_nothing_unless_a_backoff_is_pending() {
    let mut sink = PersistenceSink::new(RetryPolicy::conservative());
    sink.backoff_elapsed();
    assert_eq!(sink.phase(), SinkPhase::Idle);
    sink.enqueue(batch_of(&["a"]));
    assert!(sink.begin_write());
    sink.backoff_elapsed();
    assert_eq!(sink.phase(), SinkPhase::Writing);
}

#[test]
fn success_commits_the_head_batch() {
    let mut sink = PersistenceSink::new(RetryPolicy::conservative());
    sink.enqueue(batch_of(&["a", "b"]));
    assert_eq!(sink.next_batch().map(batch_ids), Some(vec!["a".to_string(), "b".to_string()]));
    assert!(sink.begin_write());
    match sink.on_result(Ok(2)) {
        SinkOutcome::Committed { batch, rows } => {
            assert_eq!(batch_ids(&batch), vec!["a", "b"]);
            assert_eq!(rows, 2);
        }
        other => panic!("unexpected outcome {:?}", other),
    }
    assert_eq!(sink.backlog(), 0);
    assert_eq!(sink.failures(), 0);
}

#[test]
fn unavailable_storage_is_retried_then_the_batch_is_dropped() {
    let mut sink = PersistenceSink::new(RetryPolicy::conservative());
    sink.enqueue(batch_of(&["a"]));
    sink.enqueue(batch_of(&["b"]));
    assert!(sink.begin_write());
    match sink.on_result(Err(SinkError::StorageUnavailable)) {
        SinkOutcome::Retry { delay_ms } => assert_eq!(delay_ms, 100),
        other => panic!("unexpected outcome {:?}", other),
    }
    assert_eq!(sink.failures(), 1);
    assert_eq!(sink.backlog(), 2);
    sink.backoff_elapsed();
    assert!(sink.begin_write());
    match sink.on_result(Err(SinkError::StorageUnavailable)) {
        SinkOutcome::Retry { delay_ms } => assert_eq!(delay_ms, 200),
        other => panic!("unexpected outcome {:?}", other),
    }
    assert_eq!(sink.failures(), 2);
    sink.backoff_elapsed();
    assert!(sink.begin_write());
    match sink.on_result(Err(SinkError::StorageUnavailable)) {
        SinkOutcome::Dropped { batch, error } => {
            assert_eq!(batch_ids(&batch), vec!["a"]);
            assert_eq!(error, SinkError::StorageWriteFailed);
        }
        other => panic!("unexpected outcome {:?}", other),
    }
    assert_eq!(sink.failures(), 0);
    assert_eq!(sink.backlog(), 1);
    assert_eq!(sink.phase(), SinkPhase::Idle);
    assert_eq!(sink.next_batch().map(batch_ids), Some(vec!["b".to_string()]));
}

#[test]
fn retry_that_succeeds_commits_the_whole_batch() {
    let mut sink = PersistenceSink::new(RetryPolicy::conservative());
    sink.enqueue(batch_of(&["a", "b", "c"]));
    assert!(sink.begin_write());
    assert!(matches!(
        sink.on_result(Err(SinkError::StorageUnavailable)),
        SinkOutcome::Retry { delay_ms: 100 }
    ));
    sink.backoff_elapsed();
    assert!(sink.begin_write());
    match sink.on_result(Ok(3)) {
        SinkOutcome::Committed { batch, rows } => {
            assert_eq!(batch_ids(&batch), vec!["a", "b", "c"]);
            assert_eq!(rows, 3);
        }
        other => panic!("unexpected outcome {:?}", other),
    }
    assert_eq!(sink.failures(), 0);
}

#[test]
fn failed_write_drops_the_batch_at_once() {
    let mut sink = PersistenceSink::new(RetryPolicy::conservative());
    sink.enqueue(batch_of(&["a"]));
    assert!(sink.begin_write());
    match sink.on_result(Err(SinkError::StorageWriteFailed)) {
        SinkOutcome::Dropped { batch, error } => {
            assert_eq!(batch_ids(&batch), vec!["a"]);
            assert_eq!(error, SinkError::StorageWriteFailed);
        }
        other => panic!("unexpected outcome {:?}", other),
    }
    assert_eq!(sink.backlog(), 0);
}

#[test]
fn single_attempt_policies_never_retry() {
    for max_attempts in [0u32, 1] {
        let mut sink = PersistenceSink::new(RetryPolicy { max_attempts, base_backoff_ms: 50 });
        assert_eq!(sink.policy().max_attempts, max_attempts);
        sink.enqueue(batch_of(&["a"]));
        assert!(sink.begin_write());
        assert!(matches!(
            sink.on_result(Err(SinkError::StorageUnavailable)),
            SinkOutcome::Dropped { .. }
        ));
        assert_eq!(sink.backlog(), 0);
    }
}

#[test]
fn result_without_a_write_under_way_changes_nothing() {
    let mut sink = PersistenceSink::new(RetryPolicy::conservative());
    assert!(matches!(sink.on_result(Ok(5)), SinkOutcome::Nothing));
    assert!(matches!(sink.on_result(Err(SinkError::StorageUnavailable)), SinkOutcome::Nothing));
    assert_eq!(sink.backlog(), 0);
    assert_eq!(sink.failures(), 0);
    sink.enqueue(batch_of(&["a"]));
    assert!(matches!(sink.on_result(Ok(1)), SinkOutcome::Nothing));
    assert!(matches!(sink.on_result(Err(SinkError::StorageWriteFailed)), SinkOutcome::Nothing));
    assert_eq!(sink.backlog(), 1);
    assert!(sink.begin_write());
    assert!(matches!(sink.on_result(Ok(1)), SinkOutcome::Committed { .. }));
    assert!(matches!(sink.on_result(Ok(1)), SinkOutcome::Nothing));
}

#[test]
fn batches_are_committed_in_the_order_they_were_detached() {
    let mut sink = PersistenceSink::new(RetryPolicy::conservative());
    sink.enqueue(batch_of(&["a", "b"]));
    sink.enqueue(batch_of(&["c"]));
    sink.enqueue(batch_of(&["d", "e"]));
    let mut written = Vec::new();
    while sink.begin_write() {
        let rows = sink.in_flight().expect("a write is under way").len();
        match sink.on_result(Ok(rows)) {
            SinkOutcome::Committed { batch, .. } => written.push(batch_ids(&batch)),
            other => panic!("unexpected outcome {:?}", other),
        }
    }
    assert_eq!(written, vec![vec!["a", "b"], vec!["c"], vec!["d", "e"]]);
}

use liminal_english_core::{
    BatchStatus, DeviceContext, EventBatch, EventType, Store, TelemetryError, TelemetryEvent,
    TelemetryStats,
};

fn event_at(id: &str, ts: i64) -> TelemetryEvent {
    TelemetryEvent::at(id.to_string(), EventType::StepComplete, ts, DeviceContext::default())
}

fn ids(events: &[TelemetryEvent]) -> Vec<String> {
    events.iter().map(|e| e.id.clone()).collect()
}

#[test]
fn test_telemetry_event_save_load() {
    let mut store = Store::new();
    let context = DeviceContext::default();
    let event = TelemetryEvent::new(EventType::SessionStart, context)
        .with_property(
            "test_key".to_string(),
            serde_json::Value::String("test_value".to_string()),
        )
        .with_session("session-123".to_string())
        .with_user("user-456".to_string());

    store.add_telemetry_event(&event).unwrap();

    let pending = store.get_pending_events(10);
    assert_eq!(pending.len(), 1);
    assert_eq!(pending[0].event_type, EventType::SessionStart);
    assert_eq!(pending[0].session_id, Some("session-123".to_string()));
    assert_eq!(pending[0].user_id, Some("user-456".to_string()));
}

#[test]
fn test_telemetry_batch_workflow() {
    let mut store = Store::new();
    let context = DeviceContext::default();

    for i in 0..3 {
        let event = TelemetryEvent::new(EventType::ScenarioStart, context.clone()).with_property(
            "scenario_id".to_string(),
            serde_json::Value::String(format!("scenario-{}", i)),
        );
        store.add_telemetry_event(&event).unwrap();
    }

    let pending = store.get_pending_events(10);
    assert_eq!(pending.len(), 3);

    let batch = EventBatch::new(pending);
    store.save_batch(&batch).unwrap();

    let pending = store.get_pending_events(10);
    assert_eq!(pending.len(), 0);

    store.mark_batch_sent(&batch.batch_id).unwrap();

    let stats = store.get_telemetry_stats();
    assert_eq!(stats.pending_events, 0);
    assert_eq!(stats.batched_events, 3);
    assert_eq!(stats.total_batches, 1);
    assert_eq!(stats.sent_batches, 1);
}

#[test]
fn test_telemetry_stats() {
    let mut store = Store::new();
    let context = DeviceContext::default();

    let mut events = Vec::new();
    for i in 0..5 {
        let event = TelemetryEvent::new(EventType::StepComplete, context.clone())
            .with_property("step_index".to_string(), serde_json::Value::from(i));
        store.add_telemetry_event(&event).unwrap();
        events.push(event);
    }

    let stats = store.get_telemetry_stats();
    assert_eq!(stats.pending_events, 5);
    assert_eq!(stats.batched_events, 0);

    let batch = EventBatch::new(events[0..3].to_vec());
    store.save_batch(&batch).unwrap();

    let stats = store.get_telemetry_stats();
    assert_eq!(stats.pending_events, 2);
    assert_eq!(stats.batched_events, 3);
    assert_eq!(stats.total_batches, 1);
}

#[test]
fn test_telemetry_cleanup() {
    let mut store = Store::new();
    let context = DeviceContext::default();

    let mut events = Vec::new();
    for _ in 0..3 {
        let event = TelemetryEvent::new(EventType::PhraseReviewed, context.clone());
        store.add_telemetry_event(&event).unwrap();
        events.push(event);
    }

    let batch = EventBatch::new(events);
    store.save_batch(&batch).unwrap();
    store.mark_batch_sent(&batch.batch_id).unwrap();

    let deleted = store.cleanup_old_telemetry(0);
    assert_eq!(deleted, 3);

    let stats = store.get_telemetry_stats();
    assert_eq!(stats.batched_events, 0);
}

#[test]
fn five_events_batched_then_counted() {
    let mut store = Store::new();
    let mut added = Vec::new();
    for (i, ts) in [50, 10, 40, 20, 30].iter().enumerate() {
        let e = event_at(&format!("e{}", i), *ts);
        store.add_telemetry_event(&e).unwrap();
        added.push(e);
    }
    let pending = store.get_pending_events(10);
    let times: Vec<i64> = pending.iter().map(|e| e.timestamp).collect();
    assert_eq!(times, vec![10, 20, 30, 40, 50]);
    let mut got = ids(&pending);
    got.sort();
    let mut want = ids(&added);
    want.sort();
    assert_eq!(got, want);

    let batch = store.create_batch(pending).unwrap();
    assert_eq!(batch.events.len(), 5);
    assert_eq!(store.get_pending_events(10).len(), 0);
    assert_eq!(
        store.get_telemetry_stats(),
        TelemetryStats { pending_events: 0, batched_events: 5, total_batches: 1, sent_batches: 0 }
    );
}

#[test]
fn sent_batch_is_swept_with_its_events() {
    let mut store = Store::new();
    let events: Vec<TelemetryEvent> = (0..3).map(|i| event_at(&format!("e{}", i), i)).collect();
    for e in &events {
        store.add_telemetry_event(e).unwrap();
    }
    let batch = store.create_batch_at(events, "b1".to_string(), 5).unwrap();
    store.mark_batch_sent_at(&batch.batch_id, 6).unwrap();
    assert_eq!(store.cleanup_older_than(0, 100), 3);
    let stats = store.get_telemetry_stats();
    assert_eq!(stats.pending_events, 0);
    assert_eq!(stats.batched_events, 0);
    assert_eq!(stats.total_batches, 0);
}

#[test]
fn unsent_batch_is_never_swept() {
    let mut store = Store::new();
    let events: Vec<TelemetryEvent> = (0..2).map(|i| event_at(&format!("e{}", i), i)).collect();
    for e in &events {
        store.add_telemetry_event(e).unwrap();
    }
    store.create_batch_at(events, "b1".to_string(), 5).unwrap();
    assert_eq!(store.cleanup_older_than(0, i64::MAX), 0);
    assert_eq!(store.cleanup_old_telemetry(0), 0);
    assert_eq!(store.get_pending_events(10).len(), 0);
    let stats = store.get_telemetry_stats();
    assert_eq!(stats.batched_events, 2);
    assert_eq!(stats.total_batches, 1);
    let rows = store.rows();
    assert!(rows.iter().all(|r| r.batch_id == Some("b1".to_string())));
}

#[test]
fn empty_batch_is_refused() {
    let mut store = Store::new();
    assert_eq!(store.create_batch(Vec::new()).unwrap_err(), TelemetryError::State);
    assert_eq!(store.get_telemetry_stats().total_batches, 0);
}

#[test]
fn marking_an_unknown_batch_is_not_found() {
    let mut store = Store::new();
    assert_eq!(store.mark_batch_sent("unknown-id"), Err(TelemetryError::NotFound));
}

#[test]
fn mark_sent_twice_keeps_first_time() {
    let mut store = Store::new();
    let e = event_at("e", 1);
    store.add_telemetry_event(&e).unwrap();
    store.create_batch_at(vec![e], "b".to_string(), 2).unwrap();
    assert_eq!(store.mark_batch_sent_at("b", 100), Ok(()));
    assert_eq!(store.mark_batch_sent_at("b", 200), Ok(()));
    let b = &store.batch_rows()[0];
    assert_eq!(b.status, BatchStatus::Sent);
    assert_eq!(b.sent_at, Some(100));
    assert_eq!(store.get_telemetry_stats().sent_batches, 1);
}

#[test]
fn rebatching_an_event_is_a_state_error() {
    let mut store = Store::new();
    let a = event_at("a", 1);
    let b = event_at("b", 2);
    store.add_telemetry_event(&a).unwrap();
    store.add_telemetry_event(&b).unwrap();
    store.create_batch_at(vec![a.clone()], "b1".to_string(), 3).unwrap();
    assert_eq!(
        store.create_batch_at(vec![b.clone(), a.clone()], "b2".to_string(), 4).unwrap_err(),
        TelemetryError::State
    );
    // Nothing changed: b is still pending, one batch.
    assert_eq!(ids(&store.get_pending_events(10)), vec!["b".to_string()]);
    assert_eq!(store.get_telemetry_stats().total_batches, 1);
}

#[test]
fn naming_an_event_twice_is_a_state_error() {
    let mut store = Store::new();
    let a = event_at("a", 1);
    store.add_telemetry_event(&a).unwrap();
    assert_eq!(
        store.create_batch_at(vec![a.clone(), a.clone()], "b".to_string(), 3).unwrap_err(),
        TelemetryError::State
    );
    assert_eq!(store.get_pending_events(10).len(), 1);
}

#[test]
fn batching_an_unstored_event_is_not_found() {
    let mut store = Store::new();
    let a = event_at("a", 1);
    store.add_telemetry_event(&a).unwrap();
    let stranger = event_at("x", 1);
    assert_eq!(
        store.create_batch_at(vec![a, stranger], "b".to_string(), 3).unwrap_err(),
        TelemetryError::NotFound
    );
    assert_eq!(store.get_telemetry_stats().total_batches, 0);
}

#[test]
fn reusing_a_batch_id_is_a_storage_error() {
    let mut store = Store::new();
    let a = event_at("a", 1);
    let b = event_at("b", 1);
    store.add_telemetry_event(&a).unwrap();
    store.add_telemetry_event(&b).unwrap();
    store.create_batch_at(vec![a], "same".to_string(), 3).unwrap();
    assert_eq!(
        store.create_batch_at(vec![b], "same".to_string(), 4).unwrap_err(),
        TelemetryError::Storage
    );
}

#[test]
fn adding_a_duplicate_id_is_a_storage_error() {
    let mut store = Store::new();
    store.add_telemetry_event(&event_at("a", 1)).unwrap();
    assert_eq!(store.add_telemetry_event(&event_at("a", 2)), Err(TelemetryError::Storage));
    assert_eq!(store.get_telemetry_stats().pending_events, 1);
}

#[test]
fn pending_respects_limit_and_keeps_order_of_equal_times() {
    let mut store = Store::new();
    for (id, ts) in [("c", 5), ("a", 1), ("d", 5), ("b", 3)] {
        store.add_telemetry_event(&event_at(id, ts)).unwrap();
    }
    let all = ids(&store.get_pending_events(10));
    assert_eq!(all, vec!["a", "b", "c", "d"]);
    let first = ids(&store.get_pending_events(2));
    assert_eq!(first, vec!["a", "b"]);
    assert_eq!(store.get_pending_events(0).len(), 0);
    // Asking again gives the same answer.
    assert_eq!(ids(&store.get_pending_events(10)), all);
}

#[test]
fn counts_add_up_to_events_added_minus_swept() {
    let mut store = Store::new();
    let events: Vec<TelemetryEvent> = (0..6).map(|i| event_at(&format!("e{}", i), i)).collect();
    for e in &events {
        store.add_telemetry_event(e).unwrap();
    }
    store.create_batch_at(events[0..2].to_vec(), "old".to_string(), 10).unwrap();
    store.create_batch_at(events[2..4].to_vec(), "kept".to_string(), 10).unwrap();
    store.mark_batch_sent_at("old", 11).unwrap();
    let swept = store.cleanup_before(3);
    assert_eq!(swept, 2);
    let s = store.get_telemetry_stats();
    assert_eq!(s.pending_events + s.batched_events, 6 - swept);
    assert_eq!(s.pending_events, 2);
    // The sent batch was created at 10, which is not before 3: it stays.
    assert_eq!(s.total_batches, 2);
    assert_eq!(store.cleanup_before(11), 0);
    assert_eq!(store.get_telemetry_stats().total_batches, 1);
}

#[test]
fn cleanup_cutoff_is_days_before_now() {
    let mut store = Store::new();
    let day: i64 = 86_400_000_000_000;
    let a = event_at("a", 0);
    let b = event_at("b", 2 * day);
    store.add_telemetry_event(&a).unwrap();
    store.add_telemetry_event(&b).unwrap();
    store.create_batch_at(vec![a, b], "x".to_string(), 0).unwrap();
    store.mark_batch_sent_at("x", 1).unwrap();
    // Three days after the epoch, one day back: the cutoff is day two.
    assert_eq!(store.cleanup_older_than(1, 3 * day), 1);
    assert_eq!(store.get_telemetry_stats().batched_events, 1);
    assert_eq!(store.get_telemetry_stats().total_batches, 0);
    // The remaining event's batch is gone, having been sent: it can be swept.
    assert_eq!(store.cleanup_older_than(0, 3 * day), 1);
    // Extreme arguments saturate instead of overflowing.
    assert_eq!(store.cleanup_older_than(i64::MIN, i64::MAX), 0);
    assert_eq!(store.cleanup_older_than(i64::MAX, i64::MIN), 0);
}

#[test]
fn error_messages_are_not_empty() {
    for e in [TelemetryError::Storage, TelemetryError::NotFound, TelemetryError::State] {
        assert!(!e.message().is_empty());
    }
}

#[test]
fn restore_refuses_a_listing_not_claimed_by_its_batch() {
    let e = event_at("e", 0);
    let events = vec![liminal_english_core::StoredEvent { event: e, batch_id: Some("x".to_string()) }];
    let batches = vec![liminal_english_core::BatchRecord {
        batch_id: "p".to_string(),
        created_at: 0,
        sent_at: None,
        size_bytes: 2,
        event_ids: vec!["e".to_string()],
        status: BatchStatus::Pending,
    }];
    assert_eq!(Store::restore(events, batches).err(), Some(TelemetryError::Storage));
}

#[test]
fn restore_accepts_rows_written_by_a_store() {
    let mut store = Store::new();
    let a = event_at("a", 1);
    store.add_telemetry_event(&a).unwrap();
    store.create_batch_at(vec![a], "p".to_string(), 2).unwrap();
    let again = Store::restore(store.rows().clone(), store.batch_rows().clone()).unwrap();
    assert_eq!(again.get_telemetry_stats(), store.get_telemetry_stats());
    // The pending batch keeps its event through any sweep.
    let mut again = again;
    assert_eq!(again.cleanup_before(i64::MAX), 0);
    assert_eq!(again.rows().len(), 1);
}

#[test]
fn an_id_still_listed_by_a_batch_cannot_be_added_again() {
    let mut store = Store::new();
    let a = event_at("a", 1);
    store.add_telemetry_event(&a).unwrap();
    store.create_batch_at(vec![a.clone()], "b".to_string(), 100).unwrap();
    store.mark_batch_sent_at("b", 101).unwrap();
    // The event is old, the batch is not: only the event is swept.
    assert_eq!(store.cleanup_before(50), 1);
    assert_eq!(store.get_telemetry_stats().total_batches, 1);
    assert_eq!(store.add_telemetry_event(&a), Err(TelemetryError::Storage));
}

#[test]
fn mark_sent_on_the_clock_twice_keeps_first_time() {
    let mut store = Store::new();
    let e = event_at("e", 1);
    store.add_telemetry_event(&e).unwrap();
    store.create_batch_at(vec![e], "b".to_string(), 2).unwrap();
    store.mark_batch_sent("b").unwrap();
    let first = store.batch_rows()[0].sent_at;
    assert!(first.is_some());
    store.mark_batch_sent("b").unwrap();
    assert_eq!(store.batch_rows()[0].sent_at, first);
}

use liminal_english_core::encoding::int_to_text;
use liminal_english_core::telemetry::APP_VERSION;
use liminal_english_core::{DeviceContext, EventBatch, EventType, TelemetryConfig, TelemetryEvent};

#[test]
fn test_create_event() {
    let context = DeviceContext::default();
    let event = TelemetryEvent::new(EventType::SessionStart, context)
        .with_property(
            "test_key".to_string(),
            serde_json::Value::String("test_value".to_string()),
        )
        .with_session("session-123".to_string())
        .with_user("user-456".to_string());

    assert_eq!(event.event_type, EventType::SessionStart);
    assert_eq!(event.session_id, Some("session-123".to_string()));
    assert_eq!(event.user_id, Some("user-456".to_string()));
    let stored: Option<serde_json::Value> = event
        .property("test_key")
        .map(|text| serde_json::from_str(&text).unwrap());
    assert_eq!(stored, Some(serde_json::Value::String("test_value".to_string())));
}

#[test]
fn test_event_batch() {
    let context = DeviceContext::default();
    let events = vec![
        TelemetryEvent::new(EventType::SessionStart, context.clone()),
        TelemetryEvent::new(EventType::ScenarioStart, context.clone()),
    ];

    let batch = EventBatch::new(events);
    assert_eq!(batch.events.len(), 2);
    assert!(batch.size_bytes > 0);
}

#[test]
fn test_batch_ready_to_send() {
    let context = DeviceContext::default();
    let events = vec![TelemetryEvent::new(EventType::SessionStart, context)];

    let batch = EventBatch::new(events);

    assert!(!batch.is_ready_to_send(3600, 100_000));
    assert!(batch.is_ready_to_send(0, 100_000));
}

fn fixed_event() -> TelemetryEvent {
    TelemetryEvent::at(
        "e-1".to_string(),
        EventType::ScreenView,
        -1_500,
        DeviceContext::default(),
    )
}

#[test]
fn device_context_defaults() {
    let c = DeviceContext::default();
    assert_eq!(c.app_version, APP_VERSION);
    assert_eq!(c.platform, "unknown");
    assert_eq!(c.os_version, None);
    assert_eq!(c.device_model, None);
    assert_eq!(c.locale, "en-US");
}

#[test]
fn telemetry_config_defaults() {
    let c = TelemetryConfig::default();
    assert!(c.enabled);
    assert_eq!(c.batch_size, 50);
    assert_eq!(c.batch_max_age_seconds, 3600);
    assert_eq!(c.batch_max_size_bytes, 100_000);
    assert!(c.wifi_only);
    assert_eq!(c.endpoint, None);
}

#[test]
fn event_type_names_are_snake_case() {
    assert_eq!(EventType::SessionStart.name(), "session_start");
    assert_eq!(EventType::PhraseMarkedWild.name(), "phrase_marked_wild");
    assert_eq!(EventType::CrashReport.name(), "crash_report");
}

#[test]
fn new_events_get_distinct_uuid_ids() {
    let a = TelemetryEvent::new(EventType::SessionStart, DeviceContext::default());
    let b = TelemetryEvent::new(EventType::SessionStart, DeviceContext::default());
    assert_eq!(a.id.len(), 36);
    assert_ne!(a.id, b.id);
}

#[test]
fn setting_a_property_twice_keeps_one_entry() {
    let e = fixed_event()
        .with_property_json("k".to_string(), "1".to_string())
        .with_property_json("other".to_string(), "true".to_string())
        .with_property_json("k".to_string(), "2".to_string());
    assert_eq!(
        e.properties,
        vec![
            ("k".to_string(), "2".to_string()),
            ("other".to_string(), "true".to_string())
        ]
    );
    assert_eq!(e.property("k"), Some("2".to_string()));
    assert_eq!(e.property("missing"), None);
}

#[test]
fn property_values_are_stored_as_json_text() {
    let e = fixed_event().with_property("n".to_string(), serde_json::Value::from(7));
    assert_eq!(e.property("n"), Some("7".to_string()));
}

#[test]
fn batch_size_is_the_length_of_the_json_text() {
    let e = fixed_event()
        .with_session("s\"1".to_string())
        .with_property_json("k".to_string(), "1".to_string());
    let expected = "[{\"id\":\"e-1\",\"event_type\":\"screen_view\",\"timestamp\":-1500,\
\"session_id\":\"s\\\"1\",\"user_id\":null,\"properties\":{\"k\":1},\
\"context\":{\"app_version\":\"0.1.0\",\"platform\":\"unknown\",\
\"os_version\":null,\"device_model\":null,\"locale\":\"en-US\"}}]";
    let events = vec![e];
    assert_eq!(liminal_english_core::telemetry::batch_text(&events), expected);
    let batch = EventBatch::assemble("b-1".to_string(), events, 10);
    assert_eq!(batch.size_bytes, expected.len());
    assert_eq!(batch.batch_id, "b-1");
    assert_eq!(batch.created_at, 10);
}

#[test]
fn empty_batch_text_is_an_empty_array() {
    assert_eq!(liminal_english_core::telemetry::batch_text(&Vec::new()), "[]");
    let batch = EventBatch::assemble("b".to_string(), Vec::new(), 0);
    assert_eq!(batch.size_bytes, 2);
}

#[test]
fn size_counts_utf8_bytes() {
    let e = TelemetryEvent::at(
        "é".to_string(),
        EventType::Error,
        0,
        DeviceContext::default(),
    );
    let text = liminal_english_core::telemetry::batch_text(&vec![e.clone()]);
    let batch = EventBatch::assemble("b".to_string(), vec![e], 0);
    assert_eq!(batch.size_bytes, text.len());
    assert!(text.len() > text.chars().count());
}

#[test]
fn readiness_by_age_and_by_size() {
    let batch = EventBatch::assemble("b".to_string(), vec![fixed_event()], 0);
    // 1.5 s old: one whole second.
    assert!(batch.is_ready_at(1_500_000_000, 1, usize::MAX));
    assert!(!batch.is_ready_at(1_500_000_000, 2, usize::MAX));
    assert!(batch.is_ready_at(0, 1, batch.size_bytes));
    assert!(!batch.is_ready_at(0, 1, batch.size_bytes + 1));
    // A clock behind the creation time rounds toward zero.
    assert!(batch.is_ready_at(-1_500_000_000, -1, usize::MAX));
    assert!(!batch.is_ready_at(-1_500_000_000, 0, usize::MAX));
}

#[test]
fn decimal_text_of_integers() {
    assert_eq!(int_to_text(0), "0");
    assert_eq!(int_to_text(1234567890), "1234567890");
    assert_eq!(int_to_text(-42), "-42");
    assert_eq!(int_to_text(i64::MIN), "-9223372036854775808");
    assert_eq!(int_to_text(i64::MAX), "9223372036854775807");
}

#[test]
fn control_characters_are_escaped_in_batch_text() {
    let e = TelemetryEvent::at(
        "a\tb\u{1}\\".to_string(),
        EventType::Error,
        0,
        DeviceContext::default(),
    );
    let text = liminal_english_core::telemetry::batch_text(&vec![e]);
    assert!(text.starts_with("[{\"id\":\"a\\tb\\u0001\\\\\",\"event_type\""));
}

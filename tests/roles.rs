use liminal_english_core::roles::{is_composed_tone, tone_color_hex, tone_wave_amplitude};
use liminal_english_core::{EventType, Reflection, ResonanceTrace};

#[test]
fn test_resonance_trace() {
    let mut trace = ResonanceTrace::new(
        "trace-1".to_string(),
        "qa-engineer".to_string(),
        "scene-1".to_string(),
        "First interview done!".to_string(),
    );

    trace.add_reflection(Reflection::new("trace-1".to_string(), "Great job!".to_string()));
    trace.add_reflection(Reflection::new("trace-1".to_string(), "Keep going!".to_string()));

    assert_eq!(trace.social_echo_score(), 2);
    assert_eq!(trace.reflections.len(), 2);
}

#[test]
fn trace_at_fixed_time() {
    let t = ResonanceTrace::at("t".to_string(), "r".to_string(), "s".to_string(), "m".to_string(), 7);
    assert_eq!(t.created_at, 7);
    assert_eq!(t.social_echo_score(), 0);
    let r = Reflection::at("t".to_string(), "hi".to_string(), 9);
    assert_eq!(r.created_at, 9);
    assert_eq!(r.message, "hi");
}

#[test]
fn tone_feedback() {
    assert_eq!(tone_color_hex("Calm"), "#7ED321");
    assert_eq!(tone_color_hex("Clear"), "#7ED321");
    assert_eq!(tone_color_hex("Rushed"), "#F5A623");
    assert_eq!(tone_color_hex("Happy"), "#4A90E2");
    assert_eq!(tone_wave_amplitude("Calm"), 3);
    assert_eq!(tone_wave_amplitude("Confident"), 5);
    assert_eq!(tone_wave_amplitude("Energetic"), 8);
    assert_eq!(tone_wave_amplitude("Nervous"), 4);
    assert!(is_composed_tone("Confident"));
    assert!(!is_composed_tone("Nervous"));
}

#[test]
fn event_type_names_round_trip() {
    for t in [EventType::SessionStart, EventType::VoicePractice, EventType::Error] {
        assert_eq!(EventType::from_name(t.name()), Some(t));
    }
    assert_eq!(EventType::from_name("SessionStart"), None);
}

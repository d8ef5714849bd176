use burnrate::events::{
    aggregate_events, collect_events, count_tool_calls, parse_jsonl_files, EventKind,
    JournalEvent, TokenUsage,
};
use burnrate::modelname::simplify_model;

fn event(kind: EventKind, ts: Option<i64>, model: &str, usage: Option<(u64, u64)>) -> JournalEvent {
    JournalEvent {
        kind,
        ts,
        model: String::from(model),
        usage: usage.map(|(input_tokens, output_tokens)| TokenUsage { input_tokens, output_tokens }),
    }
}

#[test]
fn aggregate_user_and_assistant_event() {
    let log = format!("{}{}{}{}", r#"{"type":"user","timestamp":"2024-05-01T10:00:00Z"}"#, "\n", r#"{"type":"assistant","timestamp":"2024-05-01T10:00:05Z","message":{"model":"opus-4","usage":{"input_tokens":100,"output_tokens":200}}}"#, "\n");
    let contents = vec![log.as_bytes().to_vec()];
    let (messages, _tool_calls, total_tokens, bucket) = parse_jsonl_files(&contents, None);
    assert_eq!(messages, 2);
    assert_eq!(total_tokens, 300);
    assert_eq!(bucket.get("Opus"), 300);
    assert_eq!(bucket.get("Sonnet"), 0);
}

#[test]
fn collect_then_aggregate_matches() {
    let log = format!("{}{}{}", r#"{"type":"user","timestamp":"2024-05-01T10:00:00Z"}"#, "\n", r#"{"type":"assistant","timestamp":"2024-05-01T10:00:05Z","message":{"model":"opus-4","usage":{"input_tokens":100,"output_tokens":200}}}"#);
    let contents = vec![log.as_bytes().to_vec()];
    let events = collect_events(&contents);
    assert_eq!(events.len(), 2);
    let (messages, total_tokens, bucket) = aggregate_events(&events, None);
    assert_eq!(messages, 2);
    assert_eq!(total_tokens, 300);
    assert_eq!(bucket.get("Opus"), 300);
}

#[test]
fn cutoff_excludes_earlier_includes_at_or_after() {
    let events = vec![
        event(EventKind::Assistant, Some(999), "opus-4", Some((10, 0))),
        event(EventKind::Assistant, Some(1000), "opus-4", Some((20, 0))),
        event(EventKind::Assistant, Some(1001), "opus-4", Some((40, 0))),
        event(EventKind::User, Some(500), "", None),
    ];
    let (messages, total_tokens, bucket) = aggregate_events(&events, Some(1000));
    assert_eq!(messages, 2);
    assert_eq!(total_tokens, 60);
    assert_eq!(bucket.get("Opus"), 60);
}

#[test]
fn cutoff_excludes_unparsable_timestamp() {
    let events = vec![
        event(EventKind::User, None, "", None),
        event(EventKind::User, Some(2000), "", None),
    ];
    let (windowed, _, _) = aggregate_events(&events, Some(1000));
    assert_eq!(windowed, 1);
    let (unwindowed, _, _) = aggregate_events(&events, None);
    assert_eq!(unwindowed, 2);
}

#[test]
fn timestamps_parse_through_real_clock_strings() {
    let log = format!("{}{}{}", r#"{"type":"assistant","timestamp":"2024-05-01T06:00:00Z","message":{"model":"opus-4","usage":{"input_tokens":1,"output_tokens":0}}}"#, "\n", r#"{"type":"assistant","timestamp":"2024-05-01T11:00:00Z","message":{"model":"opus-4","usage":{"input_tokens":2,"output_tokens":0}}}"#);
    let contents = vec![log.as_bytes().to_vec()];
    let cutoff = chrono::DateTime::parse_from_rfc3339("2024-05-01T07:00:00Z")
        .unwrap()
        .timestamp();
    let events = collect_events(&contents);
    let (_, tokens, _) = aggregate_events(&events, Some(cutoff));
    assert_eq!(tokens, 2);
}

#[test]
fn malformed_line_is_skipped_individually() {
    let log = format!("{}{}{}{}", "not json at all\n", r#"{"type":"user","timestamp":"2024-05-01T10:00:00Z"}"#, "\n", "[3, 4]\n");
    let contents = vec![log.as_bytes().to_vec()];
    let (messages, _, _, _) = parse_jsonl_files(&contents, None);
    assert_eq!(messages, 1);
}

#[test]
fn assistant_without_usage_counts_message_only() {
    let events = vec![event(EventKind::Assistant, Some(1), "opus-4", None)];
    let (messages, tokens, bucket) = aggregate_events(&events, None);
    assert_eq!(messages, 1);
    assert_eq!(tokens, 0);
    assert_eq!(bucket.get("Opus"), 0);
}

#[test]
fn other_events_do_not_count() {
    let events = vec![event(EventKind::Other, Some(1), "", None)];
    let (messages, tokens, _) = aggregate_events(&events, None);
    assert_eq!(messages, 0);
    assert_eq!(tokens, 0);
}

#[test]
fn token_sum_saturates_instead_of_wrapping() {
    let events = vec![
        event(EventKind::Assistant, Some(1), "m", Some((u64::MAX, 5))),
        event(EventKind::Assistant, Some(2), "m", Some((7, 0))),
    ];
    let (_, tokens, bucket) = aggregate_events(&events, None);
    assert_eq!(tokens, u64::MAX);
    assert_eq!(bucket.get("m"), u64::MAX);
}

#[test]
fn tool_marker_lines_are_counted() {
    let log = format!("{}{}{}{}{}{}", r#"{"type":"assistant","content":[{"type":"tool_use","name":"reader"}]}"#, "\n", r#"{"type": "tool_use"}"#, "\n", r#"{"type":"user"}"#, "\n");
    let contents = vec![log.as_bytes().to_vec()];
    assert_eq!(count_tool_calls(&contents), 2);
    let (_, tool_calls, _, _) = parse_jsonl_files(&contents, None);
    assert_eq!(tool_calls, 2);
}

#[test]
fn tool_markers_sum_over_files() {
    let a = String::from(r#"{"type":"tool_use"}"#).into_bytes();
    let b = String::from(r#"{"type": "tool_use"}"#).into_bytes();
    assert_eq!(count_tool_calls(&vec![a, b]), 2);
}

#[test]
fn simplify_model_buckets() {
    assert_eq!(simplify_model("opus-4").as_str(), "Opus");
    assert_eq!(simplify_model("sonnet-4-5").as_str(), "Sonnet");
    assert_eq!(simplify_model("haiku-3").as_str(), "Haiku");
    assert_eq!(simplify_model("").as_str(), "Unknown");
    assert_eq!(simplify_model("mystery-model").as_str(), "mystery-model");
}

#[test]
fn simplify_model_ignores_case() {
    assert_eq!(simplify_model("OPUS-4").as_str(), "Opus");
    assert_eq!(simplify_model("SONNET").as_str(), "Sonnet");
    assert_eq!(simplify_model("HaIkU").as_str(), "Haiku");
}

#[test]
fn simplify_model_priority_order() {
    assert_eq!(simplify_model("opus-sonnet-hybrid").as_str(), "Opus");
    assert_eq!(simplify_model("sonnet-haiku-hybrid").as_str(), "Sonnet");
}

#[test]
fn empty_input_aggregates_to_zero() {
    let (messages, tool_calls, total_tokens, bucket) = parse_jsonl_files(&vec![], None);
    assert_eq!(messages, 0);
    assert_eq!(tool_calls, 0);
    assert_eq!(total_tokens, 0);
    assert_eq!(bucket.get("Opus"), 0);
    let (m2, tc2, tt2, _) = parse_jsonl_files(&vec![], Some(123));
    assert_eq!((m2, tc2, tt2), (0, 0, 0));
}

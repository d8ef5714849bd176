use burnrate::scan::{parse_sessions_index, scan_sessions_for_date, SessionEntry, SessionsIndex};

fn entry(path: &str, created: &str, modified: &str, messages: u64) -> SessionEntry {
    SessionEntry {
        full_path: String::from(path),
        created: String::from(created),
        modified: String::from(modified),
        message_count: messages,
    }
}

#[test]
fn scan_includes_matching_paths() {
    let indexes = vec![
        SessionsIndex {
            entries: vec![
                entry("/a.jsonl", "2024-05-01T10:00:00Z", "2024-05-01T11:00:00Z", 3),
                entry("/b.jsonl", "2024-04-30T10:00:00Z", "2024-05-01T09:00:00Z", 2),
                entry("/c.jsonl", "2024-04-29T10:00:00Z", "2024-04-29T11:00:00Z", 1),
            ],
        },
        SessionsIndex {
            entries: vec![entry("/d.jsonl", "2024-05-01T00:00:01Z", "2024-05-01T00:00:02Z", 5)],
        },
    ];
    let (count, paths) = scan_sessions_for_date(&indexes, "2024-05-01");
    assert_eq!(count, 3);
    let got: Vec<&str> = paths.iter().map(|p| p.as_str()).collect();
    assert_eq!(got, vec!["/a.jsonl", "/b.jsonl", "/d.jsonl"]);
}

#[test]
fn scan_counts_entry_with_empty_path() {
    let indexes = vec![SessionsIndex {
        entries: vec![
            entry("", "2024-05-01T10:00:00Z", "2024-05-01T10:00:00Z", 1),
            entry("/kept.jsonl", "2024-05-01T10:00:00Z", "2024-05-01T10:00:00Z", 1),
        ],
    }];
    let (count, paths) = scan_sessions_for_date(&indexes, "2024-05-01");
    assert_eq!(count, 2);
    assert_eq!(paths.len(), 1);
    assert_eq!(paths[0].as_str(), "/kept.jsonl");
}

#[test]
fn scan_ignores_other_dates() {
    let indexes = vec![SessionsIndex {
        entries: vec![entry("/a.jsonl", "2024-04-30T23:59:59Z", "2024-04-30T23:59:59Z", 1)],
    }];
    let (count, paths) = scan_sessions_for_date(&indexes, "2024-05-01");
    assert_eq!(count, 0);
    assert!(paths.is_empty());
}

#[test]
fn scan_short_date_field_never_matches() {
    let indexes = vec![SessionsIndex {
        entries: vec![entry("/a.jsonl", "short", "also", 1)],
    }];
    let (count, paths) = scan_sessions_for_date(&indexes, "2024-05-01");
    assert_eq!(count, 0);
    assert!(paths.is_empty());
}

#[test]
fn parse_sessions_index_reads_fields() {
    let body = br#"{"entries":[{"fullPath":"/x.jsonl","created":"2024-05-01T10:00:00Z","modified":"2024-05-02T10:00:00Z","messageCount":7}]}"#;
    let idx = parse_sessions_index(body);
    assert_eq!(idx.entries.len(), 1);
    assert_eq!(idx.entries[0].full_path.as_str(), "/x.jsonl");
    assert_eq!(idx.entries[0].created.as_str(), "2024-05-01T10:00:00Z");
    assert_eq!(idx.entries[0].modified.as_str(), "2024-05-02T10:00:00Z");
    assert_eq!(idx.entries[0].message_count, 7);
}

#[test]
fn parse_sessions_index_malformed_yields_empty() {
    let idx = parse_sessions_index(b"this is not json");
    assert_eq!(idx.entries.len(), 0);
    let idx = parse_sessions_index(b"[1, 2, 3]");
    assert_eq!(idx.entries.len(), 0);
}

#[test]
fn parse_sessions_index_missing_fields_default() {
    let idx = parse_sessions_index(br#"{"entries":[{}]}"#);
    assert_eq!(idx.entries.len(), 1);
    assert_eq!(idx.entries[0].full_path.as_str(), "");
    assert_eq!(idx.entries[0].message_count, 0);
}

#[test]
fn parse_then_scan_round_trip() {
    let body = br#"{"entries":[{"fullPath":"/y.jsonl","created":"2024-05-03T08:00:00Z","modified":"2024-05-03T09:00:00Z","messageCount":2}]}"#;
    let indexes = vec![parse_sessions_index(body)];
    let (count, paths) = scan_sessions_for_date(&indexes, "2024-05-03");
    assert_eq!(count, 1);
    assert_eq!(paths[0].as_str(), "/y.jsonl");
}

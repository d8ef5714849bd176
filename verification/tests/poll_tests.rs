use burnrate::history::HistoryEntry;
use burnrate::poll::{
    apply_cycle, display_status, DisplayStatus, PollHealth, RemotePayload, FAILURE_THRESHOLD,
};
use burnrate::snapshot::{read_local_usage, LocalUsage, UsageData};
use chrono::Datelike;

fn local() -> LocalUsage {
    let day = chrono::NaiveDate::parse_from_str("2024-05-01", "%Y-%m-%d")
        .unwrap()
        .num_days_from_ce() as i64;
    let now = chrono::DateTime::parse_from_rfc3339("2024-05-01T12:00:00Z")
        .unwrap()
        .timestamp();
    read_local_usage("2024-05-01", day, now, &None, 0, 0, &vec![])
}

fn payload() -> RemotePayload {
    RemotePayload {
        session_percent: 37,
        session_reset_minutes: 150,
        weekly_all_percent: 62,
        weekly_sonnet_percent: 12,
        monthly_cost: 18,
        monthly_limit: 50,
        error: None,
    }
}

#[test]
fn failures_increment_by_one_per_silent_cycle() {
    let mut snap = UsageData::default();
    let mut health = PollHealth { consecutive_failures: 0 };
    let l = local();
    for expected in 1..=4u32 {
        let r = apply_cycle(&mut snap, &mut health, &l, &None, 1000);
        assert!(r.is_none());
        assert_eq!(health.consecutive_failures, expected);
    }
    assert_eq!(snap.last_updated, 0);
    assert!(!snap.web_connected);
}

#[test]
fn accepted_payload_resets_failures_and_updates() {
    let mut snap = UsageData::default();
    let mut health = PollHealth { consecutive_failures: 7 };
    let l = local();
    let r = apply_cycle(&mut snap, &mut health, &l, &Some(payload()), 5000);
    assert_eq!(health.consecutive_failures, 0);
    assert_eq!(snap.session_percent, 37);
    assert_eq!(snap.session_reset_minutes, 150);
    assert_eq!(snap.weekly_all_percent, 62);
    assert_eq!(snap.weekly_sonnet_percent, 12);
    assert_eq!(snap.monthly_cost, 18);
    assert_eq!(snap.monthly_limit, 50);
    assert!(snap.web_connected);
    assert_eq!(snap.last_updated, 5000);
    assert_eq!(
        r,
        Some(HistoryEntry {
            timestamp: 5000,
            session_percent: 37,
            weekly_all_percent: 62,
            weekly_sonnet_percent: 12,
        })
    );
}

#[test]
fn error_payload_counts_as_failure_and_changes_nothing_remote() {
    let mut snap = UsageData::default();
    let mut health = PollHealth { consecutive_failures: 1 };
    let l = local();
    let mut p = payload();
    p.error = Some(String::from("fetch failed"));
    let r = apply_cycle(&mut snap, &mut health, &l, &Some(p), 9000);
    assert!(r.is_none());
    assert_eq!(health.consecutive_failures, 2);
    assert_eq!(snap.session_percent, 0);
    assert!(!snap.web_connected);
    assert_eq!(snap.last_updated, 0);
}

#[test]
fn local_fields_refresh_even_on_failure() {
    let mut snap = UsageData::default();
    let mut health = PollHealth { consecutive_failures: 0 };
    let day = chrono::NaiveDate::parse_from_str("2024-05-01", "%Y-%m-%d")
        .unwrap()
        .num_days_from_ce() as i64;
    let now = chrono::DateTime::parse_from_rfc3339("2024-05-01T12:00:00Z")
        .unwrap()
        .timestamp();
    let log = format!("{}{}", r#"{"type":"user","timestamp":"2024-05-01T09:00:00Z"}"#, "\n");
    let l = read_local_usage("2024-05-01", day, now, &None, 0, 1, &vec![log.as_bytes().to_vec()]);
    apply_cycle(&mut snap, &mut health, &l, &None, 1234);
    assert_eq!(snap.today_messages, 1);
    assert_eq!(snap.today_sessions, 1);
    assert_eq!(snap.last_active_date.as_str(), "2024-05-01");
    assert_eq!(snap.last_updated, 0);
}

#[test]
fn status_demands_attention_exactly_from_the_threshold() {
    assert_eq!(FAILURE_THRESHOLD, 3);
    let s = |f: u32, connected: bool| display_status(&PollHealth { consecutive_failures: f }, connected);
    assert_eq!(s(0, false), DisplayStatus::Initializing);
    assert_eq!(s(0, true), DisplayStatus::Connected);
    assert_eq!(s(2, true), DisplayStatus::Connected);
    assert_eq!(s(2, false), DisplayStatus::Initializing);
    assert_eq!(s(3, true), DisplayStatus::ActionRequired);
    assert_eq!(s(3, false), DisplayStatus::ActionRequired);
    assert_eq!(s(100, true), DisplayStatus::ActionRequired);
}

#[test]
fn status_reverts_immediately_after_success() {
    let mut snap = UsageData::default();
    let mut health = PollHealth { consecutive_failures: 0 };
    let l = local();
    for _ in 0..3 {
        apply_cycle(&mut snap, &mut health, &l, &None, 100);
    }
    assert_eq!(
        display_status(&health, snap.web_connected),
        DisplayStatus::ActionRequired
    );
    apply_cycle(&mut snap, &mut health, &l, &Some(payload()), 200);
    assert_eq!(
        display_status(&health, snap.web_connected),
        DisplayStatus::Connected
    );
}

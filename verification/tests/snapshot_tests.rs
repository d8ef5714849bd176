use burnrate::cache::{DailyActivity, DailyModelTokens, StatsCache};
use burnrate::snapshot::{read_local_usage, usage_percent_of, UsageData, ESTIMATED_WINDOW_CAP};
use chrono::Datelike;

fn day_num(date: &str) -> i64 {
    chrono::NaiveDate::parse_from_str(date, "%Y-%m-%d")
        .unwrap()
        .num_days_from_ce() as i64
}

fn secs(ts: &str) -> i64 {
    chrono::DateTime::parse_from_rfc3339(ts).unwrap().timestamp()
}

#[test]
fn usage_percent_is_clamped() {
    assert_eq!(usage_percent_of(0), 0);
    assert_eq!(usage_percent_of(250_000), 25);
    assert_eq!(usage_percent_of(999_999), 99);
    assert_eq!(usage_percent_of(ESTIMATED_WINDOW_CAP), 100);
    assert_eq!(usage_percent_of(ESTIMATED_WINDOW_CAP * 50), 100);
    assert_eq!(usage_percent_of(u64::MAX), 100);
}

#[test]
fn default_snapshot_is_empty() {
    let u = UsageData::default();
    assert_eq!(u.today_messages, 0);
    assert_eq!(u.today_tokens, 0);
    assert_eq!(u.usage_percent, 0);
    assert_eq!(u.weekly_daily.len(), 7);
    assert!(u.weekly_daily.iter().all(|v| *v == 0));
    assert!(!u.web_connected);
    assert_eq!(u.last_updated, 0);
    assert_eq!(u.last_active_date.as_str(), "");
}

#[test]
fn cache_counts_win_when_cache_shows_messages() {
    let sc = StatsCache {
        daily_activity: vec![DailyActivity {
            date: String::from("2024-05-01"),
            day: Some(day_num("2024-05-01")),
            message_count: 5,
            session_count: 2,
            tool_call_count: 9,
        }],
        daily_model_tokens: vec![DailyModelTokens {
            date: String::from("2024-05-01"),
            day: Some(day_num("2024-05-01")),
            tokens_by_model: vec![(String::from("opus-4"), 123)],
        }],
    };
    let log = format!("{}{}", r#"{"type":"user","timestamp":"2024-05-01T09:00:00Z"}"#, "\n");
    let logs = vec![log.as_bytes().to_vec()];
    let r = read_local_usage(
        "2024-05-01",
        day_num("2024-05-01"),
        secs("2024-05-01T12:00:00Z"),
        &Some(sc),
        0,
        2,
        &logs,
    );
    assert_eq!(r.today_messages, 5);
    assert_eq!(r.today_tool_calls, 9);
    assert_eq!(r.today_tokens, 123);
    assert_eq!(r.opus_tokens, 123);
    assert_eq!(r.sonnet_tokens, 0);
    assert_eq!(r.today_sessions, 2);
    assert_eq!(r.last_active_date.as_str(), "2024-05-01");
    assert_eq!(r.weekly_daily.len(), 7);
    assert_eq!(r.weekly_daily[6], 123);
}

#[test]
fn logs_fill_in_when_cache_is_silent() {
    let log = format!("{}{}{}{}{}{}", r#"{"type":"user","timestamp":"2024-05-01T09:00:00Z"}"#, "\n", r#"{"type":"assistant","timestamp":"2024-05-01T09:00:05Z","message":{"model":"opus-4","usage":{"input_tokens":100,"output_tokens":200}}}"#, "\n", r#"{"type":"tool_use_free_line"}"#, "\n");
    let logs = vec![log.as_bytes().to_vec()];
    let r = read_local_usage(
        "2024-05-01",
        day_num("2024-05-01"),
        secs("2024-05-01T12:00:00Z"),
        &None,
        0,
        1,
        &logs,
    );
    assert_eq!(r.today_messages, 2);
    assert_eq!(r.today_tokens, 300);
    assert_eq!(r.opus_tokens, 300);
    assert_eq!(r.today_tool_calls, 0);
    assert!(r.weekly_daily.iter().all(|v| *v == 0));
}

#[test]
fn trailing_window_counts_only_recent_tokens() {
    let log = format!("{}{}{}{}", r#"{"type":"assistant","timestamp":"2024-05-01T04:00:00Z","message":{"model":"opus-4","usage":{"input_tokens":1000,"output_tokens":0}}}"#, "\n", r#"{"type":"assistant","timestamp":"2024-05-01T11:00:00Z","message":{"model":"opus-4","usage":{"input_tokens":40,"output_tokens":2}}}"#, "\n");
    let logs = vec![log.as_bytes().to_vec()];
    let r = read_local_usage(
        "2024-05-01",
        day_num("2024-05-01"),
        secs("2024-05-01T12:00:00Z"),
        &None,
        0,
        1,
        &logs,
    );
    assert_eq!(r.last5h_tokens, 42);
    assert_eq!(r.today_tokens, 1042);
    assert_eq!(r.usage_percent, 0);
}

#[test]
fn prior_day_reports_no_trailing_window() {
    let sc = StatsCache {
        daily_activity: vec![DailyActivity {
            date: String::from("2024-04-28"),
            day: Some(day_num("2024-04-28")),
            message_count: 4,
            session_count: 1,
            tool_call_count: 0,
        }],
        daily_model_tokens: vec![],
    };
    let log = format!("{}{}", r#"{"type":"assistant","timestamp":"2024-04-28T11:00:00Z","message":{"model":"opus-4","usage":{"input_tokens":5,"output_tokens":5}}}"#, "\n");
    let logs = vec![log.as_bytes().to_vec()];
    let r = read_local_usage(
        "2024-05-01",
        day_num("2024-05-01"),
        secs("2024-05-01T12:00:00Z"),
        &Some(sc),
        0,
        1,
        &logs,
    );
    assert_eq!(r.last_active_date.as_str(), "2024-04-28");
    assert_eq!(r.last5h_tokens, 0);
    assert_eq!(r.usage_percent, 0);
    assert_eq!(r.today_messages, 4);
}

#[test]
fn everything_missing_degrades_to_zero() {
    let r = read_local_usage(
        "2024-05-01",
        day_num("2024-05-01"),
        secs("2024-05-01T12:00:00Z"),
        &None,
        0,
        0,
        &vec![],
    );
    assert_eq!(r.today_messages, 0);
    assert_eq!(r.today_tokens, 0);
    assert_eq!(r.today_tool_calls, 0);
    assert_eq!(r.last5h_tokens, 0);
    assert_eq!(r.usage_percent, 0);
    assert_eq!(r.weekly_daily, vec![0, 0, 0, 0, 0, 0, 0]);
    assert_eq!(r.last_active_date.as_str(), "2024-05-01");
}

#[test]
fn todays_scan_keeps_today_active_when_cache_is_quiet() {
    let sc = StatsCache {
        daily_activity: vec![DailyActivity {
            date: String::from("2024-04-28"),
            day: Some(day_num("2024-04-28")),
            message_count: 4,
            session_count: 1,
            tool_call_count: 0,
        }],
        daily_model_tokens: vec![],
    };
    let log = format!("{}{}", r#"{"type":"user","timestamp":"2024-05-01T11:30:00Z"}"#, "\n");
    let logs = vec![log.as_bytes().to_vec()];
    let r = read_local_usage(
        "2024-05-01",
        day_num("2024-05-01"),
        secs("2024-05-01T12:00:00Z"),
        &Some(sc),
        1,
        1,
        &logs,
    );
    assert_eq!(r.last_active_date.as_str(), "2024-05-01");
    assert_eq!(r.today_messages, 1);
}

use burnrate::cache::{
    cache_day_tokens, parse_stats_cache, resolve_active_date, weekly_token_series, DailyActivity,
    DailyModelTokens, StatsCache,
};
use chrono::Datelike;

fn day_num(date: &str) -> i64 {
    chrono::NaiveDate::parse_from_str(date, "%Y-%m-%d")
        .unwrap()
        .num_days_from_ce() as i64
}

fn activity(date: &str, messages: u64) -> DailyActivity {
    DailyActivity {
        date: String::from(date),
        day: Some(day_num(date)),
        message_count: messages,
        session_count: 0,
        tool_call_count: 0,
    }
}

fn tokens(date: &str, by_model: Vec<(&str, u64)>) -> DailyModelTokens {
    DailyModelTokens {
        date: String::from(date),
        day: Some(day_num(date)),
        tokens_by_model: by_model
            .into_iter()
            .map(|(m, c)| (String::from(m), c))
            .collect(),
    }
}

#[test]
fn parse_prefers_camel_case_when_non_empty() {
    let body = br#"{
        "dailyActivity": [{"date":"2024-05-01","messageCount":4,"sessionCount":1,"toolCallCount":2}],
        "daily_activity": [{"date":"2024-04-01","messageCount":9}]
    }"#;
    let sc = parse_stats_cache(body).unwrap();
    assert_eq!(sc.daily_activity.len(), 1);
    assert_eq!(sc.daily_activity[0].date.as_str(), "2024-05-01");
    assert_eq!(sc.daily_activity[0].message_count, 4);
    assert_eq!(sc.daily_activity[0].tool_call_count, 2);
}

#[test]
fn parse_falls_back_to_snake_case() {
    let body = br#"{
        "dailyActivity": [],
        "daily_activity": [{"date":"2024-04-01","messageCount":9}]
    }"#;
    let sc = parse_stats_cache(body).unwrap();
    assert_eq!(sc.daily_activity.len(), 1);
    assert_eq!(sc.daily_activity[0].message_count, 9);
}

#[test]
fn parse_reads_model_tokens() {
    let body = br#"{
        "dailyModelTokens": [{"date":"2024-05-01","tokensByModel":{"opus-4":100,"sonnet-4":50}}]
    }"#;
    let sc = parse_stats_cache(body).unwrap();
    assert_eq!(sc.daily_model_tokens.len(), 1);
    let t = &sc.daily_model_tokens[0];
    assert_eq!(t.date.as_str(), "2024-05-01");
    assert_eq!(t.day, Some(day_num("2024-05-01")));
    let total: u64 = t.tokens_by_model.iter().map(|p| p.1).sum();
    assert_eq!(total, 150);
}

#[test]
fn parse_malformed_cache_is_none() {
    assert!(parse_stats_cache(b"nope").is_none());
    assert!(parse_stats_cache(b"[1,2]").is_none());
}

#[test]
fn resolve_keeps_today_when_active() {
    let sc = StatsCache {
        daily_activity: vec![activity("2024-05-01", 3)],
        daily_model_tokens: vec![],
    };
    let r = resolve_active_date(&Some(sc), "2024-05-01", 0);
    assert_eq!(r.as_str(), "2024-05-01");
}

#[test]
fn resolve_picks_most_recent_prior_date() {
    let sc = StatsCache {
        daily_activity: vec![activity("2024-04-28", 2), activity("2024-04-25", 9)],
        daily_model_tokens: vec![tokens("2024-04-30", vec![("opus-4", 10)])],
    };
    let r = resolve_active_date(&Some(sc), "2024-05-02", 0);
    assert_eq!(r.as_str(), "2024-04-30");
}

#[test]
fn resolve_skips_days_without_data() {
    let sc = StatsCache {
        daily_activity: vec![activity("2024-04-28", 2), activity("2024-04-30", 0)],
        daily_model_tokens: vec![tokens("2024-05-01", vec![("opus-4", 0)])],
    };
    let r = resolve_active_date(&Some(sc), "2024-05-02", 0);
    assert_eq!(r.as_str(), "2024-04-28");
}

#[test]
fn resolve_without_cache_or_data_is_today() {
    let r = resolve_active_date(&None, "2024-05-02", 0);
    assert_eq!(r.as_str(), "2024-05-02");
    let sc = StatsCache { daily_activity: vec![], daily_model_tokens: vec![] };
    let r = resolve_active_date(&Some(sc), "2024-05-02", 0);
    assert_eq!(r.as_str(), "2024-05-02");
}

#[test]
fn weekly_series_places_days_oldest_first() {
    let today = day_num("2024-05-07");
    let list = vec![
        tokens("2024-05-07", vec![("opus-4", 70)]),
        tokens("2024-05-01", vec![("opus-4", 10)]),
        tokens("2024-05-04", vec![("sonnet-4", 40)]),
        tokens("2024-04-30", vec![("opus-4", 999)]),
    ];
    let series = weekly_token_series(&list, today);
    assert_eq!(series.len(), 7);
    assert_eq!(series[0], 10);
    assert_eq!(series[3], 40);
    assert_eq!(series[6], 70);
    assert_eq!(series[1], 0);
    assert_eq!(series[2], 0);
    assert_eq!(series[4], 0);
    assert_eq!(series[5], 0);
}

#[test]
fn weekly_series_sums_duplicate_dates() {
    let today = day_num("2024-05-07");
    let list = vec![
        tokens("2024-05-07", vec![("a", 1)]),
        tokens("2024-05-07", vec![("b", 2)]),
    ];
    let series = weekly_token_series(&list, today);
    assert_eq!(series[6], 3);
}

#[test]
fn weekly_series_all_zero_without_data_in_range() {
    let today = day_num("2024-05-07");
    let list = vec![tokens("2024-04-01", vec![("a", 5)])];
    let series = weekly_token_series(&list, today);
    assert_eq!(series, vec![0, 0, 0, 0, 0, 0, 0]);
    let empty = weekly_token_series(&vec![], today);
    assert_eq!(empty, vec![0, 0, 0, 0, 0, 0, 0]);
}

#[test]
fn cache_day_tokens_normalizes_model_names() {
    let t = tokens(
        "2024-05-01",
        vec![("opus-4", 10), ("sonnet-4", 5), ("opus-4-1", 7)],
    );
    let (total, bucket) = cache_day_tokens(&t);
    assert_eq!(total, 22);
    assert_eq!(bucket.get("Opus"), 17);
    assert_eq!(bucket.get("Sonnet"), 5);
    assert_eq!(bucket.get("Haiku"), 0);
}

#[test]
fn resolve_keeps_today_when_the_scan_found_sessions() {
    let sc = StatsCache {
        daily_activity: vec![activity("2024-04-28", 2)],
        daily_model_tokens: vec![],
    };
    let r = resolve_active_date(&Some(sc), "2024-05-02", 1);
    assert_eq!(r.as_str(), "2024-05-02");
    let r = resolve_active_date(&None, "2024-05-02", 3);
    assert_eq!(r.as_str(), "2024-05-02");
}

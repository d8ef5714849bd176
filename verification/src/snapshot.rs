//! The snapshot builder: merges the daily-summary cache, the session scan
//! and the raw-log aggregation into the locally computable part of a usage
//! snapshot, and derives the clamped usage percentage from the trailing
//! five-hour token count.
//!
//! Precedence: the cache's counts for the active date win when they show
//! any message; otherwise a fresh pass over the scanned logs; with neither,
//! every local field degrades to zero.

use crate::bucket::{bucket_get, ModelTokenBucket};
use crate::cache::{
    cache_bucket_of, cache_day_tokens, day_series_total, day_total, find_activity,
    find_activity_exec, find_tokens, find_tokens_exec, resolve_active_date, resolved_date,
    weekly_token_series, StatsCache,
};
use crate::chars::str_eq;
use crate::events::{
    bucket_of, file_event_views, msg_count, parse_jsonl_files, tok_sum, tool_count_of,
};
use vstd::prelude::*;

verus! {

/// The assumed five-hour token allowance the percentage is measured
/// against: a configured estimate, not a figure the service reports.
pub const ESTIMATED_WINDOW_CAP: u64 = 1_000_000;

/// The trailing window the percentage is measured over, in seconds.
pub const TRAILING_WINDOW_SECS: i64 = 18_000;

/// The derived usage percentage: the trailing five-hour token count
/// against the estimated allowance, clamped to one hundred.
pub open spec fn percent_spec(t: int) -> int {
    let p = t * 100 / (ESTIMATED_WINDOW_CAP as int);
    if p > 100 {
        100
    } else {
        p
    }
}

/// Derives the usage percentage, always inside `[0, 100]` however large
/// the trailing count grows.
pub fn usage_percent_of(last5h_tokens: u64) -> (r: u64)
    ensures
        r == percent_spec(last5h_tokens as int),
        0 <= r <= 100,
{
    if last5h_tokens >= ESTIMATED_WINDOW_CAP {
        proof {
            assert(last5h_tokens * 100 / (ESTIMATED_WINDOW_CAP as int) >= 100) by (nonlinear_arith)
                requires
                    last5h_tokens >= ESTIMATED_WINDOW_CAP,
            ;
        }
        100
    } else {
        let r = (last5h_tokens * 100) / ESTIMATED_WINDOW_CAP;
        proof {
            assert(last5h_tokens * 100 / (ESTIMATED_WINDOW_CAP as int) < 100) by (nonlinear_arith)
                requires
                    last5h_tokens < ESTIMATED_WINDOW_CAP,
            ;
        }
        r
    }
}

/// The locally computable part of a snapshot, scoped to the active date.
#[derive(Clone)]
pub struct LocalUsage {
    pub today_messages: u64,
    pub today_tool_calls: u64,
    pub today_sessions: u64,
    pub today_tokens: u64,
    pub opus_tokens: u64,
    pub sonnet_tokens: u64,
    pub weekly_daily: Vec<u64>,
    pub last5h_tokens: u64,
    pub usage_percent: u64,
    pub last_active_date: String,
}

/// The published snapshot: the locally computed fields beside the remote
/// quota read-out, whether that read-out has ever been accepted, and when
/// it last was (seconds since the epoch, zero for never).
#[derive(Clone)]
pub struct UsageData {
    pub session_percent: u64,
    pub session_reset_minutes: i64,
    pub weekly_all_percent: u64,
    pub weekly_sonnet_percent: u64,
    pub monthly_cost: u64,
    pub monthly_limit: u64,
    pub today_messages: u64,
    pub today_tool_calls: u64,
    pub today_sessions: u64,
    pub today_tokens: u64,
    pub opus_tokens: u64,
    pub sonnet_tokens: u64,
    pub weekly_daily: Vec<u64>,
    pub last5h_tokens: u64,
    pub usage_percent: u64,
    pub last_active_date: String,
    pub web_connected: bool,
    pub last_updated: i64,
}

/// A well-formed snapshot: seven weekly slots and a clamped percentage.
pub open spec fn usage_wf(u: UsageData) -> bool {
    u.weekly_daily@.len() == 7 && 0 <= u.usage_percent <= 100
}

impl Default for UsageData {
    /// The snapshot before anything was measured: every count zero, the
    /// weekly series seven empty slots, no remote contact yet.
    fn default() -> (r: Self)
        ensures
            usage_wf(r),
            r.session_percent == 0,
            r.session_reset_minutes == 0,
            r.weekly_all_percent == 0,
            r.weekly_sonnet_percent == 0,
            r.monthly_cost == 0,
            r.monthly_limit == 0,
            r.today_messages == 0,
            r.today_tool_calls == 0,
            r.today_sessions == 0,
            r.today_tokens == 0,
            r.opus_tokens == 0,
            r.sonnet_tokens == 0,
            forall|i: int| 0 <= i < 7 ==> r.weekly_daily@[i] == 0,
            r.last5h_tokens == 0,
            r.usage_percent == 0,
            r.last_active_date@ == Seq::<char>::empty(),
            !r.web_connected,
            r.last_updated == 0,
    {
        let mut weekly_daily: Vec<u64> = Vec::new();
        let mut i: usize = 0;
        while i < 7
            invariant
                0 <= i <= 7,
                weekly_daily@.len() == i,
                forall|j: int| 0 <= j < i ==> weekly_daily@[j] == 0,
            decreases 7 - i,
        {
            weekly_daily.push(0);
            i = i + 1;
        }
        UsageData {
            session_percent: 0,
            session_reset_minutes: 0,
            weekly_all_percent: 0,
            weekly_sonnet_percent: 0,
            monthly_cost: 0,
            monthly_limit: 0,
            today_messages: 0,
            today_tool_calls: 0,
            today_sessions: 0,
            today_tokens: 0,
            opus_tokens: 0,
            sonnet_tokens: 0,
            weekly_daily,
            last5h_tokens: 0,
            usage_percent: 0,
            last_active_date: String::new(),
            web_connected: false,
            last_updated: 0,
        }
    }
}

/// The active date: today when the log scan found sessions for it or
/// the cache shows activity for it; with no cache, always today.
pub open spec fn active_date_of(stats: Option<StatsCache>, today: Seq<char>, today_scan: bool) -> Seq<char> {
    match stats {
        Option::Some(sc) => resolved_date(sc, today, today_scan),
        Option::None => today,
    }
}

/// The cache's message count for a date, zero without a cache or record.
pub open spec fn cache_msgs_of(stats: Option<StatsCache>, d: Seq<char>) -> u64 {
    match stats {
        Option::Some(sc) => match find_activity(sc.daily_activity@, d) {
            Option::Some(a) => a.message_count,
            Option::None => 0,
        },
        Option::None => 0,
    }
}

/// The cache's tool-call count for a date.
pub open spec fn cache_tools_of(stats: Option<StatsCache>, d: Seq<char>) -> u64 {
    match stats {
        Option::Some(sc) => match find_activity(sc.daily_activity@, d) {
            Option::Some(a) => a.tool_call_count,
            Option::None => 0,
        },
        Option::None => 0,
    }
}

/// The cache's token total for a date.
pub open spec fn cache_total_of(stats: Option<StatsCache>, d: Seq<char>) -> int {
    match stats {
        Option::Some(sc) => match find_tokens(sc.daily_model_tokens@, d) {
            Option::Some(t) => day_total(t),
            Option::None => 0,
        },
        Option::None => 0,
    }
}

/// The cache's per-model bucket for a date.
pub open spec fn cache_bucket_opt(stats: Option<StatsCache>, d: Seq<char>) -> Map<Seq<char>, u64> {
    match stats {
        Option::Some(sc) => match find_tokens(sc.daily_model_tokens@, d) {
            Option::Some(t) => cache_bucket_of(t.tokens_by_model@),
            Option::None => Map::empty(),
        },
        Option::None => Map::empty(),
    }
}

/// Slot `i` of the weekly series: the cache's tokens for the day
/// `today_day - 6 + i`, zero without a cache.
pub open spec fn weekly_slot_of(stats: Option<StatsCache>, today_day: i64, i: int) -> int {
    match stats {
        Option::Some(sc) => day_series_total(sc.daily_model_tokens@, (today_day - 6 + i) as i64),
        Option::None => 0,
    }
}

/// A well-formed local summary: seven weekly slots and a clamped
/// percentage derived from the trailing count.
pub open spec fn local_wf(l: LocalUsage) -> bool {
    l.weekly_daily@.len() == 7 && 0 <= l.usage_percent <= 100 && l.usage_percent == percent_spec(
        l.last5h_tokens as int,
    )
}

/// Builds the local part of a snapshot for the active date.
///
/// `today` and its readings `today_day` (day count) and `now_secs`
/// (seconds since the epoch) describe the present moment;
/// `today_sessions` is the session scan's yield for today, which keeps
/// today active even while the cache is still quiet; `session_count` and
/// `log_contents` are the scan's yield for the active date, one body per
/// scanned log. The cache's counts win when they show a message for the
/// active date; otherwise the logs are aggregated exactly as their bytes
/// determine. The trailing five-hour count is measured only when the
/// active date is today.
pub fn read_local_usage(
    today: &str,
    today_day: i64,
    now_secs: i64,
    stats: &Option<StatsCache>,
    today_sessions: u64,
    session_count: u64,
    log_contents: &Vec<Vec<u8>>,
) -> (r: LocalUsage)
    requires
        today_day >= i64::MIN + 6,
        now_secs >= i64::MIN + TRAILING_WINDOW_SECS,
    ensures
        local_wf(r),
        r.today_sessions == session_count,
        r.last_active_date@ == active_date_of(*stats, today@, today_sessions > 0),
        forall|i: int| 0 <= i < 7 ==> r.weekly_daily@[i] == weekly_slot_of(*stats, today_day, i),
        (cache_msgs_of(*stats, active_date_of(*stats, today@, today_sessions > 0)) > 0 || log_contents@.len() == 0)
            ==> ({
            let active = active_date_of(*stats, today@, today_sessions > 0);
            &&& r.today_messages == cache_msgs_of(*stats, active)
            &&& r.today_tool_calls == cache_tools_of(*stats, active)
            &&& r.today_tokens == cache_total_of(*stats, active)
            &&& r.opus_tokens == bucket_get(cache_bucket_opt(*stats, active), "Opus"@)
            &&& r.sonnet_tokens == bucket_get(cache_bucket_opt(*stats, active), "Sonnet"@)
        }),
        (cache_msgs_of(*stats, active_date_of(*stats, today@, today_sessions > 0)) == 0 && log_contents@.len() > 0)
            ==> ({
            let views = file_event_views(log_contents.deep_view());
            &&& r.today_messages == msg_count(views, Option::None)
            &&& r.today_tool_calls == tool_count_of(log_contents.deep_view())
            &&& r.today_tokens == tok_sum(views, Option::None)
            &&& r.opus_tokens == bucket_get(bucket_of(views, Option::None), "Opus"@)
            &&& r.sonnet_tokens == bucket_get(bucket_of(views, Option::None), "Sonnet"@)
        }),
        (active_date_of(*stats, today@, today_sessions > 0) != today@ || log_contents@.len() == 0)
            ==> r.last5h_tokens == 0,
        (active_date_of(*stats, today@, today_sessions > 0) == today@ && log_contents@.len() > 0)
            ==> r.last5h_tokens == tok_sum(
            file_event_views(log_contents.deep_view()),
            Option::Some((now_secs - TRAILING_WINDOW_SECS) as i64),
        ),
{
    let active = resolve_active_date(stats, today, today_sessions);
    let mut messages: u64 = 0;
    let mut tool_calls: u64 = 0;
    let mut tokens: u64 = 0;
    let mut bucket = ModelTokenBucket::new();
    match stats {
        Option::Some(sc) => {
            match find_activity_exec(&sc.daily_activity, active.as_str()) {
                Option::Some(a) => {
                    messages = a.message_count;
                    tool_calls = a.tool_call_count;
                },
                Option::None => {},
            }
            match find_tokens_exec(&sc.daily_model_tokens, active.as_str()) {
                Option::Some(t) => {
                    let (tt, b) = cache_day_tokens(t);
                    tokens = tt;
                    bucket = b;
                },
                Option::None => {},
            }
        },
        Option::None => {},
    }
    if messages == 0 && log_contents.len() > 0 {
        let (m, tc, tk, b) = parse_jsonl_files(log_contents, Option::None);
        messages = m;
        tool_calls = tc;
        tokens = tk;
        bucket = b;
    }
    let is_today = str_eq(active.as_str(), today);
    let last5h_tokens = if is_today && log_contents.len() > 0 {
        let cutoff: i64 = now_secs - TRAILING_WINDOW_SECS;
        let (_m, _tc, tk5, _b) = parse_jsonl_files(log_contents, Option::Some(cutoff));
        tk5
    } else {
        0
    };
    let usage_percent = usage_percent_of(last5h_tokens);
    let weekly_daily = match stats {
        Option::Some(sc) => weekly_token_series(&sc.daily_model_tokens, today_day),
        Option::None => {
            let mut w: Vec<u64> = Vec::new();
            let mut i: usize = 0;
            while i < 7
                invariant
                    0 <= i <= 7,
                    w@.len() == i,
                    forall|j: int| 0 <= j < i ==> w@[j] == 0,
                decreases 7 - i,
            {
                w.push(0);
                i = i + 1;
            }
            w
        },
    };
    let opus_tokens = bucket.get("Opus");
    let sonnet_tokens = bucket.get("Sonnet");
    LocalUsage {
        today_messages: messages,
        today_tool_calls: tool_calls,
        today_sessions: session_count,
        today_tokens: tokens,
        opus_tokens,
        sonnet_tokens,
        weekly_daily,
        last5h_tokens,
        usage_percent,
        last_active_date: active,
    }
}

} // verus!

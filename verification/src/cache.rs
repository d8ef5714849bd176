//! The daily-summary cache: a precomputed per-date record of activity and
//! per-model token counts, used as a faster and possibly stale alternative
//! to raw log parsing. It also answers which date is the "active" one — the
//! current date when it or the session scan shows any activity, otherwise
//! the most recent prior date with any — and supplies the trailing
//! seven-day token series.

use crate::bucket::{bucket_add, ModelTokenBucket};
use crate::chars::str_eq;
use crate::jsonext::{json_of, parse_json};
use crate::jsonmodel::{field_of, get_field, get_text, get_u64, text_field, u64_field, JsonValue};
use crate::modelname::{simplify_model, simplify_model_spec};
use crate::sat64;
use crate::timeparse::{day_num_of, parse_date_num};
use vstd::prelude::*;

verus! {

/// One cached day of activity counts. `day` is the date read as a day
/// count, `None` where the date text is unreadable.
#[derive(Clone)]
pub struct DailyActivity {
    pub date: String,
    pub day: Option<i64>,
    pub message_count: u64,
    pub session_count: u64,
    pub tool_call_count: u64,
}

/// One cached day of per-model token counts.
#[derive(Clone)]
pub struct DailyModelTokens {
    pub date: String,
    pub day: Option<i64>,
    pub tokens_by_model: Vec<(String, u64)>,
}

/// The whole cache: activity and token records, each keyed by date.
#[derive(Clone)]
pub struct StatsCache {
    pub daily_activity: Vec<DailyActivity>,
    pub daily_model_tokens: Vec<DailyModelTokens>,
}

/// The total tokens of an association list of per-model counts,
/// saturating.
pub open spec fn pairs_total(s: Seq<(String, u64)>) -> int
    decreases s.len(),
{
    if s.len() == 0 {
        0
    } else {
        sat64(pairs_total(s.drop_last()) + s.last().1)
    }
}

/// The total tokens one cached day records.
pub open spec fn day_total(t: DailyModelTokens) -> int {
    pairs_total(t.tokens_by_model@)
}

/// The first activity record for a date, in cache order.
pub open spec fn find_activity(s: Seq<DailyActivity>, d: Seq<char>) -> Option<DailyActivity>
    decreases s.len(),
{
    if s.len() == 0 {
        Option::None
    } else if s[0].date@ == d {
        Option::Some(s[0])
    } else {
        find_activity(s.drop_first(), d)
    }
}

/// The first token record for a date, in cache order.
pub open spec fn find_tokens(s: Seq<DailyModelTokens>, d: Seq<char>) -> Option<DailyModelTokens>
    decreases s.len(),
{
    if s.len() == 0 {
        Option::None
    } else if s[0].date@ == d {
        Option::Some(s[0])
    } else {
        find_tokens(s.drop_first(), d)
    }
}

/// The cache shows activity for the date: a positive message count or a
/// positive token total.
pub open spec fn cache_active_on(sc: StatsCache, d: Seq<char>) -> bool {
    (exists|i: int|
        0 <= i < sc.daily_activity@.len() && sc.daily_activity@[i].date@ == d
            && sc.daily_activity@[i].message_count > 0) || (exists|i: int|
        0 <= i < sc.daily_model_tokens@.len() && sc.daily_model_tokens@[i].date@ == d
            && day_total(sc.daily_model_tokens@[i]) > 0)
}

/// Folds one candidate into the running best: a candidate with data and a
/// readable date replaces the best only when its day is strictly more
/// recent, so the earliest record of the most recent day wins.
pub open spec fn better(
    cur: Option<(Seq<char>, i64)>,
    date: Seq<char>,
    day: Option<i64>,
    has_data: bool,
) -> Option<(Seq<char>, i64)> {
    if !has_data {
        cur
    } else {
        match day {
            Option::None => cur,
            Option::Some(dn) => match cur {
                Option::None => Option::Some((date, dn)),
                Option::Some(c) => if dn > c.1 {
                    Option::Some((date, dn))
                } else {
                    cur
                },
            },
        }
    }
}

/// The best candidate after walking the activity records in order.
pub open spec fn best_in_acts(init: Option<(Seq<char>, i64)>, s: Seq<DailyActivity>) -> Option<
    (Seq<char>, i64),
>
    decreases s.len(),
{
    if s.len() == 0 {
        init
    } else {
        let a = s.last();
        better(best_in_acts(init, s.drop_last()), a.date@, a.day, a.message_count > 0)
    }
}

/// The best candidate after walking the token records in order.
pub open spec fn best_in_toks(init: Option<(Seq<char>, i64)>, s: Seq<DailyModelTokens>) -> Option<
    (Seq<char>, i64),
>
    decreases s.len(),
{
    if s.len() == 0 {
        init
    } else {
        let t = s.last();
        better(best_in_toks(init, s.drop_last()), t.date@, t.day, day_total(t) > 0)
    }
}

/// The active date the cache resolves: today when the cache or the log
/// scan shows activity for it, otherwise the most recent prior date with
/// any, otherwise today.
pub open spec fn resolved_date(sc: StatsCache, today: Seq<char>, today_scan: bool) -> Seq<char> {
    if today_scan || cache_active_on(sc, today) {
        today
    } else {
        match best_in_toks(best_in_acts(Option::None, sc.daily_activity@), sc.daily_model_tokens@) {
            Option::Some(c) => c.0,
            Option::None => today,
        }
    }
}

/// Total tokens of one association list, saturating.
fn pairs_total_exec(pairs: &Vec<(String, u64)>) -> (r: u64)
    ensures
        r == pairs_total(pairs@),
{
    let n: usize = pairs.len();
    let mut total: u64 = 0;
    let mut i: usize = 0;
    proof {
        assert(pairs@.take(0) =~= Seq::<(String, u64)>::empty());
    }
    while i < n
        invariant
            n == pairs@.len(),
            0 <= i <= n,
            total == pairs_total(pairs@.take(i as int)),
        decreases n - i,
    {
        proof {
            assert(pairs@.take(i + 1).drop_last() =~= pairs@.take(i as int));
            assert(pairs@.take(i + 1).last() == pairs@[i as int]);
        }
        total = total.saturating_add(pairs[i].1);
        i = i + 1;
    }
    proof {
        assert(pairs@.take(n as int) =~= pairs@);
    }
    total
}

/// The first activity record for a date.
pub fn find_activity_exec<'a>(s: &'a Vec<DailyActivity>, d: &str) -> (r: Option<&'a DailyActivity>)
    ensures
        match r {
            Option::Some(a) => find_activity(s@, d@) == Option::Some(*a),
            Option::None => find_activity(s@, d@) is None,
        },
{
    let n: usize = s.len();
    let mut i: usize = 0;
    proof {
        assert(s@.skip(0) =~= s@);
    }
    while i < n
        invariant
            n == s@.len(),
            0 <= i <= n,
            find_activity(s@, d@) == find_activity(s@.skip(i as int), d@),
        decreases n - i,
    {
        proof {
            assert(s@.skip(i as int)[0] == s@[i as int]);
        }
        if str_eq(s[i].date.as_str(), d) {
            return Option::Some(&s[i]);
        }
        proof {
            assert(s@.skip(i as int).drop_first() =~= s@.skip(i + 1));
        }
        i = i + 1;
    }
    proof {
        assert(s@.skip(n as int).len() == 0);
    }
    Option::None
}

/// The first token record for a date.
pub fn find_tokens_exec<'a>(s: &'a Vec<DailyModelTokens>, d: &str) -> (r: Option<&'a DailyModelTokens>)
    ensures
        match r {
            Option::Some(t) => find_tokens(s@, d@) == Option::Some(*t),
            Option::None => find_tokens(s@, d@) is None,
        },
{
    let n: usize = s.len();
    let mut i: usize = 0;
    proof {
        assert(s@.skip(0) =~= s@);
    }
    while i < n
        invariant
            n == s@.len(),
            0 <= i <= n,
            find_tokens(s@, d@) == find_tokens(s@.skip(i as int), d@),
        decreases n - i,
    {
        proof {
            assert(s@.skip(i as int)[0] == s@[i as int]);
        }
        if str_eq(s[i].date.as_str(), d) {
            return Option::Some(&s[i]);
        }
        proof {
            assert(s@.skip(i as int).drop_first() =~= s@.skip(i + 1));
        }
        i = i + 1;
    }
    proof {
        assert(s@.skip(n as int).len() == 0);
    }
    Option::None
}

/// Whether the cache shows activity on `d`.
fn cache_active_on_exec(sc: &StatsCache, d: &str) -> (r: bool)
    ensures
        r == cache_active_on(*sc, d@),
{
    let na: usize = sc.daily_activity.len();
    let mut i: usize = 0;
    while i < na
        invariant
            na == sc.daily_activity@.len(),
            0 <= i <= na,
            forall|j: int|
                0 <= j < i ==> !(sc.daily_activity@[j].date@ == d@ && sc.daily_activity@[j].message_count > 0),
        decreases na - i,
    {
        if str_eq(sc.daily_activity[i].date.as_str(), d) && sc.daily_activity[i].message_count > 0 {
            return true;
        }
        i = i + 1;
    }
    let nt: usize = sc.daily_model_tokens.len();
    let mut k: usize = 0;
    while k < nt
        invariant
            nt == sc.daily_model_tokens@.len(),
            na == sc.daily_activity@.len(),
            forall|j: int|
                0 <= j < na ==> !(sc.daily_activity@[j].date@ == d@ && sc.daily_activity@[j].message_count > 0),
            0 <= k <= nt,
            forall|j: int|
                0 <= j < k ==> !(sc.daily_model_tokens@[j].date@ == d@ && day_total(
                    sc.daily_model_tokens@[j],
                ) > 0),
        decreases nt - k,
    {
        if str_eq(sc.daily_model_tokens[k].date.as_str(), d) {
            let total = pairs_total_exec(&sc.daily_model_tokens[k].tokens_by_model);
            if total > 0 {
                return true;
            }
        }
        k = k + 1;
    }
    false
}

/// Resolves the active date: today when the log scan found sessions for
/// today (`today_sessions` is that scan's yield), when the cache shows
/// activity for today, or when there is nothing better; otherwise the
/// most recent prior date the cache shows activity for.
pub fn resolve_active_date(stats: &Option<StatsCache>, today: &str, today_sessions: u64) -> (r:
    String)
    ensures
        match stats {
            Option::Some(sc) => r@ == resolved_date(*sc, today@, today_sessions > 0),
            Option::None => r@ == today@,
        },
{
    let sc = match stats {
        Option::Some(sc) => sc,
        Option::None => {
            return String::from_str(today);
        },
    };
    if today_sessions > 0 || cache_active_on_exec(sc, today) {
        return String::from_str(today);
    }
    let mut best_date: Option<String> = Option::None;
    let mut best_day: i64 = 0;
    let ghost mut best: Option<(Seq<char>, i64)> = Option::None;
    let na: usize = sc.daily_activity.len();
    let mut i: usize = 0;
    proof {
        assert(sc.daily_activity@.take(0) =~= Seq::<DailyActivity>::empty());
    }
    while i < na
        invariant
            na == sc.daily_activity@.len(),
            0 <= i <= na,
            best == best_in_acts(Option::None, sc.daily_activity@.take(i as int)),
            match best_date {
                Option::Some(s) => best == Option::Some((s@, best_day)),
                Option::None => best is None,
            },
        decreases na - i,
    {
        proof {
            assert(sc.daily_activity@.take(i + 1).drop_last() =~= sc.daily_activity@.take(
                i as int,
            ));
            assert(sc.daily_activity@.take(i + 1).last() == sc.daily_activity@[i as int]);
        }
        let a = &sc.daily_activity[i];
        if a.message_count > 0 {
            match a.day {
                Option::Some(dn) => {
                    let replace = match &best_date {
                        Option::Some(_) => dn > best_day,
                        Option::None => true,
                    };
                    if replace {
                        best_date = Option::Some(a.date.clone());
                        best_day = dn;
                        proof {
                            best = Option::Some((a.date@, dn));
                        }
                    }
                },
                Option::None => {},
            }
        }
        i = i + 1;
    }
    proof {
        assert(sc.daily_activity@.take(na as int) =~= sc.daily_activity@);
    }
    let nt: usize = sc.daily_model_tokens.len();
    let mut k: usize = 0;
    proof {
        assert(sc.daily_model_tokens@.take(0) =~= Seq::<DailyModelTokens>::empty());
    }
    while k < nt
        invariant
            nt == sc.daily_model_tokens@.len(),
            0 <= k <= nt,
            best == best_in_toks(
                best_in_acts(Option::None, sc.daily_activity@),
                sc.daily_model_tokens@.take(k as int),
            ),
            match best_date {
                Option::Some(s) => best == Option::Some((s@, best_day)),
                Option::None => best is None,
            },
        decreases nt - k,
    {
        proof {
            assert(sc.daily_model_tokens@.take(k + 1).drop_last() =~= sc.daily_model_tokens@.take(
                k as int,
            ));
            assert(sc.daily_model_tokens@.take(k + 1).last() == sc.daily_model_tokens@[k as int]);
        }
        let t = &sc.daily_model_tokens[k];
        let total = pairs_total_exec(&t.tokens_by_model);
        if total > 0 {
            match t.day {
                Option::Some(dn) => {
                    let replace = match &best_date {
                        Option::Some(_) => dn > best_day,
                        Option::None => true,
                    };
                    if replace {
                        best_date = Option::Some(t.date.clone());
                        best_day = dn;
                        proof {
                            best = Option::Some((t.date@, dn));
                        }
                    }
                },
                Option::None => {},
            }
        }
        k = k + 1;
    }
    proof {
        assert(sc.daily_model_tokens@.take(nt as int) =~= sc.daily_model_tokens@);
    }
    match best_date {
        Option::Some(s) => s,
        Option::None => String::from_str(today),
    }
}

/// Tokens one cached day credits to each day of the trailing week,
/// saturating; records whose date did not read as a day contribute
/// nothing.
pub open spec fn day_series_total(s: Seq<DailyModelTokens>, target: i64) -> int
    decreases s.len(),
{
    if s.len() == 0 {
        0
    } else {
        sat64(
            day_series_total(s.drop_last(), target) + if s.last().day == Option::Some(target) {
                day_total(s.last())
            } else {
                0int
            },
        )
    }
}

/// A day nothing in the cache mentions sums to zero.
pub proof fn lemma_day_series_empty(s: Seq<DailyModelTokens>, target: i64)
    requires
        forall|i: int| 0 <= i < s.len() ==> s[i].day != Option::Some(target),
    ensures
        day_series_total(s, target) == 0,
    decreases s.len(),
{
    if s.len() > 0 {
        assert forall|i: int| 0 <= i < s.len() - 1 implies s.drop_last()[i].day != Option::Some(
            target,
        ) by {
            assert(s.drop_last()[i] == s[i]);
        }
        lemma_day_series_empty(s.drop_last(), target);
        assert(s.last() == s[s.len() - 1]);
    }
}

/// A weekly series over records none of which falls in the trailing week
/// is all zero.
pub proof fn lemma_weekly_all_zero(s: Seq<DailyModelTokens>, today_day: i64)
    requires
        today_day >= i64::MIN + 6,
        forall|i: int|
            0 <= i < s.len() ==> (match #[trigger] s[i].day {
                Option::Some(d) => !(today_day - 6 <= d <= today_day),
                Option::None => true,
            }),
    ensures
        forall|k: int|
            0 <= k < 7 ==> #[trigger] day_series_total(s, (today_day - 6 + k) as i64) == 0,
{
    assert forall|k: int| 0 <= k < 7 implies #[trigger] day_series_total(
        s,
        (today_day - 6 + k) as i64,
    ) == 0 by {
        let target = (today_day - 6 + k) as i64;
        assert forall|i: int| 0 <= i < s.len() implies s[i].day != Option::Some(target) by {}
        lemma_day_series_empty(s, target);
    }
}

/// Total tokens the cache credits to one calendar day.
fn slot_total(s: &Vec<DailyModelTokens>, target: i64) -> (r: u64)
    ensures
        r == day_series_total(s@, target),
{
    let n: usize = s.len();
    let mut total: u64 = 0;
    let mut i: usize = 0;
    proof {
        assert(s@.take(0) =~= Seq::<DailyModelTokens>::empty());
    }
    while i < n
        invariant
            n == s@.len(),
            0 <= i <= n,
            total == day_series_total(s@.take(i as int), target),
        decreases n - i,
    {
        proof {
            assert(s@.take(i + 1).drop_last() =~= s@.take(i as int));
            assert(s@.take(i + 1).last() == s@[i as int]);
        }
        let hit = match s[i].day {
            Option::Some(dn) => dn == target,
            Option::None => false,
        };
        if hit {
            let t = pairs_total_exec(&s[i].tokens_by_model);
            total = total.saturating_add(t);
        }
        i = i + 1;
    }
    proof {
        assert(s@.take(n as int) =~= s@);
    }
    total
}

/// The weekly token series: exactly seven slots, oldest at index 0, the
/// current day at index 6; slot `i` sums the cache's token records for the
/// day `today_day - 6 + i`.
pub fn weekly_token_series(s: &Vec<DailyModelTokens>, today_day: i64) -> (r: Vec<u64>)
    requires
        today_day >= i64::MIN + 6,
    ensures
        r@.len() == 7,
        forall|i: int| 0 <= i < 7 ==> r@[i] == day_series_total(s@, (today_day - 6 + i) as i64),
{
    let mut r: Vec<u64> = Vec::new();
    let mut i: usize = 0;
    while i < 7
        invariant
            0 <= i <= 7,
            today_day >= i64::MIN + 6,
            r@.len() == i,
            forall|j: int| 0 <= j < i ==> r@[j] == day_series_total(s@, (today_day - 6 + j) as i64),
        decreases 7 - i,
    {
        let target: i64 = today_day - 6 + (i as i64);
        let v = slot_total(s, target);
        r.push(v);
        i = i + 1;
    }
    r
}

/// The per-model bucket a cached day denotes, each model name normalized,
/// counts saturating.
pub open spec fn cache_bucket_of(pairs: Seq<(String, u64)>) -> Map<Seq<char>, u64>
    decreases pairs.len(),
{
    if pairs.len() == 0 {
        Map::empty()
    } else {
        bucket_add(
            cache_bucket_of(pairs.drop_last()),
            simplify_model_spec(pairs.last().0@),
            pairs.last().1,
        )
    }
}

/// Reads one cached day into a total and a normalized per-model bucket.
pub fn cache_day_tokens(t: &DailyModelTokens) -> (r: (u64, ModelTokenBucket))
    ensures
        r.0 == day_total(*t),
        r.1.wf(),
        r.1@ == cache_bucket_of(t.tokens_by_model@),
{
    let pairs = &t.tokens_by_model;
    let n: usize = pairs.len();
    let mut total: u64 = 0;
    let mut bucket = ModelTokenBucket::new();
    let mut i: usize = 0;
    proof {
        assert(pairs@.take(0) =~= Seq::<(String, u64)>::empty());
    }
    while i < n
        invariant
            n == pairs@.len(),
            0 <= i <= n,
            total == pairs_total(pairs@.take(i as int)),
            bucket.wf(),
            bucket@ == cache_bucket_of(pairs@.take(i as int)),
        decreases n - i,
    {
        proof {
            assert(pairs@.take(i + 1).drop_last() =~= pairs@.take(i as int));
            assert(pairs@.take(i + 1).last() == pairs@[i as int]);
        }
        let key = simplify_model(pairs[i].0.as_str());
        bucket.add_tokens(key, pairs[i].1);
        total = total.saturating_add(pairs[i].1);
        i = i + 1;
    }
    proof {
        assert(pairs@.take(n as int) =~= pairs@);
    }
    (total, bucket)
}

/// What one cached activity record holds, as views: date text, its day
/// reading, and the three counts, each field read with its default.
pub open spec fn activity_view_of(fields: Seq<(String, JsonValue)>) -> (
    Seq<char>,
    Option<i64>,
    u64,
    u64,
    u64,
) {
    let date = text_field(fields, "date"@);
    (
        date,
        day_num_of(date),
        u64_field(fields, "messageCount"@),
        u64_field(fields, "sessionCount"@),
        u64_field(fields, "toolCallCount"@),
    )
}

/// The activity records a JSON array denotes, in order; an element that
/// is no object is no record.
pub open spec fn activities_of(items: Seq<JsonValue>) -> Seq<(Seq<char>, Option<i64>, u64, u64, u64)>
    decreases items.len(),
{
    if items.len() == 0 {
        Seq::empty()
    } else {
        let prior = activities_of(items.drop_last());
        match items.last() {
            JsonValue::Fields(fields) => prior.push(activity_view_of(fields@)),
            _ => prior,
        }
    }
}

/// The per-model pairs one `tokensByModel` object denotes: every field,
/// in order, its value read as an unsigned count or zero.
pub open spec fn pairs_of(fields: Seq<(String, JsonValue)>) -> Seq<(Seq<char>, u64)>
    decreases fields.len(),
{
    if fields.len() == 0 {
        Seq::empty()
    } else {
        let prior = pairs_of(fields.drop_last());
        let value = match fields.last().1 {
            JsonValue::Num { as_u64: Option::Some(n), .. } => n,
            _ => 0,
        };
        prior.push((fields.last().0@, value))
    }
}

/// What one cached token record holds, as views: date text, its day
/// reading, and the per-model pairs.
pub open spec fn tokens_view_of(fields: Seq<(String, JsonValue)>) -> (
    Seq<char>,
    Option<i64>,
    Seq<(Seq<char>, u64)>,
) {
    let date = text_field(fields, "date"@);
    (
        date,
        day_num_of(date),
        match field_of(fields, "tokensByModel"@) {
            Option::Some(JsonValue::Fields(m)) => pairs_of(m@),
            _ => Seq::empty(),
        },
    )
}

/// The token records a JSON array denotes, in order; an element that is
/// no object is no record.
pub open spec fn tokens_list_of(items: Seq<JsonValue>) -> Seq<
    (Seq<char>, Option<i64>, Seq<(Seq<char>, u64)>),
>
    decreases items.len(),
{
    if items.len() == 0 {
        Seq::empty()
    } else {
        let prior = tokens_list_of(items.drop_last());
        match items.last() {
            JsonValue::Fields(fields) => prior.push(tokens_view_of(fields@)),
            _ => prior,
        }
    }
}

/// The array under the fallback spelling, or nothing.
pub open spec fn fallback_items(fields: Seq<(String, JsonValue)>, key: Seq<char>) -> Seq<JsonValue> {
    match field_of(fields, key) {
        Option::Some(JsonValue::Items(items)) => items@,
        _ => Seq::empty(),
    }
}

/// The array a record kind reads: the preferred spelling's when it is an
/// array with records, else the fallback spelling's.
pub open spec fn picked_items(
    fields: Seq<(String, JsonValue)>,
    preferred: Seq<char>,
    fallback: Seq<char>,
) -> Seq<JsonValue> {
    match field_of(fields, preferred) {
        Option::Some(JsonValue::Items(items)) => if items@.len() > 0 {
            items@
        } else {
            fallback_items(fields, fallback)
        },
        _ => fallback_items(fields, fallback),
    }
}

/// The cache a parsed document denotes, as views: `None` unless it is an
/// object.
pub open spec fn cache_of(doc: Option<JsonValue>) -> Option<
    (Seq<(Seq<char>, Option<i64>, u64, u64, u64)>, Seq<(Seq<char>, Option<i64>, Seq<(Seq<char>, u64)>)>),
> {
    match doc {
        Option::Some(JsonValue::Fields(fields)) => Option::Some(
            (
                activities_of(picked_items(fields@, "dailyActivity"@, "daily_activity"@)),
                tokens_list_of(picked_items(fields@, "dailyModelTokens"@, "daily_model_tokens"@)),
            ),
        ),
        _ => Option::None,
    }
}

/// The activity record carries exactly these views.
pub open spec fn activity_matches_view(
    a: DailyActivity,
    v: (Seq<char>, Option<i64>, u64, u64, u64),
) -> bool {
    a.date@ == v.0 && a.day == v.1 && a.message_count == v.2 && a.session_count == v.3
        && a.tool_call_count == v.4
}

/// The pairs list carries exactly these views.
pub open spec fn pairs_match_view(s: Seq<(String, u64)>, vs: Seq<(Seq<char>, u64)>) -> bool {
    s.len() == vs.len() && forall|i: int| 0 <= i < s.len() ==> (#[trigger] s[i]).0@ == vs[i].0 && s[i].1 == vs[i].1
}

/// The token record carries exactly these views.
pub open spec fn tokens_matches_view(
    t: DailyModelTokens,
    v: (Seq<char>, Option<i64>, Seq<(Seq<char>, u64)>),
) -> bool {
    t.date@ == v.0 && t.day == v.1 && pairs_match_view(t.tokens_by_model@, v.2)
}

fn parse_activity_list(items: &Vec<JsonValue>) -> (r: Vec<DailyActivity>)
    ensures
        r@.len() == activities_of(items@).len(),
        forall|i: int|
            0 <= i < r@.len() ==> activity_matches_view(r@[i], #[trigger] activities_of(items@)[i]),
{
    let mut out: Vec<DailyActivity> = Vec::new();
    let n: usize = items.len();
    let mut i: usize = 0;
    proof {
        assert(items@.take(0) =~= Seq::<JsonValue>::empty());
    }
    while i < n
        invariant
            n == items@.len(),
            0 <= i <= n,
            out@.len() == activities_of(items@.take(i as int)).len(),
            forall|j: int|
                0 <= j < out@.len() ==> activity_matches_view(
                    out@[j],
                    #[trigger] activities_of(items@.take(i as int))[j],
                ),
        decreases n - i,
    {
        proof {
            assert(items@.take(i + 1).drop_last() =~= items@.take(i as int));
            assert(items@.take(i + 1).last() == items@[i as int]);
        }
        match &items[i] {
            JsonValue::Fields(fields) => {
                let date = get_text(fields, "date");
                let day = parse_date_num(date.as_str());
                let message_count = get_u64(fields, "messageCount");
                let session_count = get_u64(fields, "sessionCount");
                let tool_call_count = get_u64(fields, "toolCallCount");
                out.push(DailyActivity { date, day, message_count, session_count, tool_call_count });
            },
            _ => {},
        }
        i = i + 1;
    }
    proof {
        assert(items@.take(n as int) =~= items@);
    }
    out
}

fn parse_model_pairs(fields: &Vec<(String, JsonValue)>) -> (r: Vec<(String, u64)>)
    ensures
        pairs_match_view(r@, pairs_of(fields@)),
{
    let mut out: Vec<(String, u64)> = Vec::new();
    let n: usize = fields.len();
    let mut i: usize = 0;
    proof {
        assert(fields@.take(0) =~= Seq::<(String, JsonValue)>::empty());
    }
    while i < n
        invariant
            n == fields@.len(),
            0 <= i <= n,
            pairs_match_view(out@, pairs_of(fields@.take(i as int))),
        decreases n - i,
    {
        proof {
            assert(fields@.take(i + 1).drop_last() =~= fields@.take(i as int));
            assert(fields@.take(i + 1).last() == fields@[i as int]);
        }
        let value = match &fields[i].1 {
            JsonValue::Num { as_u64: Option::Some(n), .. } => *n,
            _ => 0,
        };
        out.push((fields[i].0.clone(), value));
        i = i + 1;
    }
    proof {
        assert(fields@.take(n as int) =~= fields@);
    }
    out
}

fn parse_tokens_list(items: &Vec<JsonValue>) -> (r: Vec<DailyModelTokens>)
    ensures
        r@.len() == tokens_list_of(items@).len(),
        forall|i: int|
            0 <= i < r@.len() ==> tokens_matches_view(r@[i], #[trigger] tokens_list_of(items@)[i]),
{
    let mut out: Vec<DailyModelTokens> = Vec::new();
    let n: usize = items.len();
    let mut i: usize = 0;
    proof {
        assert(items@.take(0) =~= Seq::<JsonValue>::empty());
    }
    while i < n
        invariant
            n == items@.len(),
            0 <= i <= n,
            out@.len() == tokens_list_of(items@.take(i as int)).len(),
            forall|j: int|
                0 <= j < out@.len() ==> tokens_matches_view(
                    out@[j],
                    #[trigger] tokens_list_of(items@.take(i as int))[j],
                ),
        decreases n - i,
    {
        proof {
            assert(items@.take(i + 1).drop_last() =~= items@.take(i as int));
            assert(items@.take(i + 1).last() == items@[i as int]);
        }
        match &items[i] {
            JsonValue::Fields(fields) => {
                let date = get_text(fields, "date");
                let day = parse_date_num(date.as_str());
                let tokens_by_model = match get_field(fields, "tokensByModel") {
                    Option::Some(JsonValue::Fields(m)) => parse_model_pairs(m),
                    _ => Vec::new(),
                };
                proof {
                    assert(pairs_match_view(
                        Seq::<(String, u64)>::empty(),
                        Seq::<(Seq<char>, u64)>::empty(),
                    ));
                }
                out.push(DailyModelTokens { date, day, tokens_by_model });
            },
            _ => {},
        }
        i = i + 1;
    }
    proof {
        assert(items@.take(n as int) =~= items@);
    }
    out
}

/// The preferred spelling's array when it is present with records, else
/// the fallback spelling's, as `picked_items` describes.
fn pick_array_field<'a>(
    fields: &'a Vec<(String, JsonValue)>,
    preferred: &str,
    fallback: &str,
) -> (r: Option<&'a Vec<JsonValue>>)
    ensures
        match r {
            Option::Some(items) => items@ == picked_items(fields@, preferred@, fallback@),
            Option::None => picked_items(fields@, preferred@, fallback@).len() == 0,
        },
{
    match get_field(fields, preferred) {
        Option::Some(JsonValue::Items(items)) => {
            if items.len() > 0 {
                return Option::Some(items);
            }
        },
        _ => {},
    }
    match get_field(fields, fallback) {
        Option::Some(JsonValue::Items(items)) => Option::Some(items),
        _ => Option::None,
    }
}

/// Reads the cache file: exactly what `cache_of` makes of the bytes.
/// Each record kind is accepted under either of its field spellings,
/// preferring the spelling with records; a document that is no JSON
/// object is no cache; an element that is no object is skipped; a
/// missing or ill-typed field takes its default.
pub fn parse_stats_cache(content: &[u8]) -> (r: Option<StatsCache>)
    ensures
        match r {
            Option::Some(sc) => cache_of(json_of(content@)) is Some && ({
                let views = cache_of(json_of(content@))->0;
                &&& sc.daily_activity@.len() == views.0.len()
                &&& forall|i: int|
                    0 <= i < sc.daily_activity@.len() ==> activity_matches_view(
                        sc.daily_activity@[i],
                        #[trigger] views.0[i],
                    )
                &&& sc.daily_model_tokens@.len() == views.1.len()
                &&& forall|i: int|
                    0 <= i < sc.daily_model_tokens@.len() ==> tokens_matches_view(
                        sc.daily_model_tokens@[i],
                        #[trigger] views.1[i],
                    )
            }),
            Option::None => cache_of(json_of(content@)) is None,
        },
{
    let doc = parse_json(content);
    let fields = match &doc {
        Option::Some(JsonValue::Fields(fields)) => fields,
        _ => {
            return Option::None;
        },
    };
    let daily_activity = match pick_array_field(fields, "dailyActivity", "daily_activity") {
        Option::Some(items) => parse_activity_list(items),
        Option::None => Vec::new(),
    };
    let daily_model_tokens = match pick_array_field(fields, "dailyModelTokens", "daily_model_tokens") {
        Option::Some(items) => parse_tokens_list(items),
        Option::None => Vec::new(),
    };
    proof {
        let views = cache_of(json_of(content@))->0;
        if picked_items(fields@, "dailyActivity"@, "daily_activity"@).len() == 0 {
            assert(activities_of(picked_items(fields@, "dailyActivity"@, "daily_activity"@))
                =~= Seq::<(Seq<char>, Option<i64>, u64, u64, u64)>::empty());
        }
        if picked_items(fields@, "dailyModelTokens"@, "daily_model_tokens"@).len() == 0 {
            assert(tokens_list_of(picked_items(fields@, "dailyModelTokens"@, "daily_model_tokens"@))
                =~= Seq::<(Seq<char>, Option<i64>, Seq<(Seq<char>, u64)>)>::empty());
        }
    }
    Option::Some(StatsCache { daily_activity, daily_model_tokens })
}

} // verus!

//! The bounded history store: an append-only series of timestamped quota
//! readings, pruned on every append to a seven-day retention window. The
//! caller persists the returned series in full; reading it back applies no
//! further filtering.

use crate::jsonext::{json_of, parse_json};
use crate::jsonmodel::{get_i64, get_u64, i64_field, u64_field, JsonValue};
use vstd::prelude::*;

verus! {

/// How long an entry is retained, in seconds: seven days.
pub const RETENTION_SECS: i64 = 7 * 86_400;

/// One retained reading: when it was taken and the three quota
/// percentages of that moment.
#[derive(Clone, Copy, PartialEq, Eq, Structural, Debug)]
pub struct HistoryEntry {
    pub timestamp: i64,
    pub session_percent: u64,
    pub weekly_all_percent: u64,
    pub weekly_sonnet_percent: u64,
}

/// The series kept by a prune: exactly the entries at or after the
/// cutoff, in order.
pub open spec fn pruned(entries: Seq<HistoryEntry>, cutoff: i64) -> Seq<HistoryEntry> {
    entries.filter(|e: HistoryEntry| e.timestamp >= cutoff)
}

/// Appends a reading stamped `now` and prunes: the result is exactly the
/// old entries not older than the retention window measured from `now`,
/// in order, with the new entry last.
pub fn append_entry(
    entries: &Vec<HistoryEntry>,
    now: i64,
    session_percent: u64,
    weekly_all_percent: u64,
    weekly_sonnet_percent: u64,
) -> (r: Vec<HistoryEntry>)
    requires
        now >= i64::MIN + RETENTION_SECS,
    ensures
        r@ == pruned(entries@, (now - RETENTION_SECS) as i64).push(
            HistoryEntry {
                timestamp: now,
                session_percent,
                weekly_all_percent,
                weekly_sonnet_percent,
            },
        ),
{
    let cutoff: i64 = now - RETENTION_SECS;
    let n: usize = entries.len();
    let mut out: Vec<HistoryEntry> = Vec::new();
    let mut i: usize = 0;
    proof {
        reveal(Seq::filter);
        assert(entries@.take(0) =~= Seq::<HistoryEntry>::empty());
        assert(out@ =~= pruned(entries@.take(0), cutoff));
    }
    while i < n
        invariant
            n == entries@.len(),
            0 <= i <= n,
            cutoff == now - RETENTION_SECS,
            out@ == pruned(entries@.take(i as int), cutoff),
        decreases n - i,
    {
        proof {
            reveal(Seq::filter);
            assert(entries@.take(i + 1).drop_last() =~= entries@.take(i as int));
            assert(entries@.take(i + 1).last() == entries@[i as int]);
        }
        let e = entries[i];
        if e.timestamp >= cutoff {
            out.push(e);
        }
        i = i + 1;
    }
    proof {
        assert(entries@.take(n as int) =~= entries@);
    }
    out.push(
        HistoryEntry { timestamp: now, session_percent, weekly_all_percent, weekly_sonnet_percent },
    );
    out
}

/// The entry one JSON object denotes: each field read with its default.
pub open spec fn history_entry_of(fields: Seq<(String, JsonValue)>) -> HistoryEntry {
    HistoryEntry {
        timestamp: i64_field(fields, "timestamp"@),
        session_percent: u64_field(fields, "session_percent"@),
        weekly_all_percent: u64_field(fields, "weekly_all_percent"@),
        weekly_sonnet_percent: u64_field(fields, "weekly_sonnet_percent"@),
    }
}

/// The series a JSON array denotes: one entry per object element, in
/// order; an element that is no object is no entry.
pub open spec fn history_items_of(items: Seq<JsonValue>) -> Seq<HistoryEntry>
    decreases items.len(),
{
    if items.len() == 0 {
        Seq::empty()
    } else {
        let prior = history_items_of(items.drop_last());
        match items.last() {
            JsonValue::Fields(fields) => prior.push(history_entry_of(fields@)),
            _ => prior,
        }
    }
}

/// The series a parsed document denotes: empty unless it is an array.
pub open spec fn history_of(doc: Option<JsonValue>) -> Seq<HistoryEntry> {
    match doc {
        Option::Some(JsonValue::Items(items)) => history_items_of(items@),
        _ => Seq::empty(),
    }
}

/// Reads a persisted series: exactly what `history_of` makes of the
/// bytes. Malformed storage, or a document that is no JSON array, yields
/// the empty series; an element that is no object is skipped; within one,
/// a missing or ill-typed field takes its default.
pub fn load_history(content: &[u8]) -> (r: Vec<HistoryEntry>)
    ensures
        r@ == history_of(json_of(content@)),
{
    let mut out: Vec<HistoryEntry> = Vec::new();
    let doc = parse_json(content);
    let items = match doc {
        Option::Some(JsonValue::Items(items)) => items,
        _ => {
            return out;
        },
    };
    let n: usize = items.len();
    let mut i: usize = 0;
    proof {
        assert(items@.take(0) =~= Seq::<JsonValue>::empty());
    }
    while i < n
        invariant
            n == items@.len(),
            0 <= i <= n,
            out@ == history_items_of(items@.take(i as int)),
        decreases n - i,
    {
        proof {
            assert(items@.take(i + 1).drop_last() =~= items@.take(i as int));
            assert(items@.take(i + 1).last() == items@[i as int]);
        }
        match &items[i] {
            JsonValue::Fields(fields) => {
                let timestamp = get_i64(fields, "timestamp");
                let session_percent = get_u64(fields, "session_percent");
                let weekly_all_percent = get_u64(fields, "weekly_all_percent");
                let weekly_sonnet_percent = get_u64(fields, "weekly_sonnet_percent");
                out.push(
                    HistoryEntry {
                        timestamp,
                        session_percent,
                        weekly_all_percent,
                        weekly_sonnet_percent,
                    },
                );
            },
            _ => {},
        }
        i = i + 1;
    }
    proof {
        assert(items@.take(n as int) =~= items@);
    }
    out
}

} // verus!

//! The log scanner: walks every per-project session index and selects the
//! sessions whose creation or last-modification date, truncated to calendar
//! granularity, equals the target date. A path discovered by two index
//! files is reported twice; callers aggregate what they are handed.

use crate::chars::{date_prefix, date_prefix_spec, str_eq};
use crate::jsonext::{json_of, parse_json};
use crate::jsonmodel::{field_of, get_text, get_u64, text_field, u64_field, JsonValue};
use crate::sat64;
use vstd::prelude::*;

verus! {

/// One session referenced by an index: where its log lives and when it was
/// created and last modified, as ISO date-time text.
#[derive(Clone)]
pub struct SessionEntry {
    pub full_path: String,
    pub created: String,
    pub modified: String,
    pub message_count: u64,
}

/// One per-project session index.
#[derive(Clone)]
pub struct SessionsIndex {
    pub entries: Vec<SessionEntry>,
}

/// The entry belongs to the target date: its creation or modification
/// date-prefix equals it.
pub open spec fn entry_matches(e: SessionEntry, d: Seq<char>) -> bool {
    date_prefix_spec(e.created@) == d || date_prefix_spec(e.modified@) == d
}

/// How many entries match the date, saturating.
pub open spec fn scan_count(entries: Seq<SessionEntry>, d: Seq<char>) -> int
    decreases entries.len(),
{
    if entries.len() == 0 {
        0
    } else {
        sat64(
            scan_count(entries.drop_last(), d) + if entry_matches(entries.last(), d) {
                1int
            } else {
                0int
            },
        )
    }
}

/// The log paths of the matching entries, in index order, empty paths left
/// out.
pub open spec fn scan_paths(entries: Seq<SessionEntry>, d: Seq<char>) -> Seq<Seq<char>>
    decreases entries.len(),
{
    if entries.len() == 0 {
        Seq::empty()
    } else {
        let prior = scan_paths(entries.drop_last(), d);
        let e = entries.last();
        if entry_matches(e, d) && e.full_path@.len() > 0 {
            prior.push(e.full_path@)
        } else {
            prior
        }
    }
}

/// Every index's entries, in index order.
pub open spec fn all_entries(indexes: Seq<SessionsIndex>) -> Seq<SessionEntry>
    decreases indexes.len(),
{
    if indexes.len() == 0 {
        Seq::empty()
    } else {
        all_entries(indexes.drop_last()) + indexes.last().entries@
    }
}

/// Every matching entry with a non-empty path is in the scan result.
pub proof fn lemma_scan_includes(entries: Seq<SessionEntry>, d: Seq<char>, i: int)
    requires
        0 <= i < entries.len(),
        entry_matches(entries[i], d),
        entries[i].full_path@.len() > 0,
    ensures
        scan_paths(entries, d).contains(entries[i].full_path@),
    decreases entries.len(),
{
    let e = entries[i];
    if i == entries.len() - 1 {
        let r = scan_paths(entries, d);
        assert(r.last() == e.full_path@);
        assert(r[r.len() - 1] == e.full_path@);
    } else {
        lemma_scan_includes(entries.drop_last(), d, i);
        let prior = scan_paths(entries.drop_last(), d);
        let k = choose|k: int| 0 <= k < prior.len() && prior[k] == e.full_path@;
        assert(scan_paths(entries, d)[k] == e.full_path@);
    }
}

/// Selects, over every index, the sessions active on `target_date`: how
/// many entries match, and the non-empty log paths of the matching
/// entries.
pub fn scan_sessions_for_date(indexes: &Vec<SessionsIndex>, target_date: &str) -> (r: (
    u64,
    Vec<String>,
))
    ensures
        r.0 == scan_count(all_entries(indexes@), target_date@),
        r.1.deep_view() == scan_paths(all_entries(indexes@), target_date@),
{
    let mut count: u64 = 0;
    let mut paths: Vec<String> = Vec::new();
    let ghost mut processed: Seq<SessionEntry> = Seq::empty();
    let nf: usize = indexes.len();
    let mut f: usize = 0;
    proof {
        assert(processed =~= all_entries(indexes@.take(0)));
        assert(paths.deep_view() =~= scan_paths(processed, target_date@));
    }
    while f < nf
        invariant
            nf == indexes@.len(),
            0 <= f <= nf,
            processed == all_entries(indexes@.take(f as int)),
            count == scan_count(processed, target_date@),
            paths.deep_view() == scan_paths(processed, target_date@),
        decreases nf - f,
    {
        let entries = &indexes[f].entries;
        let ne: usize = entries.len();
        let mut j: usize = 0;
        proof {
            assert(processed + entries@.take(0) =~= processed);
        }
        while j < ne
            invariant
                nf == indexes@.len(),
                0 <= f < nf,
                ne == entries@.len(),
                entries@ == indexes@[f as int].entries@,
                0 <= j <= ne,
                processed == all_entries(indexes@.take(f as int)) + entries@.take(j as int),
                count == scan_count(processed, target_date@),
                paths.deep_view() == scan_paths(processed, target_date@),
            decreases ne - j,
        {
            let e = &entries[j];
            proof {
                assert(processed.push(entries@[j as int]) =~= all_entries(
                    indexes@.take(f as int),
                ) + entries@.take(j + 1));
            }
            let created_date = date_prefix(e.created.as_str());
            let modified_date = date_prefix(e.modified.as_str());
            let matched = str_eq(created_date.as_str(), target_date) || str_eq(
                modified_date.as_str(),
                target_date,
            );
            let ghost prev = processed;
            proof {
                processed = processed.push(entries@[j as int]);
                assert(processed.drop_last() =~= prev);
                assert(processed.last() == entries@[j as int]);
            }
            if matched {
                count = count.saturating_add(1);
                if e.full_path.unicode_len() > 0 {
                    let ghost prev_paths = paths.deep_view();
                    paths.push(e.full_path.clone());
                    proof {
                        assert(paths.deep_view() =~= prev_paths.push(e.full_path@));
                    }
                }
            }
            j = j + 1;
        }
        proof {
            assert(entries@.take(ne as int) =~= entries@);
            assert(indexes@.take(f + 1).drop_last() =~= indexes@.take(f as int));
            assert(indexes@.take(f + 1).last() == indexes@[f as int]);
            assert(processed =~= all_entries(indexes@.take(f + 1)));
        }
        f = f + 1;
    }
    proof {
        assert(indexes@.take(nf as int) =~= indexes@);
    }
    (count, paths)
}

/// What one index entry holds, as views: path, created, modified,
/// message count, each field read with its default.
pub open spec fn entry_view_of(fields: Seq<(String, JsonValue)>) -> (
    Seq<char>,
    Seq<char>,
    Seq<char>,
    u64,
) {
    (
        text_field(fields, "fullPath"@),
        text_field(fields, "created"@),
        text_field(fields, "modified"@),
        u64_field(fields, "messageCount"@),
    )
}

/// The entries a JSON array denotes, in order; an element that is no
/// object is no entry.
pub open spec fn index_items_of(items: Seq<JsonValue>) -> Seq<(Seq<char>, Seq<char>, Seq<char>, u64)>
    decreases items.len(),
{
    if items.len() == 0 {
        Seq::empty()
    } else {
        let prior = index_items_of(items.drop_last());
        match items.last() {
            JsonValue::Fields(fields) => prior.push(entry_view_of(fields@)),
            _ => prior,
        }
    }
}

/// The entries a parsed index document denotes: its `entries` array, or
/// nothing where the document is no object or holds none.
pub open spec fn index_of(doc: Option<JsonValue>) -> Seq<(Seq<char>, Seq<char>, Seq<char>, u64)> {
    match doc {
        Option::Some(JsonValue::Fields(fields)) => match field_of(fields@, "entries"@) {
            Option::Some(JsonValue::Items(items)) => index_items_of(items@),
            _ => Seq::empty(),
        },
        _ => Seq::empty(),
    }
}

/// The entry carries exactly these views.
pub open spec fn entry_matches_view(e: SessionEntry, v: (Seq<char>, Seq<char>, Seq<char>, u64)) -> bool {
    e.full_path@ == v.0 && e.created@ == v.1 && e.modified@ == v.2 && e.message_count == v.3
}

/// Reads one session-index file: exactly the entries `index_of` makes of
/// the bytes. A malformed document, one that is no object, or one
/// without an entry array contributes no entries; an element that is no
/// object is skipped; within one, a missing or ill-typed field takes its
/// default.
pub fn parse_sessions_index(content: &[u8]) -> (r: SessionsIndex)
    ensures
        r.entries@.len() == index_of(json_of(content@)).len(),
        forall|i: int|
            0 <= i < r.entries@.len() ==> entry_matches_view(
                r.entries@[i],
                #[trigger] index_of(json_of(content@))[i],
            ),
{
    let mut entries: Vec<SessionEntry> = Vec::new();
    let doc = parse_json(content);
    let fields = match &doc {
        Option::Some(JsonValue::Fields(fields)) => fields,
        _ => {
            return SessionsIndex { entries };
        },
    };
    let items = match crate::jsonmodel::get_field(fields, "entries") {
        Option::Some(JsonValue::Items(items)) => items,
        _ => {
            return SessionsIndex { entries };
        },
    };
    let n: usize = items.len();
    let mut i: usize = 0;
    let ghost views = index_items_of(items@);
    proof {
        assert(items@.take(0) =~= Seq::<JsonValue>::empty());
    }
    while i < n
        invariant
            n == items@.len(),
            0 <= i <= n,
            entries@.len() == index_items_of(items@.take(i as int)).len(),
            forall|j: int|
                0 <= j < entries@.len() ==> entry_matches_view(
                    entries@[j],
                    #[trigger] index_items_of(items@.take(i as int))[j],
                ),
        decreases n - i,
    {
        proof {
            assert(items@.take(i + 1).drop_last() =~= items@.take(i as int));
            assert(items@.take(i + 1).last() == items@[i as int]);
        }
        match &items[i] {
            JsonValue::Fields(fields) => {
                let full_path = get_text(fields, "fullPath");
                let created = get_text(fields, "created");
                let modified = get_text(fields, "modified");
                let message_count = get_u64(fields, "messageCount");
                entries.push(SessionEntry { full_path, created, modified, message_count });
            },
            _ => {},
        }
        i = i + 1;
    }
    proof {
        assert(items@.take(n as int) =~= items@);
    }
    SessionsIndex { entries }
}

} // verus!

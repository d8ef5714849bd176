//! The event aggregator: counts messages, tokens and per-model token
//! attribution over parsed journal events, with an optional trailing time
//! window, and counts tool invocations by a textual scan of the raw lines.
//!
//! A journal line is one JSON record; a line that is not a JSON object is
//! skipped, and a missing or ill-typed field degrades to its default
//! rather than discarding the line. Specifications speak of an event's
//! *view* — its kind, time stamp, model-name characters and usage — so
//! that what a set of log bodies aggregates to is a function of the bytes
//! alone.

use crate::bucket::{bucket_add, bucket_get, ModelTokenBucket};
use crate::jsonext::{json_of, parse_json};
use crate::jsonmodel::{field_of, get_field, get_text, get_u64, text_field, u64_field, JsonValue};
use crate::modelname::{simplify_model, simplify_model_spec};
use crate::sat64;
use crate::text::{contains_bytes, has_sub, lines_of, split_lines};
use crate::timeparse::{parse_rfc3339_secs, ts_num_of};
use vstd::prelude::*;

verus! {

/// The kind of one journal record.
#[derive(Clone, Copy, PartialEq, Eq, Structural)]
pub enum EventKind {
    User,
    Assistant,
    Other,
}

/// Token usage carried by an assistant record.
#[derive(Clone, Copy, PartialEq, Eq, Structural)]
pub struct TokenUsage {
    pub input_tokens: u64,
    pub output_tokens: u64,
}

/// One parsed journal record: its kind, its time stamp read as seconds
/// since the Unix epoch (`None` when absent or unreadable), the raw model
/// name, and its token usage if it carries one.
#[derive(Clone)]
pub struct JournalEvent {
    pub kind: EventKind,
    pub ts: Option<i64>,
    pub model: String,
    pub usage: Option<TokenUsage>,
}

/// An event's view: kind, time stamp, model-name characters, usage.
pub type EventView = (EventKind, Option<i64>, Seq<char>, Option<TokenUsage>);

/// The view one event carries.
pub open spec fn ev(e: JournalEvent) -> EventView {
    (e.kind, e.ts, e.model@, e.usage)
}

/// The views a sequence of events carries, in order.
pub open spec fn evs(s: Seq<JournalEvent>) -> Seq<EventView> {
    Seq::new(s.len(), |i: int| ev(s[i]))
}

/// An event falls inside the window: no window means every event, a cutoff
/// admits exactly the events whose time stamp parsed and is at or after it.
pub open spec fn included(v: EventView, cutoff: Option<i64>) -> bool {
    match cutoff {
        Option::None => true,
        Option::Some(c) => match v.1 {
            Option::Some(t) => t >= c,
            Option::None => false,
        },
    }
}

/// User and assistant records both count as messages.
pub open spec fn is_message(v: EventView) -> bool {
    v.0 is User || v.0 is Assistant
}

/// The tokens an event contributes: input plus output of an assistant
/// record's usage, saturating; other records contribute nothing.
pub open spec fn counted_tokens(v: EventView) -> int {
    if v.0 is Assistant {
        match v.3 {
            Option::Some(u) => sat64(u.input_tokens + u.output_tokens),
            Option::None => 0,
        }
    } else {
        0
    }
}

/// Messages among the events that fall inside the window.
pub open spec fn msg_count(views: Seq<EventView>, cutoff: Option<i64>) -> int
    decreases views.len(),
{
    if views.len() == 0 {
        0
    } else {
        sat64(
            msg_count(views.drop_last(), cutoff) + if included(views.last(), cutoff) && is_message(
                views.last(),
            ) {
                1int
            } else {
                0int
            },
        )
    }
}

/// Total tokens among the events that fall inside the window, saturating.
pub open spec fn tok_sum(views: Seq<EventView>, cutoff: Option<i64>) -> int
    decreases views.len(),
{
    if views.len() == 0 {
        0
    } else {
        sat64(
            tok_sum(views.drop_last(), cutoff) + if included(views.last(), cutoff) {
                counted_tokens(views.last())
            } else {
                0int
            },
        )
    }
}

/// The per-model attribution of the same tokens, keyed by normalized model
/// name.
pub open spec fn bucket_of(views: Seq<EventView>, cutoff: Option<i64>) -> Map<Seq<char>, u64>
    decreases views.len(),
{
    if views.len() == 0 {
        Map::empty()
    } else {
        let m = bucket_of(views.drop_last(), cutoff);
        let v = views.last();
        if included(v, cutoff) && v.0 is Assistant && v.3 is Some {
            bucket_add(m, simplify_model_spec(v.2), sat64(counted_tokens(v)) as u64)
        } else {
            m
        }
    }
}

/// Counts messages and tokens over `events`, attributing tokens to
/// normalized model names, within the optional trailing window.
pub fn aggregate_events(events: &Vec<JournalEvent>, cutoff: Option<i64>) -> (r: (
    u64,
    u64,
    ModelTokenBucket,
))
    ensures
        r.0 == msg_count(evs(events@), cutoff),
        r.1 == tok_sum(evs(events@), cutoff),
        r.2.wf(),
        r.2@ == bucket_of(evs(events@), cutoff),
{
    let ghost vs = evs(events@);
    let n: usize = events.len();
    let mut msgs: u64 = 0;
    let mut toks: u64 = 0;
    let mut bucket = ModelTokenBucket::new();
    let mut i: usize = 0;
    proof {
        assert(vs.take(0) =~= Seq::<EventView>::empty());
    }
    while i < n
        invariant
            n == events@.len(),
            vs == evs(events@),
            vs.len() == n,
            0 <= i <= n,
            msgs == msg_count(vs.take(i as int), cutoff),
            toks == tok_sum(vs.take(i as int), cutoff),
            bucket.wf(),
            bucket@ == bucket_of(vs.take(i as int), cutoff),
        decreases n - i,
    {
        let e = &events[i];
        proof {
            assert(vs.take(i + 1).drop_last() =~= vs.take(i as int));
            assert(vs.take(i + 1).last() == vs[i as int]);
            assert(vs[i as int] == ev(events@[i as int]));
        }
        let inside = match cutoff {
            Option::None => true,
            Option::Some(c) => match e.ts {
                Option::Some(t) => t >= c,
                Option::None => false,
            },
        };
        if inside {
            match e.kind {
                EventKind::User => {
                    msgs = msgs.saturating_add(1);
                },
                EventKind::Assistant => {
                    msgs = msgs.saturating_add(1);
                    match &e.usage {
                        Option::Some(u) => {
                            let t = u.input_tokens.saturating_add(u.output_tokens);
                            toks = toks.saturating_add(t);
                            let key = simplify_model(e.model.as_str());
                            bucket.add_tokens(key, t);
                        },
                        Option::None => {},
                    }
                },
                EventKind::Other => {},
            }
        }
        i = i + 1;
    }
    proof {
        assert(vs.take(n as int) =~= vs);
    }
    (msgs, toks, bucket)
}

/// Window counts are counts: never negative, never past the saturation
/// ceiling.
pub proof fn lemma_counts_bounds(views: Seq<EventView>, cutoff: Option<i64>)
    ensures
        0 <= msg_count(views, cutoff) <= u64::MAX,
        0 <= tok_sum(views, cutoff) <= u64::MAX,
    decreases views.len(),
{
    if views.len() > 0 {
        lemma_counts_bounds(views.drop_last(), cutoff);
    }
}

/// Aggregating under a cutoff is aggregating, without a window, exactly
/// the events whose time stamp parsed and is at or after the cutoff: every
/// earlier or unreadable event is excluded, every event at or after the
/// cutoff is included.
pub proof fn lemma_window_is_filter(views: Seq<EventView>, c: i64)
    ensures
        msg_count(views, Option::Some(c)) == msg_count(
            views.filter(|v: EventView| included(v, Option::Some(c))),
            Option::None,
        ),
        tok_sum(views, Option::Some(c)) == tok_sum(
            views.filter(|v: EventView| included(v, Option::Some(c))),
            Option::None,
        ),
        bucket_of(views, Option::Some(c)) == bucket_of(
            views.filter(|v: EventView| included(v, Option::Some(c))),
            Option::None,
        ),
    decreases views.len(),
{
    reveal(Seq::filter);
    let pred = |v: EventView| included(v, Option::Some(c));
    if views.len() > 0 {
        let dl = views.drop_last();
        let v = views.last();
        lemma_window_is_filter(dl, c);
        lemma_counts_bounds(dl, Option::Some(c));
        if pred(v) {
            assert(views.filter(pred) == dl.filter(pred).push(v));
            assert(views.filter(pred).drop_last() =~= dl.filter(pred));
            assert(views.filter(pred).last() == v);
        } else {
            assert(views.filter(pred) == dl.filter(pred));
        }
    }
}

/// No single model's bucket exceeds the total counted for the same
/// scope: the association of tokens to model names only splits the total
/// up.
pub proof fn lemma_bucket_within_total(views: Seq<EventView>, cutoff: Option<i64>, k: Seq<char>)
    ensures
        bucket_get(bucket_of(views, cutoff), k) <= tok_sum(views, cutoff),
    decreases views.len(),
{
    if views.len() > 0 {
        let dl = views.drop_last();
        lemma_bucket_within_total(dl, cutoff, k);
        lemma_counts_bounds(dl, cutoff);
    }
}

/// The kind a record's `type` field denotes.
pub open spec fn event_kind_of(fields: Seq<(String, JsonValue)>) -> EventKind {
    let t = text_field(fields, "type"@);
    if t == "user"@ {
        EventKind::User
    } else if t == "assistant"@ {
        EventKind::Assistant
    } else {
        EventKind::Other
    }
}

/// The epoch-seconds reading of a record's `timestamp` field, `None`
/// where it is absent, no text, or no date-time.
pub open spec fn event_ts_of(fields: Seq<(String, JsonValue)>) -> Option<i64> {
    match field_of(fields, "timestamp"@) {
        Option::Some(JsonValue::Text(s)) => ts_num_of(s@),
        _ => Option::None,
    }
}

/// The model name a record's `message` object carries, empty without
/// one.
pub open spec fn event_model_of(fields: Seq<(String, JsonValue)>) -> Seq<char> {
    match field_of(fields, "message"@) {
        Option::Some(JsonValue::Fields(m)) => text_field(m@, "model"@),
        _ => Seq::empty(),
    }
}

/// The usage a record's `message.usage` object carries, if any.
pub open spec fn event_usage_of(fields: Seq<(String, JsonValue)>) -> Option<TokenUsage> {
    match field_of(fields, "message"@) {
        Option::Some(JsonValue::Fields(m)) => match field_of(m@, "usage"@) {
            Option::Some(JsonValue::Fields(u)) => Option::Some(
                TokenUsage {
                    input_tokens: u64_field(u@, "input_tokens"@),
                    output_tokens: u64_field(u@, "output_tokens"@),
                },
            ),
            _ => Option::None,
        },
        _ => Option::None,
    }
}

/// The event view one parsed line denotes: `None` where the line is no
/// JSON object.
pub open spec fn event_of(doc: Option<JsonValue>) -> Option<EventView> {
    match doc {
        Option::Some(JsonValue::Fields(fields)) => Option::Some(
            (
                event_kind_of(fields@),
                event_ts_of(fields@),
                event_model_of(fields@),
                event_usage_of(fields@),
            ),
        ),
        _ => Option::None,
    }
}

/// Parses one journal line: exactly the event `event_of` makes of it. A
/// line that is no JSON object is no record; within a record, a missing
/// or ill-typed field takes its default.
pub fn parse_journal_line(line: &[u8]) -> (r: Option<JournalEvent>)
    ensures
        match r {
            Option::Some(e) => event_of(json_of(line@)) == Option::Some(ev(e)),
            Option::None => event_of(json_of(line@)) is None,
        },
{
    let doc = parse_json(line);
    let fields = match &doc {
        Option::Some(JsonValue::Fields(fields)) => fields,
        _ => {
            return Option::None;
        },
    };
    let t = get_text(fields, "type");
    let kind = if crate::chars::str_eq(t.as_str(), "user") {
        EventKind::User
    } else if crate::chars::str_eq(t.as_str(), "assistant") {
        EventKind::Assistant
    } else {
        EventKind::Other
    };
    let ts = match get_field(fields, "timestamp") {
        Option::Some(v) => match v {
            JsonValue::Text(s) => parse_rfc3339_secs(s.as_str()),
            _ => Option::None,
        },
        Option::None => Option::None,
    };
    let mut model = String::new();
    let mut usage: Option<TokenUsage> = Option::None;
    match get_field(fields, "message") {
        Option::Some(v) => match v {
            JsonValue::Fields(m) => {
                model = get_text(m, "model");
                match get_field(m, "usage") {
                    Option::Some(uv) => match uv {
                        JsonValue::Fields(u) => {
                            usage = Option::Some(
                                TokenUsage {
                                    input_tokens: get_u64(u, "input_tokens"),
                                    output_tokens: get_u64(u, "output_tokens"),
                                },
                            );
                        },
                        _ => {},
                    },
                    Option::None => {},
                }
            },
            _ => {},
        },
        Option::None => {},
    }
    Option::Some(JournalEvent { kind, ts, model, usage })
}

/// The event views one log body's lines denote, in order, lines that are
/// no record left out.
pub open spec fn line_event_views(lines: Seq<Seq<u8>>) -> Seq<EventView>
    decreases lines.len(),
{
    if lines.len() == 0 {
        Seq::empty()
    } else {
        line_event_views(lines.drop_last()) + (match event_of(json_of(lines.last())) {
            Option::Some(v) => seq![v],
            Option::None => Seq::empty(),
        })
    }
}

/// The event views a whole set of log bodies denotes, file by file.
pub open spec fn file_event_views(files: Seq<Seq<u8>>) -> Seq<EventView>
    decreases files.len(),
{
    if files.len() == 0 {
        Seq::empty()
    } else {
        file_event_views(files.drop_last()) + line_event_views(lines_of(files.last()))
    }
}

/// Parses every line of every log body into events: exactly the events
/// whose views `file_event_views` reads off the bytes, in order.
pub fn collect_events(contents: &Vec<Vec<u8>>) -> (r: Vec<JournalEvent>)
    ensures
        evs(r@) == file_event_views(contents.deep_view()),
{
    let ghost cdv = contents.deep_view();
    let mut events: Vec<JournalEvent> = Vec::new();
    let nf: usize = contents.len();
    let mut f: usize = 0;
    proof {
        assert(cdv.take(0) =~= Seq::<Seq<u8>>::empty());
        assert(evs(events@) =~= file_event_views(cdv.take(0)));
    }
    while f < nf
        invariant
            nf == contents@.len(),
            cdv == contents.deep_view(),
            cdv.len() == nf,
            0 <= f <= nf,
            evs(events@) == file_event_views(cdv.take(f as int)),
        decreases nf - f,
    {
        let lines = split_lines(contents[f].as_slice());
        let ghost ldv = lines.deep_view();
        proof {
            assert(contents@[f as int]@ =~= cdv[f as int]);
            assert(ldv == lines_of(cdv[f as int]));
            assert(ldv.take(0) =~= Seq::<Seq<u8>>::empty());
            assert(evs(events@) + line_event_views(ldv.take(0)) =~= evs(events@));
        }
        let ghost before_file = evs(events@);
        let nl: usize = lines.len();
        let mut l: usize = 0;
        while l < nl
            invariant
                nl == lines@.len(),
                ldv == lines.deep_view(),
                ldv.len() == nl,
                0 <= l <= nl,
                evs(events@) == before_file + line_event_views(ldv.take(l as int)),
            decreases nl - l,
        {
            proof {
                assert(ldv.take(l + 1).drop_last() =~= ldv.take(l as int));
                assert(ldv.take(l + 1).last() == ldv[l as int]);
                assert(lines@[l as int]@ =~= ldv[l as int]);
            }
            match parse_journal_line(lines[l].as_slice()) {
                Option::Some(e) => {
                    let ghost prev = evs(events@);
                    events.push(e);
                    proof {
                        assert(evs(events@) =~= prev.push(ev(e)));
                        assert(evs(events@) =~= before_file + line_event_views(ldv.take(l + 1)));
                    }
                },
                Option::None => {
                    proof {
                        assert(line_event_views(ldv.take(l + 1)) =~= line_event_views(
                            ldv.take(l as int),
                        ));
                    }
                },
            }
            l = l + 1;
        }
        proof {
            assert(ldv.take(nl as int) =~= ldv);
            assert(cdv.take(f + 1).drop_last() =~= cdv.take(f as int));
            assert(cdv.take(f + 1).last() == cdv[f as int]);
            assert(evs(events@) =~= file_event_views(cdv.take(f + 1)));
        }
        f = f + 1;
    }
    proof {
        assert(cdv.take(nf as int) =~= cdv);
    }
    events
}

/// The tool-invocation marker as it appears without a space after the
/// colon.
pub open spec fn marker_plain() -> Seq<u8> {
    seq![
        34u8,
        116u8,
        121u8,
        112u8,
        101u8,
        34u8,
        58u8,
        34u8,
        116u8,
        111u8,
        111u8,
        108u8,
        95u8,
        117u8,
        115u8,
        101u8,
        34u8,
    ]
}

/// The same marker with one space after the colon.
pub open spec fn marker_spaced() -> Seq<u8> {
    seq![
        34u8,
        116u8,
        121u8,
        112u8,
        101u8,
        34u8,
        58u8,
        32u8,
        34u8,
        116u8,
        111u8,
        111u8,
        108u8,
        95u8,
        117u8,
        115u8,
        101u8,
        34u8,
    ]
}

fn marker_plain_exec() -> (r: Vec<u8>)
    ensures
        r@ == marker_plain(),
{
    let r: Vec<u8> = vec![34u8, 116, 121, 112, 101, 34, 58, 34, 116, 111, 111, 108, 95, 117, 115, 101, 34];
    proof {
        assert(r@ =~= marker_plain());
    }
    r
}

fn marker_spaced_exec() -> (r: Vec<u8>)
    ensures
        r@ == marker_spaced(),
{
    let r: Vec<u8> = vec![34u8, 116, 121, 112, 101, 34, 58, 32, 34, 116, 111, 111, 108, 95, 117, 115, 101, 34];
    proof {
        assert(r@ =~= marker_spaced());
    }
    r
}

/// A line that mentions a tool invocation, in either spelling.
pub open spec fn is_tool_line(line: Seq<u8>) -> bool {
    has_sub(line, marker_plain()) || has_sub(line, marker_spaced())
}

/// How many lines of one log body mention a tool invocation, saturating.
pub open spec fn tool_line_count(lines: Seq<Seq<u8>>) -> int
    decreases lines.len(),
{
    if lines.len() == 0 {
        0
    } else {
        sat64(
            tool_line_count(lines.drop_last()) + if is_tool_line(lines.last()) {
                1int
            } else {
                0int
            },
        )
    }
}

/// The tool-invocation count over a whole set of log bodies, saturating.
pub open spec fn tool_count_of(contents: Seq<Seq<u8>>) -> int
    decreases contents.len(),
{
    if contents.len() == 0 {
        0
    } else {
        sat64(tool_count_of(contents.drop_last()) + tool_line_count(lines_of(contents.last())))
    }
}

/// Counts, over every log body, the lines that mention a tool invocation.
/// This is a textual scan, not a structural parse: an approximation the
/// format's users accept.
pub fn count_tool_calls(contents: &Vec<Vec<u8>>) -> (r: u64)
    ensures
        r == tool_count_of(contents.deep_view()),
{
    let plain = marker_plain_exec();
    let spaced = marker_spaced_exec();
    let mut total: u64 = 0;
    let nf: usize = contents.len();
    let mut f: usize = 0;
    proof {
        assert(contents.deep_view().take(0) =~= Seq::<Seq<u8>>::empty());
    }
    while f < nf
        invariant
            nf == contents@.len(),
            nf == contents.deep_view().len(),
            0 <= f <= nf,
            plain@ == marker_plain(),
            spaced@ == marker_spaced(),
            total == tool_count_of(contents.deep_view().take(f as int)),
        decreases nf - f,
    {
        let lines = split_lines(contents[f].as_slice());
        let mut file_count: u64 = 0;
        let nl: usize = lines.len();
        let mut l: usize = 0;
        proof {
            assert(lines.deep_view().take(0) =~= Seq::<Seq<u8>>::empty());
        }
        while l < nl
            invariant
                nl == lines@.len(),
                nl == lines.deep_view().len(),
                0 <= l <= nl,
                plain@ == marker_plain(),
                spaced@ == marker_spaced(),
                file_count == tool_line_count(lines.deep_view().take(l as int)),
            decreases nl - l,
        {
            proof {
                assert(lines.deep_view().take(l + 1).drop_last() =~= lines.deep_view().take(
                    l as int,
                ));
                assert(lines.deep_view().take(l + 1).last() == lines.deep_view()[l as int]);
                assert(lines.deep_view()[l as int] =~= lines@[l as int]@);
            }
            let line = lines[l].as_slice();
            if contains_bytes(line, plain.as_slice()) || contains_bytes(line, spaced.as_slice()) {
                file_count = file_count.saturating_add(1);
            }
            l = l + 1;
        }
        proof {
            assert(lines.deep_view().take(nl as int) =~= lines.deep_view());
            assert(lines.deep_view() == lines_of(contents@[f as int]@));
            assert(contents.deep_view().take(f + 1).drop_last() =~= contents.deep_view().take(
                f as int,
            ));
            assert(contents.deep_view().take(f + 1).last() == contents.deep_view()[f as int]);
            assert(contents.deep_view()[f as int] =~= contents@[f as int]@);
        }
        total = total.saturating_add(file_count);
        f = f + 1;
    }
    proof {
        assert(contents.deep_view().take(nf as int) =~= contents.deep_view());
    }
    total
}

/// Reads a set of log bodies and aggregates them: messages, tool
/// invocations, total tokens and the per-model attribution, within the
/// optional trailing window — each pinned exactly from the bytes.
pub fn parse_jsonl_files(contents: &Vec<Vec<u8>>, cutoff: Option<i64>) -> (r: (
    u64,
    u64,
    u64,
    ModelTokenBucket,
))
    ensures
        r.0 == msg_count(file_event_views(contents.deep_view()), cutoff),
        r.1 == tool_count_of(contents.deep_view()),
        r.2 == tok_sum(file_event_views(contents.deep_view()), cutoff),
        r.3.wf(),
        r.3@ == bucket_of(file_event_views(contents.deep_view()), cutoff),
{
    let events = collect_events(contents);
    let (msgs, toks, bucket) = aggregate_events(&events, cutoff);
    let tools = count_tool_calls(contents);
    (msgs, tools, toks, bucket)
}

} // verus!

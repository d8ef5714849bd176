//! The polling decisions: how one refresh cycle folds the freshly computed
//! local figures and the remote fetch's outcome into the shared snapshot,
//! how the consecutive-failure counter moves, and which display status the
//! health derives. The host runs the timed loop and the fetch; every
//! decision is made here.

use crate::history::HistoryEntry;
use crate::snapshot::{local_wf, usage_wf, LocalUsage, UsageData};
use vstd::prelude::*;

verus! {

/// Consecutive failed cycles at which the display demands attention.
pub const FAILURE_THRESHOLD: u32 = 3;

/// The remote quota read-out, as the fetch collaborator hands it over:
/// untrusted, any field may be zero, and a set `error` poisons the whole
/// payload.
#[derive(Clone)]
pub struct RemotePayload {
    pub session_percent: u64,
    pub session_reset_minutes: i64,
    pub weekly_all_percent: u64,
    pub weekly_sonnet_percent: u64,
    pub monthly_cost: u64,
    pub monthly_limit: u64,
    pub error: Option<String>,
}

/// The refresh loop's health: how many cycles in a row ended without an
/// accepted remote update.
#[derive(Clone, Copy, PartialEq, Eq, Structural)]
pub struct PollHealth {
    pub consecutive_failures: u32,
}

/// What the host surface should show.
#[derive(Clone, Copy, PartialEq, Eq, Structural, Debug)]
pub enum DisplayStatus {
    /// The remote source has stopped answering: most likely a login is
    /// required upstream.
    ActionRequired,
    /// Remote data has been accepted at least once; show the figures.
    Connected,
    /// No remote data yet; show a placeholder.
    Initializing,
}

/// A payload updates the snapshot exactly when it is present and carries
/// no error.
pub open spec fn payload_accepted(remote: Option<RemotePayload>) -> bool {
    match remote {
        Option::Some(p) => p.error is None,
        Option::None => false,
    }
}

/// The failure counter after a cycle: an accepted update resets it, any
/// other outcome moves it up by exactly one, saturating only at the very
/// top of `u32`.
pub open spec fn next_failures(f: u32, accepted: bool) -> u32 {
    if accepted {
        0
    } else if f < u32::MAX {
        (f + 1) as u32
    } else {
        f
    }
}

/// The status a failure count and the connected flag derive.
pub open spec fn status_of(f: u32, connected: bool) -> DisplayStatus {
    if f >= FAILURE_THRESHOLD {
        DisplayStatus::ActionRequired
    } else if connected {
        DisplayStatus::Connected
    } else {
        DisplayStatus::Initializing
    }
}

/// The health counter moves in lockstep with cycle outcomes: up by
/// exactly one on a cycle without an accepted update, back to zero on any
/// accepted one; the display demands attention exactly from the third
/// consecutive failure on, and reverts immediately on success.
pub proof fn lemma_health_transitions(f: u32, connected: bool)
    ensures
        next_failures(f, true) == 0,
        f < u32::MAX ==> next_failures(f, false) == f + 1,
        status_of(next_failures(f, true), connected) != DisplayStatus::ActionRequired,
        f + 1 >= FAILURE_THRESHOLD && f < u32::MAX ==> status_of(next_failures(f, false), connected)
            == DisplayStatus::ActionRequired,
        f + 1 < FAILURE_THRESHOLD ==> status_of(next_failures(f, false), connected)
            != DisplayStatus::ActionRequired,
{
}

/// Derives the display status from the health counter and the snapshot's
/// connected flag.
pub fn display_status(health: &PollHealth, connected: bool) -> (r: DisplayStatus)
    ensures
        r == status_of(health.consecutive_failures, connected),
{
    if health.consecutive_failures >= FAILURE_THRESHOLD {
        DisplayStatus::ActionRequired
    } else if connected {
        DisplayStatus::Connected
    } else {
        DisplayStatus::Initializing
    }
}

/// Folds one refresh cycle into the snapshot. The local fields always
/// refresh; the remote fields, the connected flag and `last_updated`
/// change only on an accepted payload, which also resets the failure
/// counter and yields the reading to append to the history. Any other
/// outcome leaves every remote field as it was and counts one more
/// failure.
pub fn apply_cycle(
    snap: &mut UsageData,
    health: &mut PollHealth,
    local: &LocalUsage,
    remote: &Option<RemotePayload>,
    now: i64,
) -> (r: Option<HistoryEntry>)
    requires
        local_wf(*local),
    ensures
        usage_wf(*final(snap)),
        final(snap).today_messages == local.today_messages,
        final(snap).today_tool_calls == local.today_tool_calls,
        final(snap).today_sessions == local.today_sessions,
        final(snap).today_tokens == local.today_tokens,
        final(snap).opus_tokens == local.opus_tokens,
        final(snap).sonnet_tokens == local.sonnet_tokens,
        final(snap).weekly_daily@ == local.weekly_daily@,
        final(snap).last5h_tokens == local.last5h_tokens,
        final(snap).usage_percent == local.usage_percent,
        final(snap).last_active_date@ == local.last_active_date@,
        final(health).consecutive_failures == next_failures(
            old(health).consecutive_failures,
            payload_accepted(*remote),
        ),
        payload_accepted(*remote) ==> ({
            let p = remote->0;
            &&& final(snap).session_percent == p.session_percent
            &&& final(snap).session_reset_minutes == p.session_reset_minutes
            &&& final(snap).weekly_all_percent == p.weekly_all_percent
            &&& final(snap).weekly_sonnet_percent == p.weekly_sonnet_percent
            &&& final(snap).monthly_cost == p.monthly_cost
            &&& final(snap).monthly_limit == p.monthly_limit
            &&& final(snap).web_connected
            &&& final(snap).last_updated == now
            &&& r == Option::Some(
                HistoryEntry {
                    timestamp: now,
                    session_percent: p.session_percent,
                    weekly_all_percent: p.weekly_all_percent,
                    weekly_sonnet_percent: p.weekly_sonnet_percent,
                },
            )
        }),
        !payload_accepted(*remote) ==> ({
            &&& final(snap).session_percent == old(snap).session_percent
            &&& final(snap).session_reset_minutes == old(snap).session_reset_minutes
            &&& final(snap).weekly_all_percent == old(snap).weekly_all_percent
            &&& final(snap).weekly_sonnet_percent == old(snap).weekly_sonnet_percent
            &&& final(snap).monthly_cost == old(snap).monthly_cost
            &&& final(snap).monthly_limit == old(snap).monthly_limit
            &&& final(snap).web_connected == old(snap).web_connected
            &&& final(snap).last_updated == old(snap).last_updated
            &&& r is None
        }),
{
    snap.today_messages = local.today_messages;
    snap.today_tool_calls = local.today_tool_calls;
    snap.today_sessions = local.today_sessions;
    snap.today_tokens = local.today_tokens;
    snap.opus_tokens = local.opus_tokens;
    snap.sonnet_tokens = local.sonnet_tokens;
    let weekly = local.weekly_daily.clone();
    proof {
        assert forall|i: int| 0 <= i < local.weekly_daily@.len() implies weekly@[i]
            == local.weekly_daily@[i] by {}
        assert(weekly@ =~= local.weekly_daily@);
    }
    snap.weekly_daily = weekly;
    snap.last5h_tokens = local.last5h_tokens;
    snap.usage_percent = local.usage_percent;
    snap.last_active_date = local.last_active_date.clone();
    match remote {
        Option::Some(p) => {
            if p.error.is_none() {
                snap.session_percent = p.session_percent;
                snap.session_reset_minutes = p.session_reset_minutes;
                snap.weekly_all_percent = p.weekly_all_percent;
                snap.weekly_sonnet_percent = p.weekly_sonnet_percent;
                snap.monthly_cost = p.monthly_cost;
                snap.monthly_limit = p.monthly_limit;
                snap.web_connected = true;
                snap.last_updated = now;
                health.consecutive_failures = 0;
                return Option::Some(
                    HistoryEntry {
                        timestamp: now,
                        session_percent: p.session_percent,
                        weekly_all_percent: p.weekly_all_percent,
                        weekly_sonnet_percent: p.weekly_sonnet_percent,
                    },
                );
            }
        },
        Option::None => {},
    }
    if health.consecutive_failures < u32::MAX {
        health.consecutive_failures = health.consecutive_failures + 1;
    }
    Option::None
}

} // verus!

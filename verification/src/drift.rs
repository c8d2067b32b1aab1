//! User-edit drift: a field the user pinned after the issue's archive was
//! last rewritten, so the sidecar XML no longer carries the user's value.
use vstd::prelude::*;

verus! {

/// Per-library drift summary. Series ids are the 128-bit values of their
/// UUIDs.
#[derive(Clone, Debug, PartialEq, Eq)]
pub struct DriftSummary {
    /// Distinct issues with at least one drifted pin.
    pub drifted_issue_count: u64,
    /// Distinct series containing a drifted issue.
    pub drifted_series_count: u64,
    /// Series ids (at most [`AFFECTED_SERIES_CAP`]) a flush targets.
    pub affected_series_ids: Vec<u128>,
}

/// The most series ids a summary lists.
pub const AFFECTED_SERIES_CAP: usize = 200;

impl DriftSummary {
    /// No drift.
    pub fn empty() -> (r: Self)
        ensures
            r.drifted_issue_count == 0,
            r.drifted_series_count == 0,
            r.affected_series_ids@.len() == 0,
    {
        DriftSummary { drifted_issue_count: 0, drifted_series_count: 0, affected_series_ids: Vec::new() }
    }

    pub fn is_empty(&self) -> (r: bool)
        ensures
            r == (self.drifted_issue_count == 0),
    {
        self.drifted_issue_count == 0
    }
}

/// A user pin has drifted when the archive was never rewritten, or was
/// last rewritten before the pin was set (instants in Unix milliseconds).
pub open spec fn drifted(pin_set_at_ms: i64, last_rewrite_at_ms: Option<i64>) -> bool {
    match last_rewrite_at_ms {
        None => true,
        Some(t) => pin_set_at_ms > t,
    }
}

pub fn pin_drifted(pin_set_at_ms: i64, last_rewrite_at_ms: Option<i64>) -> (r: bool)
    ensures
        r == drifted(pin_set_at_ms, last_rewrite_at_ms),
{
    match last_rewrite_at_ms {
        None => true,
        Some(t) => pin_set_at_ms > t,
    }
}

/// The summary for the counted drift: empty when no issue drifted (or
/// nothing was counted), else the counts
/// and the first [`AFFECTED_SERIES_CAP`] series ids.
pub fn drift_summary(counts: Option<(i64, i64)>, series_ids: Vec<u128>) -> (r: DriftSummary)
    ensures
        match counts {
            Some((issues, series)) => if issues == 0 {
                r.drifted_issue_count == 0 && r.drifted_series_count == 0
                    && r.affected_series_ids@.len() == 0
            } else {
                &&& r.drifted_issue_count == issues as u64
                &&& r.drifted_series_count == series as u64
                &&& r.affected_series_ids@ == series_ids@.take(
                    if series_ids@.len() < AFFECTED_SERIES_CAP { series_ids@.len() as int } else { AFFECTED_SERIES_CAP as int },
                )
            },
            None => r.drifted_issue_count == 0 && r.drifted_series_count == 0
                && r.affected_series_ids@.len() == 0,
        },
{
    let (issues, series) = match counts {
        Some(c) => c,
        None => return DriftSummary::empty(),
    };
    if issues == 0 {
        return DriftSummary::empty();
    }
    let mut ids: Vec<u128> = Vec::new();
    let mut i: usize = 0;
    while i < series_ids.len() && i < AFFECTED_SERIES_CAP
        invariant
            i <= series_ids@.len(),
            i <= AFFECTED_SERIES_CAP,
            ids@ == series_ids@.take(i as int),
        decreases series_ids@.len() - i,
    {
        ids.push(series_ids[i]);
        i = i + 1;
        assert(ids@ =~= series_ids@.take(i as int));
    }
    DriftSummary {
        drifted_issue_count: issues as u64,
        drifted_series_count: series as u64,
        affected_series_ids: ids,
    }
}

/// Drift follows time: a pin set at the very instant of the last rewrite
/// has not drifted, a pin set strictly after it has; a later pin of a
/// drifted one has drifted too, and a later rewrite never makes a pin
/// that had not drifted drift; an archive never rewritten has drifted for
/// every pin.
pub proof fn lemma_drift_follows_time(p: i64, q: i64, t: i64, u: i64)
    ensures
        !drifted(t, Some(t)),
        p > t ==> drifted(p, Some(t)),
        (drifted(p, Some(t)) && p <= q) ==> drifted(q, Some(t)),
        (!drifted(p, Some(t)) && t <= u) ==> !drifted(p, Some(u)),
        drifted(p, None),
{
}

} // verus!

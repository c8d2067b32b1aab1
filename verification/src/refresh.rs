//! Scheduled metadata refresh: which series a sweep covers and the tally
//! of the search jobs it queued.
use vstd::prelude::*;
use vstd::string::*;
use crate::text::{chars_of, eq_lit};

verus! {

/// Series a single sweep enqueues at most.
pub const REFRESH_BATCH_CAP: usize = 200;

/// Which series a refresh sweep covers.
#[derive(Copy, Clone, Debug, PartialEq, Eq, Structural)]
pub enum RefreshScope {
    /// Series without any external id.
    Unmatched,
    /// Unmatched series and those not synced within the staleness window.
    Stale,
    All,
    /// Series with an issue added within the recent window.
    Recent,
}

pub open spec fn refresh_scope_key(s: RefreshScope) -> Seq<char> {
    match s {
        RefreshScope::Unmatched => "unmatched"@,
        RefreshScope::Stale => "stale"@,
        RefreshScope::All => "all"@,
        RefreshScope::Recent => "recent"@,
    }
}

pub open spec fn refresh_scope_of(t: Seq<char>) -> Option<RefreshScope> {
    if t == "unmatched"@ {
        Some(RefreshScope::Unmatched)
    } else if t == "stale"@ {
        Some(RefreshScope::Stale)
    } else if t == "all"@ {
        Some(RefreshScope::All)
    } else if t == "recent"@ {
        Some(RefreshScope::Recent)
    } else {
        None
    }
}

impl RefreshScope {
    pub fn as_str(self) -> (r: &'static str)
        ensures
            r@ == refresh_scope_key(self),
    {
        match self {
            RefreshScope::Unmatched => "unmatched",
            RefreshScope::All => "all",
            RefreshScope::Stale => "stale",
            RefreshScope::Recent => "recent",
        }
    }

    /// Parse the exact lower-case name.
    pub fn from_str(s: &str) -> (r: Result<RefreshScope, ()>)
        ensures
            match r {
                Ok(v) => refresh_scope_of(s@) == Some(v),
                Err(_) => refresh_scope_of(s@) is None,
            },
    {
        let t = chars_of(s);
        if eq_lit(&t, "unmatched") {
            Ok(RefreshScope::Unmatched)
        } else if eq_lit(&t, "stale") {
            Ok(RefreshScope::Stale)
        } else if eq_lit(&t, "all") {
            Ok(RefreshScope::All)
        } else if eq_lit(&t, "recent") {
            Ok(RefreshScope::Recent)
        } else {
            Err(())
        }
    }
}

/// Every scope's name parses back to the scope.
pub proof fn lemma_refresh_scope_round_trip(s: RefreshScope)
    ensures
        refresh_scope_of(refresh_scope_key(s)) == Some(s),
{
    reveal_strlit("unmatched");
    reveal_strlit("stale");
    reveal_strlit("all");
    reveal_strlit("recent");
    assert("unmatched"@[0] == 'u');
    assert("stale"@[0] == 's');
    assert("all"@[0] == 'a');
    assert("recent"@[0] == 'r');
}

/// What a refresh sweep did.
#[derive(Clone, Copy, Debug)]
pub struct RefreshOutcome {
    pub series_eligible: usize,
    pub jobs_enqueued: usize,
    pub jobs_coalesced: usize,
    pub jobs_failed: usize,
}

/// How enqueueing one series' search ended.
#[derive(Copy, Clone, Debug, PartialEq, Eq, Structural)]
pub enum EnqueueResult {
    Enqueued,
    /// An equivalent job was already queued and absorbed this one.
    Coalesced,
    Failed,
}

impl RefreshOutcome {
    /// A sweep over `series_eligible` series, before any enqueue.
    pub fn new(series_eligible: usize) -> (r: Self)
        ensures
            r.series_eligible == series_eligible,
            r.jobs_enqueued == 0 && r.jobs_coalesced == 0 && r.jobs_failed == 0,
    {
        RefreshOutcome { series_eligible, jobs_enqueued: 0, jobs_coalesced: 0, jobs_failed: 0 }
    }

    pub open spec fn jobs_seen(&self) -> int {
        self.jobs_enqueued + self.jobs_coalesced + self.jobs_failed
    }

    /// Count one enqueue attempt under its result.
    pub fn record(&mut self, result: EnqueueResult)
        requires
            old(self).jobs_seen() < old(self).series_eligible,
        ensures
            final(self).series_eligible == old(self).series_eligible,
            final(self).jobs_seen() == old(self).jobs_seen() + 1,
            final(self).jobs_enqueued == old(self).jobs_enqueued + if result
                == EnqueueResult::Enqueued {
                1int
            } else {
                0
            },
            final(self).jobs_coalesced == old(self).jobs_coalesced + if result
                == EnqueueResult::Coalesced {
                1int
            } else {
                0
            },
            final(self).jobs_failed == old(self).jobs_failed + if result == EnqueueResult::Failed {
                1int
            } else {
                0
            },
    {
        match result {
            EnqueueResult::Enqueued => self.jobs_enqueued = self.jobs_enqueued + 1,
            EnqueueResult::Coalesced => self.jobs_coalesced = self.jobs_coalesced + 1,
            EnqueueResult::Failed => self.jobs_failed = self.jobs_failed + 1,
        }
    }
}

} // verus!

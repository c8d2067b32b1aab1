//! The search run around the matcher: which providers take part, the
//! query stored with a run, the hard pre-filter on candidates, the cover
//! URLs hashed per candidate, and the gap-to-next-best guard on the
//! winner.
use vstd::prelude::*;
use vstd::string::*;
use crate::identifier::Source;
use crate::matcher::{
    Confidence, SeriesQueryFacts, IssueQueryFacts, STRONG_SCORE_THRESH, MIN_SCORE_DISTANCE,
};
use crate::provider::{SeriesCandidate, IssueCandidate, ProviderError};
use crate::title_norm::{sanitize_title, sanitized};
use crate::text::{has_text, text_present, clone_opt_string, opt_view, opt_str_view};
use crate::writers::string_views;

verus! {

// ───────── providers ─────────

/// The provider settings the orchestrator reads.
#[derive(Clone, Debug)]
pub struct ProviderSettings {
    pub metron_enabled: bool,
    pub metron_username: Option<String>,
    pub metron_password: Option<String>,
    pub comicvine_enabled: bool,
    pub comicvine_api_key: Option<String>,
}

/// The providers a search speaks to, in priority order: Metron when it
/// is on and has a user name and a password, then ComicVine when it is on
/// and has a key.
pub open spec fn provider_order(c: ProviderSettings) -> Seq<Source> {
    let metron = c.metron_enabled && has_text(c.metron_username) && has_text(c.metron_password);
    let cv = c.comicvine_enabled && has_text(c.comicvine_api_key);
    (if metron {
        seq![Source::Metron]
    } else {
        Seq::empty()
    }) + (if cv {
        seq![Source::ComicVine]
    } else {
        Seq::empty()
    })
}

/// The sources of the providers to build, in priority order.
pub fn configured_providers(cfg: &ProviderSettings) -> (r: Vec<Source>)
    ensures
        r@ == provider_order(*cfg),
{
    let mut out: Vec<Source> = Vec::new();
    let metron = cfg.metron_enabled && text_present(&cfg.metron_username) && text_present(
        &cfg.metron_password,
    );
    if metron {
        out.push(Source::Metron);
    }
    let cv = cfg.comicvine_enabled && text_present(&cfg.comicvine_api_key);
    if cv {
        out.push(Source::ComicVine);
    }
    assert(out@ =~= provider_order(*cfg));
    out
}

// ───────── stored query ─────────

/// What a run searched for, stored with the run so the progress view does
/// not depend on the (mutable) local row.
#[derive(Clone, Debug)]
pub enum StoredQuery {
    Series(SeriesQueryFacts),
    Issue(IssueQueryFacts),
}

// ───────── pre-filter ─────────

/// Per-library candidate filter: publishers the operator never wants.
#[derive(Clone, Debug)]
pub struct PreFilter {
    pub publisher_blacklist: Vec<String>,
}

/// The string elements of a JSON array, in order; `None` entries stand
/// for elements that are not strings.
pub open spec fn string_entries(v: Seq<Option<String>>) -> Seq<Seq<char>>
    decreases v.len(),
{
    if v.len() == 0 {
        Seq::empty()
    } else {
        string_entries(v.drop_last()) + match v.last() {
            Some(s) => seq![s@],
            None => Seq::empty(),
        }
    }
}

impl Default for PreFilter {
    fn default() -> (r: Self)
        ensures
            r.publisher_blacklist@.len() == 0,
    {
        PreFilter { publisher_blacklist: Vec::new() }
    }
}

impl PreFilter {
    /// The filter of a library whose blacklist column holds `column`: the
    /// JSON array's elements (string or not), or `None` when the column is
    /// not an array, which yields an empty blacklist.
    pub fn from_library(column: &Option<Vec<Option<String>>>) -> (r: Self)
        ensures
            string_views(r.publisher_blacklist@) == match column {
                Some(v) => string_entries(v@),
                None => Seq::empty(),
            },
    {
        let mut out: Vec<String> = Vec::new();
        match column {
            None => {
                assert(string_views(out@) =~= Seq::<Seq<char>>::empty());
            },
            Some(v) => {
                let mut i: usize = 0;
                assert(v@.take(0) =~= Seq::<Option<String>>::empty());
                assert(string_views(out@) =~= Seq::<Seq<char>>::empty());
                while i < v.len()
                    invariant
                        i <= v@.len(),
                        string_views(out@) == string_entries(v@.take(i as int)),
                    decreases v@.len() - i,
                {
                    let ghost before = string_views(out@);
                    assert(v@.take(i + 1).drop_last() =~= v@.take(i as int));
                    assert(v@.take(i + 1).last() == v@[i as int]);
                    match &v[i] {
                        Some(s) => {
                            out.push(s.clone());
                            assert(string_views(out@) =~= before.push(s@));
                        },
                        None => {},
                    }
                    i = i + 1;
                    assert(string_views(out@) =~= string_entries(v@.take(i as int)));
                }
                assert(v@.take(v@.len() as int) =~= v@);
            },
        }
        PreFilter { publisher_blacklist: out }
    }
}

/// The blacklist entries as comparison keys: sanitised, empty ones
/// dropped.
pub open spec fn blacklist_keys(b: Seq<Seq<char>>) -> Seq<Seq<char>>
    decreases b.len(),
{
    if b.len() == 0 {
        Seq::empty()
    } else {
        let k = sanitized(b.last());
        blacklist_keys(b.drop_last()) + if k.len() > 0 {
            seq![k]
        } else {
            Seq::empty()
        }
    }
}

/// The year gate: a candidate starting more than a year after the local
/// year is dropped; no local or candidate year, no gate.
pub open spec fn year_gate_passes(local: Option<i32>, cand: Option<i32>) -> bool {
    match (local, cand) {
        (Some(l), Some(c)) => !(c > l + 1),
        _ => true,
    }
}

/// A publisher is blacklisted when its sanitised name is not empty and
/// equals one of the keys.
pub open spec fn blacklisted(publisher: Option<Seq<char>>, keys: Seq<Seq<char>>) -> bool {
    match publisher {
        Some(p) => sanitized(p).len() > 0 && keys.contains(sanitized(p)),
        None => false,
    }
}

pub open spec fn keep_series(c: SeriesCandidate, local_year: Option<i32>, keys: Seq<Seq<char>>) -> bool {
    year_gate_passes(local_year, c.year) && !blacklisted(opt_view(c.publisher), keys)
}

pub open spec fn kept_series(
    cands: Seq<SeriesCandidate>,
    local_year: Option<i32>,
    keys: Seq<Seq<char>>,
) -> Seq<SeriesCandidate>
    decreases cands.len(),
{
    if cands.len() == 0 {
        Seq::empty()
    } else {
        kept_series(cands.drop_last(), local_year, keys) + if keep_series(
            cands.last(),
            local_year,
            keys,
        ) {
            seq![cands.last()]
        } else {
            Seq::empty()
        }
    }
}

/// A local year of `i32::MAX` has no successor year to compare with.
pub open spec fn year_in_range(y: Option<i32>) -> bool {
    match y {
        Some(l) => l < i32::MAX,
        None => true,
    }
}

fn gate(local: Option<i32>, cand: Option<i32>) -> (r: bool)
    requires
        year_in_range(local),
    ensures
        r == year_gate_passes(local, cand),
{
    match (local, cand) {
        (Some(l), Some(c)) => !(c > l + 1),
        _ => true,
    }
}

fn sanitized_keys(b: &Vec<String>) -> (r: Vec<String>)
    ensures
        string_views(r@) == blacklist_keys(string_views(b@)),
{
    let ghost bs = string_views(b@);
    let mut out: Vec<String> = Vec::new();
    let mut i: usize = 0;
    assert(bs.take(0) =~= Seq::<Seq<char>>::empty());
    assert(string_views(out@) =~= Seq::<Seq<char>>::empty());
    while i < b.len()
        invariant
            i <= b@.len(),
            bs == string_views(b@),
            string_views(out@) == blacklist_keys(bs.take(i as int)),
        decreases b@.len() - i,
    {
        let ghost before = string_views(out@);
        assert(bs.take(i + 1).drop_last() =~= bs.take(i as int));
        assert(bs.take(i + 1).last() == b@[i as int]@);
        let k = sanitize_title(b[i].as_str());
        if k.as_str().unicode_len() > 0 {
            let ghost kv = k@;
            out.push(k);
            assert(string_views(out@) =~= before.push(kv));
        }
        i = i + 1;
        assert(string_views(out@) =~= blacklist_keys(bs.take(i as int)));
    }
    assert(bs.take(b@.len() as int) =~= bs);
    out
}

fn is_blacklisted(publisher: &Option<String>, keys: &Vec<String>) -> (r: bool)
    ensures
        r == blacklisted(opt_view(*publisher), string_views(keys@)),
{
    match publisher {
        None => false,
        Some(p) => {
            let canonical = sanitize_title(p.as_str());
            if canonical.as_str().unicode_len() == 0 {
                return false;
            }
            let mut i: usize = 0;
            while i < keys.len()
                invariant
                    i <= keys@.len(),
                    canonical@ == sanitized(p@),
                    canonical@.len() > 0,
                    opt_view(*publisher) == Some(p@),
                    forall|j: int| 0 <= j < i ==> string_views(keys@)[j] != canonical@,
                decreases keys@.len() - i,
            {
                if crate::text::str_eq(keys[i].as_str(), canonical.as_str()) {
                    assert(string_views(keys@)[i as int] == canonical@);
                    return true;
                }
                i = i + 1;
            }
            false
        },
    }
}

/// Drop series candidates that start more than a year after the local
/// series, and those from a blacklisted publisher; the rest keep their
/// order.
pub fn pre_filter_series(
    candidates: Vec<SeriesCandidate>,
    facts: &SeriesQueryFacts,
    filter: &PreFilter,
) -> (r: Vec<SeriesCandidate>)
    requires
        year_in_range(facts.year),
    ensures
        r@ == kept_series(
            candidates@,
            facts.year,
            blacklist_keys(string_views(filter.publisher_blacklist@)),
        ),
{
    let keys = sanitized_keys(&filter.publisher_blacklist);
    let ghost ks = string_views(keys@);
    let ghost cs = candidates@;
    let mut out: Vec<SeriesCandidate> = Vec::new();
    let mut rest = candidates;
    assert(rest@ =~= cs.skip(0));
    let n = rest.len();
    assert(n == cs.len());
    let mut i: usize = 0;
    assert(cs.take(0) =~= Seq::<SeriesCandidate>::empty());
    while rest.len() > 0
        invariant
            i + rest@.len() == cs.len(),
            cs.len() <= usize::MAX,
            rest@ == cs.skip(i as int),
            out@ == kept_series(cs.take(i as int), facts.year, ks),
            ks == string_views(keys@),
            year_in_range(facts.year),
        decreases rest@.len(),
    {
        assert(rest@[0] == cs[i as int]);
        let c = rest.remove(0);
        assert(rest@ =~= cs.skip(i + 1));
        assert(cs.take(i + 1).drop_last() =~= cs.take(i as int));
        assert(cs.take(i + 1).last() == cs[i as int]);
        if gate(facts.year, c.year) && !is_blacklisted(&c.publisher, &keys) {
            out.push(c);
        }
        i = i + 1;
        assert(out@ =~= kept_series(cs.take(i as int), facts.year, ks));
    }
    assert(cs.take(cs.len() as int) =~= cs);
    out
}

pub open spec fn kept_issues(cands: Seq<IssueCandidate>, local_year: Option<i32>) -> Seq<
    IssueCandidate,
>
    decreases cands.len(),
{
    if cands.len() == 0 {
        Seq::empty()
    } else {
        kept_issues(cands.drop_last(), local_year) + if year_gate_passes(
            local_year,
            cands.last().series_year,
        ) {
            seq![cands.last()]
        } else {
            Seq::empty()
        }
    }
}

/// Drop issue candidates whose series starts more than a year after the
/// local series; the rest keep their order.
pub fn pre_filter_issue(candidates: Vec<IssueCandidate>, facts: &IssueQueryFacts) -> (r: Vec<
    IssueCandidate,
>)
    requires
        year_in_range(facts.series_year),
    ensures
        r@ == kept_issues(candidates@, facts.series_year),
{
    let ghost cs = candidates@;
    let mut out: Vec<IssueCandidate> = Vec::new();
    let mut rest = candidates;
    assert(rest@ =~= cs.skip(0));
    let n = rest.len();
    assert(n == cs.len());
    let mut i: usize = 0;
    assert(cs.take(0) =~= Seq::<IssueCandidate>::empty());
    while rest.len() > 0
        invariant
            i + rest@.len() == cs.len(),
            cs.len() <= usize::MAX,
            rest@ == cs.skip(i as int),
            out@ == kept_issues(cs.take(i as int), facts.series_year),
            year_in_range(facts.series_year),
        decreases rest@.len(),
    {
        assert(rest@[0] == cs[i as int]);
        let c = rest.remove(0);
        assert(rest@ =~= cs.skip(i + 1));
        assert(cs.take(i + 1).drop_last() =~= cs.take(i as int));
        assert(cs.take(i + 1).last() == cs[i as int]);
        if gate(facts.series_year, c.series_year) {
            out.push(c);
        }
        i = i + 1;
        assert(out@ =~= kept_issues(cs.take(i as int), facts.series_year));
    }
    assert(cs.take(cs.len() as int) =~= cs);
    out
}

// ───────── cover URLs ─────────

/// The primary cover slot first (empty when the candidate has none), then
/// at most `cap` alternates in order.
pub fn cover_urls_for_candidate<'a>(
    primary: Option<&'a str>,
    alternates: &'a [String],
    cap: u32,
) -> (r: Vec<Option<&'a str>>)
    ensures
        r@.len() == 1 + if alternates@.len() < cap {
            alternates@.len() as int
        } else {
            cap as int
        },
        opt_str_view(r@[0]) == opt_str_view(primary),
        forall|i: int|
            1 <= i < r@.len() ==> #[trigger] opt_str_view(r@[i]) == Some(alternates@[i - 1]@),
{
    let mut out: Vec<Option<&'a str>> = Vec::new();
    out.push(primary);
    let n: usize = if alternates.len() < cap as usize {
        alternates.len()
    } else {
        cap as usize
    };
    let mut i: usize = 0;
    while i < n
        invariant
            n <= alternates@.len(),
            n == if alternates@.len() < cap { alternates@.len() as int } else { cap as int },
            i <= n,
            out@.len() == 1 + i,
            opt_str_view(out@[0]) == opt_str_view(primary),
            forall|j: int|
                1 <= j < out@.len() ==> #[trigger] opt_str_view(out@[j]) == Some(
                    alternates@[j - 1]@,
                ),
        decreases n - i,
    {
        out.push(Some(alternates[i].as_str()));
        i = i + 1;
    }
    out
}

// ───────── gap-to-next-best guard ─────────

/// Among candidates with a cover distance, `i` ranks before `j`: a
/// smaller distance, or the same distance and an earlier position.
pub open spec fn ranks_before(hs: Seq<Option<u32>>, i: int, j: int) -> bool {
    hs[i].unwrap() < hs[j].unwrap() || (hs[i].unwrap() == hs[j].unwrap() && i < j)
}

/// `i` is the closest cover: it has a distance and ranks before every
/// other candidate with one.
pub open spec fn closest(hs: Seq<Option<u32>>, i: int) -> bool {
    &&& 0 <= i < hs.len()
    &&& hs[i] is Some
    &&& forall|j: int| 0 <= j < hs.len() && j != i && #[trigger] hs[j] is Some ==> ranks_before(hs, i, j)
}

/// `k` is the runner-up behind `i`.
pub open spec fn runner_up(hs: Seq<Option<u32>>, i: int, k: int) -> bool {
    &&& 0 <= k < hs.len()
    &&& k != i
    &&& hs[k] is Some
    &&& forall|j: int|
        0 <= j < hs.len() && j != i && j != k && #[trigger] hs[j] is Some ==> ranks_before(hs, k, j)
}

/// The guard fires when the closest cover is in the high bucket, within
/// the strong threshold, and the runner-up is fewer than the minimum
/// distance behind it.
pub open spec fn guard_fires(bs: Seq<Confidence>, hs: Seq<Option<u32>>, i: int, k: int) -> bool {
    let d0 = hs[i].unwrap();
    let d1 = hs[k].unwrap();
    &&& bs[i] == Confidence::High
    &&& d0 <= STRONG_SCORE_THRESH
    &&& (if d1 >= d0 { d1 - d0 } else { 0 }) < MIN_SCORE_DISTANCE
}

proof fn lemma_closest_unique(hs: Seq<Option<u32>>, a: int, b: int)
    requires
        closest(hs, a),
        closest(hs, b),
    ensures
        a == b,
{
    if a != b {
        assert(hs[b] is Some);
        assert(hs[a] is Some);
        assert(ranks_before(hs, a, b));
        assert(ranks_before(hs, b, a));
    }
}

proof fn lemma_runner_up_unique(hs: Seq<Option<u32>>, i: int, a: int, b: int)
    requires
        runner_up(hs, i, a),
        runner_up(hs, i, b),
    ensures
        a == b,
{
    if a != b {
        assert(hs[b] is Some);
        assert(hs[a] is Some);
        assert(ranks_before(hs, a, b));
        assert(ranks_before(hs, b, a));
    }
}

pub open spec fn skipped(skip: Option<usize>, j: int) -> bool {
    match skip {
        Some(s) => s as int == j,
        None => false,
    }
}

/// The position that ranks first among those with a distance, other than
/// `skip`.
fn best_index(hs: &Vec<Option<u32>>, skip: Option<usize>) -> (r: Option<usize>)
    ensures
        match r {
            Some(b) => {
                &&& b < hs@.len()
                &&& hs@[b as int] is Some
                &&& skip != Some(b)
                &&& forall|j: int|
                    0 <= j < hs@.len() && j != b && !skipped(skip, j) && #[trigger] hs@[j] is Some
                        ==> ranks_before(hs@, b as int, j)
            },
            None => forall|j: int|
                0 <= j < hs@.len() && !skipped(skip, j) ==> #[trigger] hs@[j] is None,
        },
{
    let mut best: Option<usize> = None;
    let mut i: usize = 0;
    while i < hs.len()
        invariant
            i <= hs@.len(),
            match best {
                Some(b) => {
                    &&& b < i
                    &&& hs@[b as int] is Some
                    &&& skip != Some(b)
                    &&& forall|j: int|
                        0 <= j < i && j != b && !skipped(skip, j) && #[trigger] hs@[j] is Some
                            ==> ranks_before(hs@, b as int, j)
                },
                None => forall|j: int| 0 <= j < i && !skipped(skip, j) ==> #[trigger] hs@[j] is None,
            },
        decreases hs@.len() - i,
    {
        if skip != Some(i) {
            match hs[i] {
                Some(h) => {
                    match best {
                        None => {
                            best = Some(i);
                        },
                        Some(b) => {
                            if h < hs[b].unwrap() {
                                best = Some(i);
                            }
                        },
                    }
                },
                None => {},
            }
        }
        i = i + 1;
    }
    best
}

/// Downgrade the winner from high to medium confidence when the two
/// closest covers are nearly as close as each other: with two real
/// candidates of near-identical covers the user picks, not a one-click
/// apply. `buckets` and `hammings` are per candidate, in list order.
pub fn gap_guard(buckets: &mut Vec<Confidence>, hammings: &Vec<Option<u32>>)
    requires
        old(buckets)@.len() == hammings@.len(),
    ensures
        forall|i: int, k: int|
            closest(hammings@, i) && runner_up(hammings@, i, k) ==> final(buckets)@ == if guard_fires(
                old(buckets)@,
                hammings@,
                i,
                k,
            ) {
                old(buckets)@.update(i, Confidence::Medium)
            } else {
                old(buckets)@
            },
        (forall|i: int, k: int| !(closest(hammings@, i) && runner_up(hammings@, i, k)))
            ==> final(buckets)@ == old(buckets)@,
{
    let ghost hs = hammings@;
    let ghost bs = buckets@;
    let first = best_index(hammings, None);
    match first {
        None => {
            assert forall|i: int, k: int| !(closest(hs, i) && runner_up(hs, i, k)) by {
                if closest(hs, i) {
                    assert(hs[i] is Some);
                }
            }
        },
        Some(i0) => {
            assert(closest(hs, i0 as int));
            let second = best_index(hammings, Some(i0));
            match second {
                None => {
                    assert forall|i: int, k: int| !(closest(hs, i) && runner_up(hs, i, k)) by {
                        if closest(hs, i) && runner_up(hs, i, k) {
                            lemma_closest_unique(hs, i, i0 as int);
                            assert(hs[k] is Some);
                        }
                    }
                },
                Some(i1) => {
                    assert(runner_up(hs, i0 as int, i1 as int));
                    let d0 = hammings[i0].unwrap();
                    let d1 = hammings[i1].unwrap();
                    let gap: u32 = if d1 >= d0 { d1 - d0 } else { 0 };
                    let high = match buckets[i0] {
                        Confidence::High => true,
                        _ => false,
                    };
                    if high && d0 <= STRONG_SCORE_THRESH && gap < MIN_SCORE_DISTANCE {
                        buckets.set(i0, Confidence::Medium);
                    }
                    assert forall|i: int, k: int|
                        closest(hs, i) && runner_up(hs, i, k) implies buckets@ == if guard_fires(
                        bs,
                        hs,
                        i,
                        k,
                    ) {
                        bs.update(i, Confidence::Medium)
                    } else {
                        bs
                    } by {
                        lemma_closest_unique(hs, i, i0 as int);
                        lemma_runner_up_unique(hs, i, k, i1 as int);
                    }
                },
            }
        },
    }
}

/// The gap guard only ever demotes the closest candidate from high to
/// medium: every other bucket stays; a runner-up at least
/// `MIN_SCORE_DISTANCE` bits behind leaves everything as it was; a high
/// winner within `STRONG_SCORE_THRESH` bits whose runner-up is closer
/// behind than that is demoted.
pub proof fn lemma_gap_guard_only_demotes(bs: Seq<Confidence>, hs: Seq<Option<u32>>, i: int, k: int)
    requires
        bs.len() == hs.len(),
        closest(hs, i),
        runner_up(hs, i, k),
    ensures
        ({
            let after = if guard_fires(bs, hs, i, k) {
                bs.update(i, Confidence::Medium)
            } else {
                bs
            };
            let d0 = hs[i].unwrap();
            let d1 = hs[k].unwrap();
            &&& after.len() == bs.len()
            &&& forall|j: int| 0 <= j < bs.len() && j != i ==> after[j] == bs[j]
            &&& (after[i] == bs[i] || (bs[i] == Confidence::High && after[i] == Confidence::Medium))
            &&& d0 <= d1
            &&& d1 >= d0 + MIN_SCORE_DISTANCE ==> after == bs
            &&& d0 > STRONG_SCORE_THRESH ==> after == bs
            &&& (bs[i] == Confidence::High && d0 <= STRONG_SCORE_THRESH && d1 < d0
                + MIN_SCORE_DISTANCE) ==> after[i] == Confidence::Medium
        }),
{
    assert(hs[k] is Some);
    assert(ranks_before(hs, i, k));
}

/// The pre-filters keep candidates in their order and drop exactly those
/// that start more than a year after the local year (when both years are
/// known) or, for series, come from a publisher whose key is blacklisted;
/// with no local year and no blacklist nothing is dropped.
pub proof fn lemma_pre_filter_keeps(
    cands: Seq<SeriesCandidate>,
    issues: Seq<IssueCandidate>,
    local: Option<i32>,
    keys: Seq<Seq<char>>,
    c: SeriesCandidate,
    ic: IssueCandidate,
)
    ensures
        kept_series(cands, local, keys).contains(c) == (cands.contains(c) && (local is None
            || c.year is None || c.year.unwrap() <= local.unwrap() + 1) && !blacklisted(
            opt_view(c.publisher),
            keys,
        )),
        kept_issues(issues, local).contains(ic) == (issues.contains(ic) && (local is None
            || ic.series_year is None || ic.series_year.unwrap() <= local.unwrap() + 1)),
        kept_series(cands, local, keys).len() <= cands.len(),
        kept_issues(issues, local).len() <= issues.len(),
        (local is None && keys.len() == 0) ==> kept_series(cands, local, keys) == cands,
        local is None ==> kept_issues(issues, local) == issues,
    decreases cands.len() + issues.len(),
{
    if cands.len() > 0 {
        lemma_pre_filter_keeps(cands.drop_last(), issues, local, keys, c, ic);
        let init = cands.drop_last();
        let k0 = kept_series(init, local, keys);
        let tail = if keep_series(cands.last(), local, keys) {
            seq![cands.last()]
        } else {
            Seq::<SeriesCandidate>::empty()
        };
        assert(kept_series(cands, local, keys) == k0 + tail);
        assert(cands == init.push(cands.last()));
        if kept_series(cands, local, keys).contains(c) {
            let j = choose|j: int| 0 <= j < (k0 + tail).len() && (k0 + tail)[j] == c;
            if j < k0.len() {
                assert(k0[j] == c);
                assert(k0.contains(c));
                let m = choose|m: int| 0 <= m < init.len() && init[m] == c;
                assert(cands[m] == c);
            } else {
                assert(cands[cands.len() - 1] == c);
            }
        }
        if cands.contains(c) && keep_series(c, local, keys) {
            let m = choose|m: int| 0 <= m < cands.len() && cands[m] == c;
            if m < init.len() {
                assert(init[m] == c);
                assert(init.contains(c));
                let j = choose|j: int| 0 <= j < k0.len() && k0[j] == c;
                assert((k0 + tail)[j] == c);
            } else {
                assert((k0 + tail)[k0.len() as int] == c);
            }
        }
        if local is None && keys.len() == 0 {
            assert(!blacklisted(opt_view(cands.last().publisher), keys));
            assert(k0 + tail =~= cands);
        }
    } else if issues.len() > 0 {
        lemma_pre_filter_keeps(cands, issues.drop_last(), local, keys, c, ic);
        let init = issues.drop_last();
        let k0 = kept_issues(init, local);
        let tail = if year_gate_passes(local, issues.last().series_year) {
            seq![issues.last()]
        } else {
            Seq::<IssueCandidate>::empty()
        };
        assert(kept_issues(issues, local) == k0 + tail);
        assert(issues == init.push(issues.last()));
        if kept_issues(issues, local).contains(ic) {
            let j = choose|j: int| 0 <= j < (k0 + tail).len() && (k0 + tail)[j] == ic;
            if j < k0.len() {
                assert(k0[j] == ic);
                assert(k0.contains(ic));
                let m = choose|m: int| 0 <= m < init.len() && init[m] == ic;
                assert(issues[m] == ic);
            } else {
                assert(issues[issues.len() - 1] == ic);
            }
        }
        if issues.contains(ic) && year_gate_passes(local, ic.series_year) {
            let m = choose|m: int| 0 <= m < issues.len() && issues[m] == ic;
            if m < init.len() {
                assert(init[m] == ic);
                assert(init.contains(ic));
                let j = choose|j: int| 0 <= j < k0.len() && k0[j] == ic;
                assert((k0 + tail)[j] == ic);
            } else {
                assert((k0 + tail)[k0.len() as int] == ic);
            }
        }
        if local is None {
            assert(k0 + tail =~= issues);
        }
    } else {
        assert(kept_series(cands, local, keys) =~= cands);
        assert(kept_issues(issues, local) =~= issues);
    }
}

// ───────── how a search run ends ─────────

/// Fold one provider's failure into what a search run remembers: a
/// quota refusal keeps its retry delay (the latest one wins), any other
/// failure becomes the last error.
pub fn note_provider_error(quota: &mut Option<u64>, last_error: &mut Option<ProviderError>, e: ProviderError)
    ensures
        (e is QuotaExceeded) ==> (*final(quota) == Some(e->retry_after_secs) && *final(last_error) == *old(last_error)),
        !(e is QuotaExceeded) ==> (*final(quota) == *old(quota) && *final(last_error) == Some(e)),
{
    match e {
        ProviderError::QuotaExceeded { retry_after_secs } => {
            *quota = Some(retry_after_secs);
        },
        other => {
            *last_error = Some(other);
        },
    }
}

/// How a search run ends once every provider was asked.
pub enum RunEnd {
    /// No candidate came back and a provider ran out of quota: the run
    /// waits for the budget and is retried after these seconds.
    AwaitingQuota { retry_after_secs: u64 },
    /// No candidate came back and a provider failed: the run fails with
    /// that error.
    Failed(ProviderError),
    /// The ranked candidates are stored and the run completes.
    Finalized,
}

/// The end of a search run: with no candidate, a quota refusal puts the
/// run into awaiting-quota, else a provider error fails it; otherwise
/// (some candidate, or nothing went wrong) the run is finalised.
pub fn run_end(no_candidates: bool, quota: Option<u64>, last_error: Option<ProviderError>) -> (r: RunEnd)
    ensures
        (no_candidates && quota is Some) ==> (r == RunEnd::AwaitingQuota { retry_after_secs: quota.unwrap() }),
        (no_candidates && quota is None && last_error is Some) ==> (r == RunEnd::Failed(last_error.unwrap())),
        (!no_candidates || (quota is None && last_error is None)) ==> (r == RunEnd::Finalized),
{
    if no_candidates {
        match quota {
            Some(secs) => {
                return RunEnd::AwaitingQuota { retry_after_secs: secs };
            },
            None => {},
        }
        match last_error {
            Some(e) => {
                return RunEnd::Failed(e);
            },
            None => {},
        }
    }
    RunEnd::Finalized
}

// ───────── run tallies ─────────

/// The counts a finished run is stamped with.
#[derive(Clone, Copy, Debug, PartialEq, Eq)]
pub struct RunTally {
    pub total: i32,
    pub high: i32,
    pub medium: i32,
    pub low: i32,
    /// 1 when the search found nothing, else 0.
    pub no_match: i32,
}

/// The candidates of each bucket.
pub open spec fn bucket_count(bs: Seq<Confidence>, c: Confidence) -> nat {
    bs.filter(|b: Confidence| b == c).len()
}

/// The tally of a run's ranked candidates, in ranking order.
pub fn run_tally(buckets: &Vec<Confidence>) -> (r: RunTally)
    requires
        buckets@.len() <= i32::MAX,
    ensures
        r.total == buckets@.len(),
        r.high == bucket_count(buckets@, Confidence::High),
        r.medium == bucket_count(buckets@, Confidence::Medium),
        r.low == bucket_count(buckets@, Confidence::Low),
        r.no_match == (if buckets@.len() == 0 { 1int } else { 0 }),
{
    let mut high: i32 = 0;
    let mut medium: i32 = 0;
    let mut low: i32 = 0;
    let mut i: usize = 0;
    while i < buckets.len()
        invariant
            i <= buckets@.len(),
            buckets@.len() <= i32::MAX,
            high + medium + low == i,
            high == bucket_count(buckets@.take(i as int), Confidence::High),
            medium == bucket_count(buckets@.take(i as int), Confidence::Medium),
            low == bucket_count(buckets@.take(i as int), Confidence::Low),
            0 <= high && 0 <= medium && 0 <= low,
        decreases buckets@.len() - i,
    {
        let ghost pre = buckets@.take(i as int);
        let ghost post = buckets@.take(i + 1);
        assert(post =~= pre.push(buckets@[i as int]));
        reveal(Seq::filter);
        assert(post.drop_last() =~= pre);
        match buckets[i] {
            Confidence::High => high = high + 1,
            Confidence::Medium => medium = medium + 1,
            Confidence::Low => low = low + 1,
        }
        i = i + 1;
    }
    assert(buckets@.take(buckets@.len() as int) =~= buckets@);
    let total = buckets.len() as i32;
    RunTally { total, high, medium, low, no_match: if total == 0 { 1 } else { 0 } }
}

} // verus!

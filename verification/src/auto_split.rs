//! Series-boundary divergence: the runs of local issues that a provider's
//! matched series does not cover, and the alternate provider series a run
//! is mapped to.
use vstd::prelude::*;
use vstd::string::*;
use crate::identifier::Source;
use crate::provider::{IssueCandidate, IssueQuery};
use crate::writers::string_views;
use crate::apply::contains_str;
use crate::text::{str_eq, clone_opt_string, opt_view};

verus! {

/// A provider range created for one uncovered run.
#[derive(Clone, Debug)]
pub struct CreatedRange {
    pub source: Source,
    pub provider_series_id: String,
    pub provider_series_name: Option<String>,
    pub range_low: String,
    pub range_high: String,
    pub declared_year: Option<i32>,
}

/// What a detection pass found and did.
#[derive(Clone, Debug)]
pub struct DetectOutcome {
    /// Issue numbers the matched provider series holds.
    pub covered_count: usize,
    /// First and last canonical number of each uncovered run.
    pub gaps: Vec<(String, String)>,
    pub created: Vec<CreatedRange>,
}

impl Default for DetectOutcome {
    fn default() -> (r: Self)
        ensures
            r.covered_count == 0,
            r.gaps@.len() == 0,
            r.created@.len() == 0,
    {
        DetectOutcome { covered_count: 0, gaps: Vec::new(), created: Vec::new() }
    }
}

/// Detail probes a search for an alternate series spends at most.
pub const MAX_DETAIL_PROBES: usize = 4;

/// A local issue by its canonical number, with its cover year.
#[derive(Clone, Debug)]
pub struct LocalIssue {
    pub canonical: String,
    pub year: Option<i32>,
}

/// The maximal runs of consecutive uncovered issues, scanning from the
/// front with the run `cur` open.
pub open spec fn runs_from(
    s: Seq<LocalIssue>,
    covered: Seq<Seq<char>>,
    cur: Seq<LocalIssue>,
) -> Seq<Seq<LocalIssue>>
    decreases s.len(),
{
    if s.len() == 0 {
        if cur.len() > 0 {
            seq![cur]
        } else {
            Seq::empty()
        }
    } else if covered.contains(s[0].canonical@) {
        (if cur.len() > 0 {
            seq![cur]
        } else {
            Seq::empty()
        }) + runs_from(s.drop_first(), covered, Seq::empty())
    } else {
        runs_from(s.drop_first(), covered, cur.push(s[0]))
    }
}

pub open spec fn deref_run<'a>(v: Vec<&'a LocalIssue>) -> Seq<LocalIssue> {
    v@.map_values(|x: &'a LocalIssue| *x)
}

pub open spec fn deref_runs<'a>(r: Seq<Vec<&'a LocalIssue>>) -> Seq<Seq<LocalIssue>> {
    r.map_values(|v: Vec<&'a LocalIssue>| deref_run(v))
}

/// The runs of consecutive local issues (in order) whose canonical number
/// the provider's series does not cover; each run is non-empty.
pub fn contiguous_uncovered<'a>(local: &'a [LocalIssue], covered: &Vec<String>) -> (r: Vec<
    Vec<&'a LocalIssue>,
>)
    ensures
        deref_runs(r@) == runs_from(local@, string_views(covered@), Seq::empty()),
{
    let ghost s = local@;
    let ghost cov = string_views(covered@);
    let mut runs: Vec<Vec<&'a LocalIssue>> = Vec::new();
    let mut current: Vec<&'a LocalIssue> = Vec::new();
    let mut i: usize = 0;
    assert(s.skip(0) =~= s);
    assert(deref_runs(runs@) =~= Seq::<Seq<LocalIssue>>::empty());
    assert(deref_run(current) =~= Seq::<LocalIssue>::empty());
    assert(deref_runs(runs@) + runs_from(s.skip(0), cov, deref_run(current)) =~= runs_from(
        s,
        cov,
        Seq::empty(),
    ));
    while i < local.len()
        invariant
            i <= local@.len(),
            s == local@,
            cov == string_views(covered@),
            runs_from(s, cov, Seq::empty()) == deref_runs(runs@)
                + runs_from(s.skip(i as int), cov, deref_run(current)),
        decreases local@.len() - i,
    {
        let li: &'a LocalIssue = &local[i];
        let ghost before_runs = deref_runs(runs@);
        let ghost cur = deref_run(current);
        assert(s.skip(i as int)[0] == *li);
        assert(s.skip(i as int).drop_first() =~= s.skip(i + 1));
        if contains_str(covered, li.canonical.as_str()) {
            if current.len() > 0 {
                let mut done: Vec<&'a LocalIssue> = Vec::new();
                std::mem::swap(&mut done, &mut current);
                runs.push(done);
                assert(deref_runs(runs@) =~= before_runs + seq![cur]);
            } else {
                assert(deref_runs(runs@) =~= before_runs
                    + Seq::<Seq<LocalIssue>>::empty());
            }
            assert(deref_run(current) =~= Seq::<LocalIssue>::empty());
        } else {
            current.push(li);
            assert(deref_run(current) =~= cur.push(*li));
        }
        i = i + 1;
    }
    assert(s.skip(i as int) =~= Seq::<LocalIssue>::empty());
    let ghost before_runs = deref_runs(runs@);
    if current.len() > 0 {
        let ghost cur = deref_run(current);
        runs.push(current);
        assert(deref_runs(runs@) =~= before_runs + seq![cur]);
    } else {
        assert(deref_runs(runs@) =~= before_runs
            + Seq::<Seq<LocalIssue>>::empty());
    }
    runs
}

/// The issues of `s` the provider does not cover, in order.
pub open spec fn uncovered(s: Seq<LocalIssue>, covered: Seq<Seq<char>>) -> Seq<LocalIssue>
    decreases s.len(),
{
    if s.len() == 0 {
        Seq::empty()
    } else {
        (if covered.contains(s[0].canonical@) {
            Seq::empty()
        } else {
            seq![s[0]]
        }) + uncovered(s.drop_first(), covered)
    }
}

/// The runs laid end to end.
pub open spec fn flatten(rs: Seq<Seq<LocalIssue>>) -> Seq<LocalIssue>
    decreases rs.len(),
{
    if rs.len() == 0 {
        Seq::empty()
    } else {
        rs[0] + flatten(rs.drop_first())
    }
}

proof fn lemma_flatten_concat(a: Seq<Seq<LocalIssue>>, b: Seq<Seq<LocalIssue>>)
    ensures
        flatten(a + b) == flatten(a) + flatten(b),
    decreases a.len(),
{
    if a.len() == 0 {
        assert(a + b =~= b);
        assert(flatten(a) + flatten(b) =~= flatten(b));
    } else {
        assert((a + b).drop_first() =~= a.drop_first() + b);
        assert((a + b)[0] == a[0]);
        lemma_flatten_concat(a.drop_first(), b);
        assert(flatten(a + b) =~= flatten(a) + flatten(b));
    }
}

proof fn lemma_runs_from(s: Seq<LocalIssue>, covered: Seq<Seq<char>>, cur: Seq<LocalIssue>)
    ensures
        flatten(runs_from(s, covered, cur)) == cur + uncovered(s, covered),
        forall|i: int|
            0 <= i < runs_from(s, covered, cur).len() ==> #[trigger] runs_from(
                s,
                covered,
                cur,
            )[i].len() > 0,
    decreases s.len(),
{
    let single: Seq<Seq<LocalIssue>> = if cur.len() > 0 {
        seq![cur]
    } else {
        Seq::empty()
    };
    assert(flatten(single) =~= cur) by {
        reveal_with_fuel(flatten, 2);
        if cur.len() > 0 {
            assert(single.drop_first() =~= Seq::<Seq<LocalIssue>>::empty());
            assert(cur + Seq::<LocalIssue>::empty() =~= cur);
        }
    }
    if s.len() == 0 {
        assert(cur + uncovered(s, covered) =~= cur);
    } else if covered.contains(s[0].canonical@) {
        let rest = runs_from(s.drop_first(), covered, Seq::empty());
        lemma_runs_from(s.drop_first(), covered, Seq::empty());
        lemma_flatten_concat(single, rest);
        assert(Seq::<LocalIssue>::empty() + uncovered(s.drop_first(), covered) =~= uncovered(
            s.drop_first(),
            covered,
        ));
        assert(uncovered(s, covered) =~= uncovered(s.drop_first(), covered));
        assert forall|i: int|
            0 <= i < runs_from(s, covered, cur).len() implies #[trigger] runs_from(
            s,
            covered,
            cur,
        )[i].len() > 0 by {
            if i >= single.len() {
                assert(runs_from(s, covered, cur)[i] == rest[i - single.len()]);
            }
        }
    } else {
        lemma_runs_from(s.drop_first(), covered, cur.push(s[0]));
        assert(cur.push(s[0]) + uncovered(s.drop_first(), covered) =~= cur + uncovered(
            s,
            covered,
        ));
    }
}

/// The runs split the uncovered issues: laid end to end they are exactly
/// the issues the provider does not cover, in their order, and none is
/// empty.
pub proof fn lemma_runs_partition_uncovered(local: Seq<LocalIssue>, covered: Seq<Seq<char>>)
    ensures
        flatten(runs_from(local, covered, Seq::empty())) == uncovered(local, covered),
        forall|i: int|
            0 <= i < runs_from(local, covered, Seq::empty()).len() ==> #[trigger] runs_from(
                local,
                covered,
                Seq::empty(),
            )[i].len() > 0,
{
    lemma_runs_from(local, covered, Seq::empty());
    assert(Seq::<LocalIssue>::empty() + uncovered(local, covered) =~= uncovered(local, covered));
}

pub open spec fn run_first(run: Seq<&LocalIssue>) -> Seq<char> {
    run[0].canonical@
}

pub open spec fn run_last(run: Seq<&LocalIssue>) -> Seq<char> {
    run.last().canonical@
}

/// The first and last canonical number of each run.
pub fn gap_bounds(runs: &Vec<Vec<&LocalIssue>>) -> (r: Vec<(String, String)>)
    requires
        forall|i: int| 0 <= i < runs@.len() ==> #[trigger] runs@[i]@.len() > 0,
    ensures
        r@.len() == runs@.len(),
        forall|i: int| 0 <= i < runs@.len() ==> #[trigger] r@[i].0@ == run_first(runs@[i]@),
        forall|i: int| 0 <= i < runs@.len() ==> #[trigger] r@[i].1@ == run_last(runs@[i]@),
{
    let mut out: Vec<(String, String)> = Vec::new();
    let mut i: usize = 0;
    while i < runs.len()
        invariant
            i <= runs@.len(),
            forall|k: int| 0 <= k < runs@.len() ==> #[trigger] runs@[k]@.len() > 0,
            out@.len() == i,
            forall|k: int| 0 <= k < i ==> #[trigger] out@[k].0@ == run_first(runs@[k]@),
            forall|k: int| 0 <= k < i ==> #[trigger] out@[k].1@ == run_last(runs@[k]@),
        decreases runs@.len() - i,
    {
        let run = &runs[i];
        assert(runs@[i as int]@.len() > 0);
        let lo = run[0].canonical.clone();
        let hi = run[run.len() - 1].canonical.clone();
        let ghost before = out@;
        out.push((lo, hi));
        assert forall|k: int| 0 <= k < i implies #[trigger] out@[k] == before[k] by {}
        i = i + 1;
    }
    out
}

// ───────── a detection pass ─────────

/// The first and last canonical number of each run.
pub open spec fn bounds_of(runs: Seq<Seq<LocalIssue>>) -> Seq<(Seq<char>, Seq<char>)> {
    runs.map_values(|r: Seq<LocalIssue>| (r[0].canonical@, r.last().canonical@))
}

pub open spec fn gaps_view(g: Seq<(String, String)>) -> Seq<(Seq<char>, Seq<char>)> {
    g.map_values(|p: (String, String)| (p.0@, p.1@))
}

/// The start of a detection pass over the local issues (in reading
/// order) against the issue numbers the matched provider series lists,
/// each once. When it lists none, nothing can be split: the outcome is
/// empty. Otherwise it counts them and names the bounds of each run of
/// uncovered local issues; no range is created yet.
pub fn start_detection(local: &[LocalIssue], covered: &Vec<String>) -> (r: DetectOutcome)
    requires
        string_views(covered@).no_duplicates(),
    ensures
        covered@.len() == 0 ==> r.covered_count == 0 && r.gaps@.len() == 0,
        covered@.len() > 0 ==> r.covered_count == covered@.len() && gaps_view(r.gaps@) == bounds_of(
            runs_from(local@, string_views(covered@), Seq::empty()),
        ),
        r.created@.len() == 0,
{
    if covered.len() == 0 {
        return DetectOutcome::default();
    }
    let runs = contiguous_uncovered(local, covered);
    let ghost rs = runs_from(local@, string_views(covered@), Seq::empty());
    proof {
        lemma_runs_partition_uncovered(local@, string_views(covered@));
        assert forall|i: int| 0 <= i < runs@.len() implies #[trigger] runs@[i]@.len() > 0 by {
            assert(deref_runs(runs@)[i] == deref_run(runs@[i]));
            assert(rs[i].len() > 0);
        }
    }
    let gaps = gap_bounds(&runs);
    proof {
        assert forall|i: int| 0 <= i < rs.len() implies #[trigger] gaps_view(gaps@)[i] == bounds_of(rs)[i] by {
            assert(deref_runs(runs@)[i] == deref_run(runs@[i]));
            let v = runs@[i];
            assert(deref_run(v)[0] == *v@[0]);
            assert(deref_run(v).last() == *v@.last());
        }
        assert(gaps_view(gaps@) =~= bounds_of(rs));
    }
    DetectOutcome { covered_count: covered.len(), gaps, created: Vec::new() }
}

/// The range stored for a gap, as the outcome shows it.
pub open spec fn created_view(c: CreatedRange) -> (Source, Seq<char>, Option<Seq<char>>, Seq<char>, Seq<char>, Option<i32>) {
    (c.source, c.provider_series_id@, opt_view(c.provider_series_name), c.range_low@, c.range_high@, c.declared_year)
}

/// Record the outcome of one gap: when the alternate series it belongs
/// to was found, the range `low..high` is mapped to that series and
/// recorded; a gap whose series could not be told apart is left as it is.
/// Gaps that overlap a declared range are not handed here (see
/// [`gaps_to_resolve`]).
pub fn record_gap(outcome: &mut DetectOutcome, source: Source, low: &str, high: &str, alt: Option<AltSeries>)
    ensures
        final(outcome).covered_count == old(outcome).covered_count,
        final(outcome).gaps@ == old(outcome).gaps@,
        match alt {
            None => final(outcome).created@ == old(outcome).created@,
            Some(a) => {
                &&& final(outcome).created@.len() == old(outcome).created@.len() + 1
                &&& final(outcome).created@.drop_last() == old(outcome).created@
                &&& created_view(final(outcome).created@.last()) == (
                    source,
                    a.series_id@,
                    opt_view(a.series_name),
                    low@,
                    high@,
                    a.year_began,
                )
            },
        },
{
    match alt {
        None => {},
        Some(a) => {
            let ghost before = outcome.created@;
            outcome.created.push(
                CreatedRange {
                    source,
                    provider_series_id: a.series_id,
                    provider_series_name: a.series_name,
                    range_low: String::from_str(low),
                    range_high: String::from_str(high),
                    declared_year: a.year_began,
                },
            );
            assert(outcome.created@.drop_last() =~= before);
        },
    }
}

/// The gaps a pass goes on to resolve: those that overlap no range
/// already declared for the series and provider (`overlaps[i]` for gap
/// `i`), in order, so a declared mapping is never clobbered.
pub fn gaps_to_resolve(overlaps: &Vec<bool>) -> (r: Vec<usize>)
    ensures
        r@ == positions_where(overlaps@, false),
{
    let mut out: Vec<usize> = Vec::new();
    let mut i: usize = 0;
    while i < overlaps.len()
        invariant
            i <= overlaps@.len(),
            out@ == positions_where(overlaps@.take(i as int), false),
        decreases overlaps@.len() - i,
    {
        assert(overlaps@.take(i + 1).drop_last() =~= overlaps@.take(i as int));
        if !overlaps[i] {
            out.push(i);
        }
        i = i + 1;
    }
    assert(overlaps@.take(overlaps@.len() as int) =~= overlaps@);
    out
}

// ───────── alternate series ─────────

/// The provider series a run maps to.
#[derive(Clone, Debug)]
pub struct AltSeries {
    pub series_id: String,
    pub series_name: Option<String>,
    pub year_began: Option<i32>,
}

/// A candidate names a series other than the matched one.
pub open spec fn names_other_series(cand: IssueCandidate, main_id: Seq<char>) -> bool {
    match cand.series_external_id {
        Some(sid) => sid@.len() > 0 && sid@ != main_id,
        None => false,
    }
}

/// The alternate series a search hit points at directly: its series id,
/// when present, non-empty and not the matched series.
pub fn alternate_from_candidate(cand: &IssueCandidate, main_series_external_id: &str) -> (r:
    Option<AltSeries>)
    ensures
        names_other_series(*cand, main_series_external_id@) <==> r is Some,
        r matches Some(a) ==> a.series_id@ == cand.series_external_id.unwrap()@ && opt_view(
            a.series_name,
        ) == opt_view(cand.series_name) && a.year_began == cand.series_year,
{
    match &cand.series_external_id {
        Some(sid) => {
            if sid.as_str().unicode_len() > 0 && !str_eq(sid.as_str(), main_series_external_id) {
                Some(
                    AltSeries {
                        series_id: sid.clone(),
                        series_name: clone_opt_string(&cand.series_name),
                        year_began: cand.series_year,
                    },
                )
            } else {
                None
            }
        },
        None => None,
    }
}

/// Hits a search for an alternate series asks for.
pub const ALTERNATE_SEARCH_LIMIT: u32 = 25;

/// The search that looks for the series a run belongs to: by the local
/// series' name and year and the run's representative issue, in any
/// provider series.
pub fn alternate_search_query(series_name: &str, series_year: Option<i32>, representative: &LocalIssue) -> (r:
    IssueQuery)
    ensures
        r.series_external_id is None,
        opt_view(r.series_name) == Some(series_name@),
        r.series_year == series_year,
        r.issue_number@ == representative.canonical@,
        r.cover_year == representative.year,
        r.limit == ALTERNATE_SEARCH_LIMIT,
{
    IssueQuery {
        series_external_id: None,
        series_name: Some(String::from_str(series_name)),
        series_year,
        issue_number: representative.canonical.clone(),
        cover_year: representative.year,
        limit: ALTERNATE_SEARCH_LIMIT,
    }
}

/// The positions flagged `want`, in order.
pub open spec fn positions_where(flags: Seq<bool>, want: bool) -> Seq<usize>
    decreases flags.len(),
{
    if flags.len() == 0 {
        Seq::empty()
    } else {
        positions_where(flags.drop_last(), want) + if flags.last() == want {
            seq![(flags.len() - 1) as usize]
        } else {
            Seq::empty()
        }
    }
}

/// The order hits are tried in: those whose number matches the run's
/// representative first, then the rest, each group in search order (a
/// stable partition).
pub fn probe_order(number_matches: &Vec<bool>) -> (r: Vec<usize>)
    ensures
        r@ == positions_where(number_matches@, true) + positions_where(number_matches@, false),
{
    let mut first: Vec<usize> = Vec::new();
    let mut rest: Vec<usize> = Vec::new();
    let mut i: usize = 0;
    while i < number_matches.len()
        invariant
            i <= number_matches@.len(),
            first@ == positions_where(number_matches@.take(i as int), true),
            rest@ == positions_where(number_matches@.take(i as int), false),
        decreases number_matches@.len() - i,
    {
        assert(number_matches@.take(i + 1).drop_last() =~= number_matches@.take(i as int));
        if number_matches[i] {
            first.push(i);
        } else {
            rest.push(i);
        }
        i = i + 1;
    }
    assert(number_matches@.take(number_matches@.len() as int) =~= number_matches@);
    first.append(&mut rest);
    first
}

/// A hit without a series id is worth a detail fetch while probes remain.
pub fn should_probe(cand: &IssueCandidate, probes: usize) -> (r: bool)
    ensures
        r == (cand.series_external_id is None && probes < MAX_DETAIL_PROBES),
{
    cand.series_external_id.is_none() && probes < MAX_DETAIL_PROBES
}

/// The flagged positions are exactly the positions whose flag is `want`,
/// each once and in increasing order; the positions of both flags together
/// number the flags, so the probe order tries every hit exactly once, the
/// matching ones first.
pub proof fn lemma_positions_where(flags: Seq<bool>, want: bool)
    requires
        flags.len() <= usize::MAX,
    ensures
        forall|k: int|
            0 <= k < positions_where(flags, want).len() ==> (#[trigger] positions_where(flags, want)[k])
                < flags.len() && flags[positions_where(flags, want)[k] as int] == want,
        forall|a: int, b: int|
            0 <= a < b < positions_where(flags, want).len() ==> positions_where(flags, want)[a]
                < positions_where(flags, want)[b],
        forall|i: int|
            0 <= i < flags.len() && #[trigger] flags[i] == want ==> positions_where(flags, want).contains(
                i as usize,
            ),
        positions_where(flags, true).len() + positions_where(flags, false).len() == flags.len(),
    decreases flags.len(),
{
    if flags.len() > 0 {
        let init = flags.drop_last();
        lemma_positions_where(init, want);
        lemma_positions_where(init, !want);
        let r0 = positions_where(init, want);
        let n = flags.len() - 1;
        assert((n as usize) as int == n);
        let tail = if flags.last() == want {
            seq![n as usize]
        } else {
            Seq::<usize>::empty()
        };
        let r = r0 + tail;
        assert(positions_where(flags, want) == r);
        assert forall|k: int| 0 <= k < r.len() implies (#[trigger] r[k]) < flags.len() && flags[r[k] as int]
            == want by {
            if k < r0.len() {
                assert(r[k] == r0[k]);
                assert(init[r0[k] as int] == flags[r0[k] as int]);
            } else {
                assert(r[k] == n as usize);
            }
        }
        assert forall|a: int, b: int| 0 <= a < b < r.len() implies r[a] < r[b] by {
            if b < r0.len() {
                assert(r[a] == r0[a] && r[b] == r0[b]);
            } else {
                assert(r[a] == r0[a]);
            }
        }
        assert forall|i: int| 0 <= i < flags.len() && #[trigger] flags[i] == want implies r.contains(
            i as usize,
        ) by {
            if i < n {
                assert(init[i] == flags[i]);
                assert(r0.contains(i as usize));
                let m = choose|m: int| 0 <= m < r0.len() && r0[m] == i as usize;
                assert(r[m] == i as usize);
            } else {
                assert(r[r0.len() as int] == i as usize);
            }
        }
    }
}

} // verus!

//! Which provider series an issue of a local series belongs to, per
//! provider: a range override covering the issue wins, otherwise the
//! series-level external id is the default. Whether a range covers the
//! issue number is decided by the caller (it compares the numbers as
//! decimals) and handed in.
use vstd::prelude::*;
use vstd::string::*;
use crate::identifier::{Source, parse_source};
use crate::text::clone_opt_string;

verus! {

/// A stored range override: issues `[range_low, range_high]` of the local
/// series map to another provider series.
#[derive(Clone, Debug)]
pub struct ProviderRange {
    pub source: String,
    pub provider_series_id: String,
    pub range_low: Option<String>,
    pub range_high: Option<String>,
    pub declared_year: Option<i32>,
    pub provider_series_name: Option<String>,
    pub provider_series_url: Option<String>,
}

/// A series-level external id.
#[derive(Clone, Debug)]
pub struct SeriesExternalId {
    pub source: String,
    pub external_id: String,
    pub external_url: Option<String>,
}

/// The provider series to search and apply against for one source.
#[derive(Clone, Debug, PartialEq, Eq)]
pub struct EffectiveTarget {
    pub source: Source,
    pub provider_series_id: String,
    /// The mapped sub-series' start year; only for a range override.
    pub declared_year: Option<i32>,
    /// Only for a range override.
    pub provider_series_name: Option<String>,
    pub provider_series_url: Option<String>,
    /// The target came from a range override.
    pub via_range: bool,
}

/// The known sources among raw source strings, each once, in order of
/// first appearance.
pub open spec fn distinct_sources(raws: Seq<Seq<char>>) -> Seq<Source>
    decreases raws.len(),
{
    if raws.len() == 0 {
        Seq::empty()
    } else {
        let rest = distinct_sources(raws.drop_last());
        match parse_source(raws.last()) {
            Some(s) => if rest.contains(s) {
                rest
            } else {
                rest.push(s)
            },
            None => rest,
        }
    }
}

/// The sources with any mapping: those of the ranges, then those of the
/// series ids.
pub open spec fn mapped_sources(ranges: Seq<ProviderRange>, ids: Seq<SeriesExternalId>) -> Seq<Source> {
    distinct_sources(
        ranges.map_values(|r: ProviderRange| r.source@) + ids.map_values(
            |e: SeriesExternalId| e.source@,
        ),
    )
}

/// The first range of `s` that covers the issue.
pub open spec fn covering_range(ranges: Seq<ProviderRange>, covers: Seq<bool>, s: Source) -> Option<int>
    decreases ranges.len(),
{
    if ranges.len() == 0 {
        None
    } else if parse_source(ranges[0].source@) == Some(s) && covers[0] {
        Some(0)
    } else {
        match covering_range(ranges.drop_first(), covers.drop_first(), s) {
            Some(j) => Some(j + 1),
            None => None,
        }
    }
}

/// The first series id of `s`.
pub open spec fn default_id(ids: Seq<SeriesExternalId>, s: Source) -> Option<int>
    decreases ids.len(),
{
    if ids.len() == 0 {
        None
    } else if parse_source(ids[0].source@) == Some(s) {
        Some(0)
    } else {
        match default_id(ids.drop_first(), s) {
            Some(j) => Some(j + 1),
            None => None,
        }
    }
}

/// The target of one source.
pub open spec fn target_for(
    ranges: Seq<ProviderRange>,
    covers: Seq<bool>,
    ids: Seq<SeriesExternalId>,
    s: Source,
) -> Option<EffectiveTarget> {
    match covering_range(ranges, covers, s) {
        Some(j) => Some(
            EffectiveTarget {
                source: s,
                provider_series_id: ranges[j].provider_series_id,
                declared_year: ranges[j].declared_year,
                provider_series_name: ranges[j].provider_series_name,
                provider_series_url: ranges[j].provider_series_url,
                via_range: true,
            },
        ),
        None => match default_id(ids, s) {
            Some(j) => Some(
                EffectiveTarget {
                    source: s,
                    provider_series_id: ids[j].external_id,
                    declared_year: None,
                    provider_series_name: None,
                    provider_series_url: ids[j].external_url,
                    via_range: false,
                },
            ),
            None => None,
        },
    }
}

/// The targets of the given sources, in order, those without one left
/// out.
pub open spec fn targets_of(
    ranges: Seq<ProviderRange>,
    covers: Seq<bool>,
    ids: Seq<SeriesExternalId>,
    sources: Seq<Source>,
) -> Seq<EffectiveTarget>
    decreases sources.len(),
{
    if sources.len() == 0 {
        Seq::empty()
    } else {
        targets_of(ranges, covers, ids, sources.drop_last()) + match target_for(
            ranges,
            covers,
            ids,
            sources.last(),
        ) {
            Some(t) => seq![t],
            None => Seq::empty(),
        }
    }
}

fn push_source(sources: &mut Vec<Source>, raw: &str)
    ensures
        final(sources)@ == match parse_source(raw@) {
            Some(s) => if old(sources)@.contains(s) {
                old(sources)@
            } else {
                old(sources)@.push(s)
            },
            None => old(sources)@,
        },
{
    match Source::from_str(raw) {
        Ok(s) => {
            let mut i: usize = 0;
            while i < sources.len()
                invariant
                    i <= sources@.len(),
                    sources@ == old(sources)@,
                    parse_source(raw@) == Some(s),
                    forall|j: int| 0 <= j < i ==> sources@[j] != s,
                decreases sources@.len() - i,
            {
                if sources[i] == s {
                    assert(sources@[i as int] == s);
                    assert(sources@.contains(s));
                    return;
                }
                i = i + 1;
            }
            assert(!sources@.contains(s));
            sources.push(s);
        },
        Err(_) => {},
    }
}

fn find_covering(ranges: &[ProviderRange], covers: &Vec<bool>, s: Source) -> (r: Option<usize>)
    requires
        covers@.len() == ranges@.len(),
    ensures
        match r {
            Some(j) => j < ranges@.len() && covering_range(ranges@, covers@, s) == Some(j as int),
            None => covering_range(ranges@, covers@, s) is None,
        },
{
    let mut i: usize = 0;
    while i < ranges.len()
        invariant
            i <= ranges@.len(),
            covers@.len() == ranges@.len(),
            forall|j: int| 0 <= j < i ==> !(parse_source(#[trigger] ranges@[j].source@) == Some(s) && covers@[j]),
        decreases ranges@.len() - i,
    {
        let hit = match Source::from_str(ranges[i].source.as_str()) {
            Ok(x) => x == s && covers[i],
            Err(_) => false,
        };
        if hit {
            proof {
                lemma_covering_first(ranges@, covers@, s, i as int);
            }
            return Some(i);
        }
        i = i + 1;
    }
    proof {
        lemma_covering_none(ranges@, covers@, s);
    }
    None
}

proof fn lemma_covering_first(ranges: Seq<ProviderRange>, covers: Seq<bool>, s: Source, i: int)
    requires
        0 <= i < ranges.len(),
        covers.len() == ranges.len(),
        parse_source(ranges[i].source@) == Some(s) && covers[i],
        forall|j: int| 0 <= j < i ==> !(parse_source(#[trigger] ranges[j].source@) == Some(s) && covers[j]),
    ensures
        covering_range(ranges, covers, s) == Some(i),
    decreases i,
{
    if i > 0 {
        assert(!(parse_source(ranges[0].source@) == Some(s) && covers[0]));
        assert forall|j: int| 0 <= j < i - 1 implies !(parse_source(#[trigger] ranges.drop_first()[j].source@) == Some(s) && covers.drop_first()[j]) by {
            assert(ranges.drop_first()[j] == ranges[j + 1]);
            assert(!(parse_source(ranges[j + 1].source@) == Some(s) && covers[j + 1]));
        }
        lemma_covering_first(ranges.drop_first(), covers.drop_first(), s, i - 1);
    }
}

proof fn lemma_covering_none(ranges: Seq<ProviderRange>, covers: Seq<bool>, s: Source)
    requires
        covers.len() == ranges.len(),
        forall|j: int| 0 <= j < ranges.len() ==> !(parse_source(#[trigger] ranges[j].source@) == Some(s) && covers[j]),
    ensures
        covering_range(ranges, covers, s) is None,
    decreases ranges.len(),
{
    if ranges.len() > 0 {
        assert(!(parse_source(ranges[0].source@) == Some(s) && covers[0]));
        assert forall|j: int| 0 <= j < ranges.len() - 1 implies !(parse_source(#[trigger] ranges.drop_first()[j].source@) == Some(s) && covers.drop_first()[j]) by {
            assert(ranges.drop_first()[j] == ranges[j + 1]);
            assert(!(parse_source(ranges[j + 1].source@) == Some(s) && covers[j + 1]));
        }
        lemma_covering_none(ranges.drop_first(), covers.drop_first(), s);
    }
}

fn find_default(ids: &[SeriesExternalId], s: Source) -> (r: Option<usize>)
    ensures
        match r {
            Some(j) => j < ids@.len() && default_id(ids@, s) == Some(j as int),
            None => default_id(ids@, s) is None,
        },
{
    let mut i: usize = 0;
    while i < ids.len()
        invariant
            i <= ids@.len(),
            forall|j: int| 0 <= j < i ==> parse_source(#[trigger] ids@[j].source@) != Some(s),
        decreases ids@.len() - i,
    {
        let hit = match Source::from_str(ids[i].source.as_str()) {
            Ok(x) => x == s,
            Err(_) => false,
        };
        if hit {
            proof {
                lemma_default_first(ids@, s, i as int);
            }
            return Some(i);
        }
        i = i + 1;
    }
    proof {
        lemma_default_none(ids@, s);
    }
    None
}

proof fn lemma_default_first(ids: Seq<SeriesExternalId>, s: Source, i: int)
    requires
        0 <= i < ids.len(),
        parse_source(ids[i].source@) == Some(s),
        forall|j: int| 0 <= j < i ==> parse_source(#[trigger] ids[j].source@) != Some(s),
    ensures
        default_id(ids, s) == Some(i),
    decreases i,
{
    if i > 0 {
        assert(parse_source(ids[0].source@) != Some(s));
        assert forall|j: int| 0 <= j < i - 1 implies parse_source(#[trigger] ids.drop_first()[j].source@) != Some(s) by {
            assert(ids.drop_first()[j] == ids[j + 1]);
        }
        lemma_default_first(ids.drop_first(), s, i - 1);
    }
}

proof fn lemma_default_none(ids: Seq<SeriesExternalId>, s: Source)
    requires
        forall|j: int| 0 <= j < ids.len() ==> parse_source(#[trigger] ids[j].source@) != Some(s),
    ensures
        default_id(ids, s) is None,
    decreases ids.len(),
{
    if ids.len() > 0 {
        assert(parse_source(ids[0].source@) != Some(s));
        assert forall|j: int| 0 <= j < ids.len() - 1 implies parse_source(#[trigger] ids.drop_first()[j].source@) != Some(s) by {
            assert(ids.drop_first()[j] == ids[j + 1]);
        }
        lemma_default_none(ids.drop_first(), s);
    }
}

/// The effective target per source for one issue. `covers[i]` says
/// whether range `i` covers the issue's number. Sources appear in order
/// of first mention (ranges first); a covering range wins over the
/// series-level id; sources with neither are left out.
pub fn fold_targets(ranges: &[ProviderRange], series_ids: &[SeriesExternalId], covers: &Vec<bool>) -> (r: Vec<EffectiveTarget>)
    requires
        covers@.len() == ranges@.len(),
    ensures
        r@ == targets_of(ranges@, covers@, series_ids@, mapped_sources(ranges@, series_ids@)),
{
    let ghost raws = ranges@.map_values(|r: ProviderRange| r.source@) + series_ids@.map_values(
        |e: SeriesExternalId| e.source@,
    );
    let mut sources: Vec<Source> = Vec::new();
    let mut i: usize = 0;
    assert(raws.take(0) =~= Seq::<Seq<char>>::empty());
    while i < ranges.len()
        invariant
            i <= ranges@.len(),
            raws == ranges@.map_values(|r: ProviderRange| r.source@) + series_ids@.map_values(|e: SeriesExternalId| e.source@),
            sources@ == distinct_sources(raws.take(i as int)),
        decreases ranges@.len() - i,
    {
        assert(raws.take(i + 1).drop_last() =~= raws.take(i as int));
        assert(raws.take(i + 1).last() == ranges@[i as int].source@);
        push_source(&mut sources, ranges[i].source.as_str());
        i = i + 1;
    }
    let mut k: usize = 0;
    let n = ranges.len();
    while k < series_ids.len()
        invariant
            k <= series_ids@.len(),
            n == ranges@.len(),
            raws == ranges@.map_values(|r: ProviderRange| r.source@) + series_ids@.map_values(|e: SeriesExternalId| e.source@),
            sources@ == distinct_sources(raws.take(n + k)),
        decreases series_ids@.len() - k,
    {
        assert(raws.take(n + k + 1).drop_last() =~= raws.take(n + k));
        assert(raws.take(n + k + 1).last() == series_ids@[k as int].source@);
        push_source(&mut sources, series_ids[k].source.as_str());
        k = k + 1;
    }
    assert(raws.take(raws.len() as int) =~= raws);
    let mut out: Vec<EffectiveTarget> = Vec::new();
    let mut m: usize = 0;
    assert(out@ =~= targets_of(ranges@, covers@, series_ids@, sources@.take(0)));
    while m < sources.len()
        invariant
            m <= sources@.len(),
            covers@.len() == ranges@.len(),
            out@ == targets_of(ranges@, covers@, series_ids@, sources@.take(m as int)),
        decreases sources@.len() - m,
    {
        let s = sources[m];
        assert(sources@.take(m + 1).drop_last() =~= sources@.take(m as int));
        assert(sources@.take(m + 1).last() == s);
        match find_covering(ranges, covers, s) {
            Some(j) => {
                let r = &ranges[j];
                out.push(
                    EffectiveTarget {
                        source: s,
                        provider_series_id: r.provider_series_id.clone(),
                        declared_year: r.declared_year,
                        provider_series_name: clone_opt_string(&r.provider_series_name),
                        provider_series_url: clone_opt_string(&r.provider_series_url),
                        via_range: true,
                    },
                );
            },
            None => match find_default(series_ids, s) {
                Some(j) => {
                    let e = &series_ids[j];
                    out.push(
                        EffectiveTarget {
                            source: s,
                            provider_series_id: e.external_id.clone(),
                            declared_year: None,
                            provider_series_name: None,
                            provider_series_url: clone_opt_string(&e.external_url),
                            via_range: false,
                        },
                    );
                },
                None => {},
            },
        }
        m = m + 1;
        assert(out@ =~= targets_of(ranges@, covers@, series_ids@, sources@.take(m as int)));
    }
    assert(sources@.take(sources@.len() as int) =~= sources@);
    out
}

/// A range that covers the issue wins over the series-level id; without
/// one, the series-level id is the default; with neither, the source has
/// no target.
pub proof fn lemma_range_wins(
    ranges: Seq<ProviderRange>,
    covers: Seq<bool>,
    ids: Seq<SeriesExternalId>,
    s: Source,
)
    ensures
        covering_range(ranges, covers, s) is Some ==> (target_for(ranges, covers, ids, s) matches Some(t) && t.via_range
            && t.provider_series_id == ranges[covering_range(ranges, covers, s).unwrap()].provider_series_id),
        covering_range(ranges, covers, s) is None && default_id(ids, s) is Some ==> (target_for(ranges, covers, ids, s) matches Some(t)
            && !t.via_range && t.declared_year is None
            && t.provider_series_id == ids[default_id(ids, s).unwrap()].external_id),
        covering_range(ranges, covers, s) is None && default_id(ids, s) is None ==> target_for(ranges, covers, ids, s) is None,
{
}

/// The covering range of a source is the first range of that source that
/// covers the issue; there is none exactly when no range of it does.
pub proof fn lemma_covering_range_first(ranges: Seq<ProviderRange>, covers: Seq<bool>, s: Source)
    requires
        covers.len() == ranges.len(),
    ensures
        match covering_range(ranges, covers, s) {
            Some(j) => 0 <= j < ranges.len() && parse_source(ranges[j].source@) == Some(s) && covers[j]
                && forall|k: int|
                0 <= k < j ==> !(parse_source((#[trigger] ranges[k]).source@) == Some(s) && covers[k]),
            None => forall|k: int|
                0 <= k < ranges.len() ==> !(parse_source((#[trigger] ranges[k]).source@) == Some(s)
                    && covers[k]),
        },
    decreases ranges.len(),
{
    if ranges.len() > 0 {
        let r2 = ranges.drop_first();
        let c2 = covers.drop_first();
        lemma_covering_range_first(r2, c2, s);
        if !(parse_source(ranges[0].source@) == Some(s) && covers[0]) {
            match covering_range(r2, c2, s) {
                Some(j) => {
                    assert(r2[j] == ranges[j + 1]);
                    assert forall|k: int| 0 <= k < j + 1 implies !(parse_source((#[trigger] ranges[k]).source@)
                        == Some(s) && covers[k]) by {
                        if k > 0 {
                            assert(ranges[k] == r2[k - 1]);
                            assert(covers[k] == c2[k - 1]);
                        }
                    }
                },
                None => {
                    assert forall|k: int| 0 <= k < ranges.len() implies !(parse_source(
                        (#[trigger] ranges[k]).source@,
                    ) == Some(s) && covers[k]) by {
                        if k > 0 {
                            assert(ranges[k] == r2[k - 1]);
                            assert(covers[k] == c2[k - 1]);
                        }
                    }
                },
            }
        }
    }
}

/// The default id of a source is its first series-level id; there is
/// none exactly when the series has no id of that source.
pub proof fn lemma_default_id_first(ids: Seq<SeriesExternalId>, s: Source)
    ensures
        match default_id(ids, s) {
            Some(j) => 0 <= j < ids.len() && parse_source(ids[j].source@) == Some(s) && forall|k: int|
                0 <= k < j ==> parse_source((#[trigger] ids[k]).source@) != Some(s),
            None => forall|k: int| 0 <= k < ids.len() ==> parse_source((#[trigger] ids[k]).source@) != Some(s),
        },
    decreases ids.len(),
{
    if ids.len() > 0 {
        let r2 = ids.drop_first();
        lemma_default_id_first(r2, s);
        if parse_source(ids[0].source@) != Some(s) {
            match default_id(r2, s) {
                Some(j) => {
                    assert(r2[j] == ids[j + 1]);
                    assert forall|k: int| 0 <= k < j + 1 implies parse_source((#[trigger] ids[k]).source@)
                        != Some(s) by {
                        if k > 0 {
                            assert(ids[k] == r2[k - 1]);
                        }
                    }
                },
                None => {
                    assert forall|k: int| 0 <= k < ids.len() implies parse_source((#[trigger] ids[k]).source@)
                        != Some(s) by {
                        if k > 0 {
                            assert(ids[k] == r2[k - 1]);
                        }
                    }
                },
            }
        }
    }
}

/// The mapped sources: each known source once, and a source is among them
/// exactly when some raw source text parses to it.
pub proof fn lemma_distinct_sources(raws: Seq<Seq<char>>, s: Source)
    ensures
        distinct_sources(raws).contains(s) == exists|i: int|
            0 <= i < raws.len() && parse_source(#[trigger] raws[i]) == Some(s),
        forall|a: int, b: int|
            0 <= a < b < distinct_sources(raws).len() ==> distinct_sources(raws)[a] != distinct_sources(raws)[b],
    decreases raws.len(),
{
    if raws.len() > 0 {
        let init = raws.drop_last();
        lemma_distinct_sources(init, s);
        let rest = distinct_sources(init);
        if exists|i: int| 0 <= i < init.len() && parse_source(#[trigger] init[i]) == Some(s) {
            let i = choose|i: int| 0 <= i < init.len() && parse_source(#[trigger] init[i]) == Some(s);
            assert(raws[i] == init[i]);
        }
        if exists|i: int| 0 <= i < raws.len() && parse_source(#[trigger] raws[i]) == Some(s) {
            let i = choose|i: int| 0 <= i < raws.len() && parse_source(#[trigger] raws[i]) == Some(s);
            if i < init.len() {
                assert(init[i] == raws[i]);
            }
        }
        match parse_source(raws.last()) {
            Some(t) => {
                if !rest.contains(t) {
                    assert(rest.push(t).last() == t);
                    assert forall|a: int, b: int|
                        0 <= a < b < rest.push(t).len() implies rest.push(t)[a] != rest.push(t)[b] by {
                        if b == rest.len() {
                            assert(rest.push(t)[a] == rest[a]);
                        } else {
                            assert(rest.push(t)[a] == rest[a]);
                            assert(rest.push(t)[b] == rest[b]);
                        }
                    }
                    if rest.push(t).contains(s) && !rest.contains(s) {
                        assert(t == s);
                    }
                    if rest.contains(s) {
                        let m = choose|m: int| 0 <= m < rest.len() && rest[m] == s;
                        assert(rest.push(t)[m] == s);
                    }
                } else {
                    if t == s {
                        assert(raws[raws.len() - 1] == raws.last());
                    }
                }
            },
            None => {},
        }
    }
}

} // verus!

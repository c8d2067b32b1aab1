//! Composite applies: several providers' candidates merged field by
//! field, the preview of such a merge, and the per-field sources an apply
//! of it follows.
use vstd::prelude::*;
use vstd::string::*;
use crate::field::{MetadataField, field_key};
use crate::identifier::{Identifier, Source, parse_source};
use crate::apply::{
    ApplyArgs, ProvenanceMap, SeriesRow, IssueRow, classify_spec, classify_field,
    diff_decision_key, row_has_cover_date,
};
use crate::merge::{
    MergeScope, MergePolicyConfig, ProviderDetail, FieldChoice, fields_of_scope, scope_fields,
    value_of, is_float_field, eligible, chosen_at, chosen_value, choose_field_candidate,
    chosen_value_of, field_value_as_string, norm, int_value, series_scope_fields,
    issue_scope_fields, build_default_merge, norm_exec,
};
use crate::diff::{
    ProvenanceDetail, ProvenanceRows, set_by_shown, set_at_shown, count_text, format_count,
    csv_count, credits_count, date_text_of, first_per_source, int_opt_view, row_cover_date_text,
    row_cover_date_string, int_opt_text, csv_of, count_credits, provenance_columns, opt_as_str,
    variants_with_image,
};
use crate::identifier::source_key;
use crate::provider::{GenericMetadata, CreditCandidate, EntityCandidate, VariantCoverCandidate, clone_identifier, clone_identifiers, clone_credits, clone_entities, clone_variants, credits_view, entities_view, variant_covers_view};
use crate::apply::ProvSource;
use crate::writers::SetBy;
use crate::merge::{detail_of, rank_of};
use crate::text::{first_match, find_key, lemma_first_match_append, opt_view, opt_str_view, clone_opt_string, str_eq, concat2, concat3};
use crate::writers::string_views;

verus! {

/// One proposal of a composite row: a provider's value.
#[derive(Clone, Debug)]
pub struct CompositeProposal {
    pub source: String,
    pub ordinal: i32,
    pub value: Option<String>,
}

/// One field of a composite preview.
#[derive(Clone, Debug)]
pub struct CompositeFieldRow {
    pub field: String,
    pub label: String,
    pub current_value: Option<String>,
    pub current_set_by: Option<String>,
    pub current_set_at: Option<String>,
    pub proposals: Vec<CompositeProposal>,
    pub chosen_ordinal: Option<i32>,
    /// The [`DiffDecision`](crate::apply::DiffDecision) key for the chosen
    /// value.
    pub decision: String,
}

/// A stored search candidate: its provider (as stored) and position.
#[derive(Clone, Debug)]
pub struct RunCandidate {
    pub source: String,
    pub ordinal: i32,
    pub external_id: String,
}

/// The subtitle of an issue candidate's column: "Series #N", the series
/// alone, "#N", or else the candidate's own name.
pub open spec fn issue_title(
    series: Option<Seq<char>>,
    number: Option<Seq<char>>,
    name: Option<Seq<char>>,
) -> Option<Seq<char>> {
    match (series, number) {
        (Some(s), Some(n)) => Some(s + " #"@ + n),
        (Some(s), None) => Some(s),
        (None, Some(n)) => Some("#"@ + n),
        (None, None) => name,
    }
}

/// The subtitle of an issue candidate's column in the composite view.
pub fn issue_column_title(
    series_name: &Option<String>,
    issue_number: &Option<String>,
    name: &Option<String>,
) -> (r: Option<String>)
    ensures
        opt_view(r) == issue_title(opt_view(*series_name), opt_view(*issue_number), opt_view(*name)),
{
    match (series_name, issue_number) {
        (Some(s), Some(n)) => Some(concat3(s.as_str(), " #", n.as_str())),
        (Some(s), None) => Some(s.clone()),
        (None, Some(n)) => Some(concat2("#", n.as_str())),
        (None, None) => clone_opt_string(name),
    }
}

/// The ordinals of the first candidate of each known provider, in order.
pub open spec fn best_per_provider(cs: Seq<RunCandidate>) -> Seq<i32>
    decreases cs.len(),
{
    if cs.len() == 0 {
        Seq::empty()
    } else {
        let c = cs.last();
        best_per_provider(cs.drop_last()) + match parse_source(c.source@) {
            Some(s) => if (exists|j: int|
                0 <= j < cs.len() - 1 && parse_source(cs[j].source@) == Some(s)) {
                Seq::empty()
            } else {
                seq![c.ordinal]
            },
            None => Seq::empty(),
        }
    }
}

/// The default selection of a composite: the best (first) candidate of
/// each provider.
pub fn default_best_per_provider(candidates: &[RunCandidate]) -> (r: Vec<i32>)
    ensures
        r@ == best_per_provider(candidates@),
{
    let mut seen: Vec<Source> = Vec::new();
    let mut out: Vec<i32> = Vec::new();
    let mut i: usize = 0;
    assert(candidates@.take(0) =~= Seq::<RunCandidate>::empty());
    while i < candidates.len()
        invariant
            i <= candidates@.len(),
            forall|s: Source| #[trigger] seen@.contains(s) <==> exists|j: int|
                0 <= j < i && parse_source(candidates@[j].source@) == Some(s),
            out@ == best_per_provider(candidates@.take(i as int)),
        decreases candidates@.len() - i,
    {
        let ghost pre = candidates@.take(i as int);
        let ghost post = candidates@.take(i + 1);
        assert(post.drop_last() =~= pre);
        assert(post.last() == candidates@[i as int]);
        let ghost seen0 = seen@;
        match Source::from_str(candidates[i].source.as_str()) {
            Ok(src) => {
                let mut found = false;
                let mut k: usize = 0;
                while k < seen.len()
                    invariant
                        k <= seen@.len(),
                        found <==> exists|m: int| 0 <= m < k && seen@[m] == src,
                    decreases seen@.len() - k,
                {
                    if seen[k] == src {
                        found = true;
                    }
                    k = k + 1;
                }
                assert(found <==> seen@.contains(src));
                if found {
                    assert(exists|j: int|
                        0 <= j < post.len() - 1 && parse_source(post[j].source@) == Some(src)) by {
                        let j = choose|j: int|
                            0 <= j < i && parse_source(candidates@[j].source@) == Some(src);
                        assert(post[j] == candidates@[j]);
                    }
                    assert(best_per_provider(post) =~= out@);
                } else {
                    assert(!exists|j: int|
                        0 <= j < post.len() - 1 && parse_source(post[j].source@) == Some(src)) by {
                        if exists|j: int|
                            0 <= j < post.len() - 1 && parse_source(post[j].source@) == Some(src) {
                            let j = choose|j: int|
                                0 <= j < post.len() - 1 && parse_source(post[j].source@) == Some(
                                    src,
                                );
                            assert(post[j] == candidates@[j]);
                            assert(seen@.contains(src));
                        }
                    }
                    seen.push(src);
                    assert(seen@.last() == src);
                    assert(forall|x: Source| #[trigger] seen@.contains(x) ==> seen0.contains(x) || x == src) by {
                        assert forall|x: Source| #[trigger] seen@.contains(x) implies seen0.contains(x) || x == src by {
                            let m = choose|m: int| 0 <= m < seen@.len() && seen@[m] == x;
                            if m < seen0.len() {
                                assert(seen0[m] == x);
                            }
                        }
                    }
                    out.push(candidates[i].ordinal);
                    assert(best_per_provider(post) =~= best_per_provider(pre).push(
                        candidates@[i as int].ordinal,
                    ));
                }
            },
            Err(_) => {
                assert(best_per_provider(post) =~= out@);
            },
        }
        assert(forall|s: Source|
            parse_source(candidates@[i as int].source@) == Some(s) ==> #[trigger] seen@.contains(s));
        assert(forall|x: Source| #[trigger] seen@.contains(x) ==> seen0.contains(x)
            || parse_source(candidates@[i as int].source@) == Some(x));
        assert forall|s: Source| #[trigger] seen@.contains(s) <==> exists|j: int|
            0 <= j < i + 1 && parse_source(candidates@[j].source@) == Some(s) by {
            if seen@.contains(s) {
                let m = choose|m: int| 0 <= m < seen@.len() && seen@[m] == s;
                if m < seen0.len() {
                    assert(seen0[m] == s);
                    assert(seen0.contains(s));
                    let j = choose|j: int|
                        0 <= j < i && parse_source(candidates@[j].source@) == Some(s);
                    assert(0 <= j < i + 1 && parse_source(candidates@[j].source@) == Some(s));
                } else {
                    assert(parse_source(candidates@[i as int].source@) == Some(s));
                }
            }
            if exists|j: int| 0 <= j < i + 1 && parse_source(candidates@[j].source@) == Some(s) {
                let j = choose|j: int|
                    0 <= j < i + 1 && parse_source(candidates@[j].source@) == Some(s);
                if j < i {
                    assert(seen0.contains(s));
                    let m = choose|m: int| 0 <= m < seen0.len() && seen0[m] == s;
                    assert(seen@[m] == s);
                } else {
                    assert(seen@.contains(s));
                }
            }
        }
        i = i + 1;
    }
    assert(candidates@.take(candidates@.len() as int) =~= candidates@);
    out
}

// ───────── field sources ─────────

/// The candidate each field of a composite apply is taken from; a field
/// occurs at most once.
#[derive(Debug)]
pub struct FieldSources {
    entries: Vec<(String, i32)>,
}

impl FieldSources {
    /// The candidate `key` is taken from.
    pub closed spec fn source_of(&self, key: Seq<char>) -> Option<i32> {
        first_match(self.entries@, key)
    }

    /// The fields with a source.
    pub closed spec fn keys(&self) -> Set<Seq<char>> {
        Set::new(|k: Seq<char>| first_match(self.entries@, k) is Some)
    }

    /// A field occurs at most once.
    #[verifier::type_invariant]
    spec fn wf(&self) -> bool {
        forall|i: int, j: int|
            0 <= i < j < self.entries@.len() ==> self.entries@[i].0@ != self.entries@[j].0@
    }

    pub closed spec fn size(&self) -> nat {
        self.entries@.len()
    }

    pub fn new() -> (r: Self)
        ensures
            r.size() == 0,
            forall|k: Seq<char>| r.source_of(k) is None,
    {
        FieldSources { entries: Vec::new() }
    }

    /// Set the source of `key`, replacing an earlier one.
    pub fn insert(&mut self, key: String, ordinal: i32)
        ensures
            forall|k: Seq<char>| #[trigger]
                final(self).source_of(k) == if k == key@ {
                    Some(ordinal)
                } else {
                    old(self).source_of(k)
                },
            final(self).size() == old(self).size() + if old(self).source_of(key@) is Some {
                0int
            } else {
                1int
            },
    {
        proof {
            use_type_invariant(&*self);
        }
        let mut entries: Vec<(String, i32)> = Vec::new();
        std::mem::swap(&mut entries, &mut self.entries);
        let ghost before = entries@;
        let ghost kv = key@;
        match find_key(&entries, key.as_str()) {
            Some(i) => {
                let ghost p = (key, ordinal);
                entries.set(i, (key, ordinal));
                assert(entries@ == before.update(i as int, p));
                assert forall|k: Seq<char>| #[trigger]
                    first_match(entries@, k) == if k == kv {
                        Some(ordinal)
                    } else {
                        first_match(before, k)
                    } by {
                    lemma_first_match_update(before, i as int, p, k);
                }
                assert forall|a: int, b: int|
                    0 <= a < b < entries@.len() implies entries@[a].0@
                    != entries@[b].0@ by {
                    if a == i {
                        assert(before[b].0@ != before[i as int].0@);
                    } else if b == i {
                        assert(before[a].0@ != before[i as int].0@);
                    }
                }
            },
            None => {
                let ghost p = (key, ordinal);
                proof {
                    lemma_first_match_none(before, kv);
                }
                entries.push((key, ordinal));
                assert(entries@ == before.push(p));
                assert forall|k: Seq<char>| #[trigger]
                    first_match(entries@, k) == if k == kv {
                        Some(ordinal)
                    } else {
                        first_match(before, k)
                    } by {
                    lemma_first_match_append(before, p, k);
                }
                assert forall|a: int, b: int|
                    0 <= a < b < entries@.len() implies entries@[a].0@
                    != entries@[b].0@ by {
                    if b == before.len() {
                        assert(before[a].0@ != kv);
                    }
                }
            },
        }
        self.entries = entries;
    }

    /// The source of `key`.
    pub fn get(&self, key: &str) -> (r: Option<i32>)
        ensures
            r == self.source_of(key@),
    {
        match find_key(&self.entries, key) {
            Some(i) => Some(self.entries[i].1),
            None => None,
        }
    }

    /// The fields with a source, each once.
    pub fn key_list(&self) -> (r: Vec<String>)
        ensures
            r@.len() == self.size(),
            forall|k: Seq<char>| string_views(r@).contains(k) <==> #[trigger] self.source_of(k) is Some,
    {
        proof {
            use_type_invariant(self);
        }
        let mut out: Vec<String> = Vec::new();
        let mut i: usize = 0;
        while i < self.entries.len()
            invariant
                i <= self.entries@.len(),
                out@.len() == i,
                forall|j: int| 0 <= j < i ==> #[trigger] out@[j]@ == self.entries@[j].0@,
            decreases self.entries@.len() - i,
        {
            out.push(self.entries[i].0.clone());
            i = i + 1;
        }
        assert forall|k: Seq<char>| string_views(out@).contains(k) <==> #[trigger] self.source_of(k) is Some by {
            if string_views(out@).contains(k) {
                let j = choose|j: int| 0 <= j < string_views(out@).len() && string_views(out@)[j] == k;
                lemma_first_match_some(self.entries@, j, k);
            }
            if self.source_of(k) is Some {
                let j = lemma_first_match_index(self.entries@, k);
                assert(string_views(out@)[j] == k);
            }
        }
        out
    }

    /// The number of fields with a source.
    pub fn len(&self) -> (r: usize)
        ensures
            r == self.size(),
    {
        self.entries.len()
    }

    pub fn is_empty(&self) -> (r: bool)
        ensures
            r == (self.size() == 0),
    {
        self.entries.len() == 0
    }
}

proof fn lemma_first_match_some(m: Seq<(String, i32)>, j: int, key: Seq<char>)
    requires
        0 <= j < m.len(),
        m[j].0@ == key,
    ensures
        first_match(m, key) is Some,
    decreases m.len(),
{
    if m[0].0@ != key {
        assert(m.drop_first()[j - 1] == m[j]);
        lemma_first_match_some(m.drop_first(), j - 1, key);
    }
}

proof fn lemma_first_match_index(m: Seq<(String, i32)>, key: Seq<char>) -> (j: int)
    requires
        first_match(m, key) is Some,
    ensures
        0 <= j < m.len() && m[j].0@ == key,
    decreases m.len(),
{
    if m[0].0@ == key {
        0
    } else {
        let j = lemma_first_match_index(m.drop_first(), key);
        assert(m.drop_first()[j] == m[j + 1]);
        j + 1
    }
}

proof fn lemma_first_match_none(m: Seq<(String, i32)>, key: Seq<char>)
    requires
        first_match(m, key) is None,
    ensures
        forall|i: int| 0 <= i < m.len() ==> #[trigger] m[i].0@ != key,
    decreases m.len(),
{
    if m.len() > 0 {
        lemma_first_match_none(m.drop_first(), key);
        assert forall|i: int| 0 <= i < m.len() implies #[trigger] m[i].0@ != key by {
            if i > 0 {
                assert(m[i] == m.drop_first()[i - 1]);
            }
        }
    }
}

proof fn lemma_first_match_update(m: Seq<(String, i32)>, i: int, p: (String, i32), k: Seq<char>)
    requires
        0 <= i < m.len(),
        m[i].0@ == p.0@,
        forall|a: int, b: int| 0 <= a < b < m.len() ==> m[a].0@ != m[b].0@,
    ensures
        first_match(m.update(i, p), k) == if k == p.0@ {
            Some(p.1)
        } else {
            first_match(m, k)
        },
    decreases m.len(),
{
    let u = m.update(i, p);
    if i == 0 {
        assert(u[0] == p);
        assert(u.drop_first() =~= m.drop_first());
    } else {
        assert(u[0] == m[0]);
        assert(u.drop_first() =~= m.drop_first().update(i - 1, p));
        assert(m[0].0@ != m[i].0@);
        if m[0].0@ != k {
            assert forall|a: int, b: int|
                0 <= a < b < m.drop_first().len() implies m.drop_first()[a].0@ != m.drop_first()[b].0@ by {
                assert(m.drop_first()[a] == m[a + 1]);
                assert(m.drop_first()[b] == m[b + 1]);
            }
            lemma_first_match_update(m.drop_first(), i - 1, p, k);
        }
    }
}

/// The sources of a merge's filled choices; fields without a chosen
/// candidate are left out.
pub fn field_sources_from_choices(choices: Vec<FieldChoice>) -> (r: FieldSources)
    ensures
        forall|k: Seq<char>| #[trigger]
            r.source_of(k) == chosen_source(choices@, k),
{
    let mut out = FieldSources::new();
    let mut i: usize = 0;
    assert(choices@.take(0) =~= Seq::<FieldChoice>::empty());
    while i < choices.len()
        invariant
            i <= choices@.len(),
            forall|k: Seq<char>| #[trigger]
                out.source_of(k) == chosen_source(choices@.take(i as int), k),
        decreases choices@.len() - i,
    {
        assert(choices@.take(i + 1).drop_last() =~= choices@.take(i as int));
        assert(choices@.take(i + 1).last() == choices@[i as int]);
        match choices[i].ordinal {
            Some(o) => {
                out.insert(choices[i].field.key(), o);
            },
            None => {},
        }
        i = i + 1;
    }
    assert(choices@.take(choices@.len() as int) =~= choices@);
    out
}

/// The candidate of `key` among the filled choices; a later choice of the
/// same field wins.
pub open spec fn chosen_source(cs: Seq<FieldChoice>, key: Seq<char>) -> Option<i32>
    decreases cs.len(),
{
    if cs.len() == 0 {
        None
    } else {
        let c = cs.last();
        if field_key(c.field) == key && c.ordinal is Some {
            c.ordinal
        } else {
            chosen_source(cs.drop_last(), key)
        }
    }
}

// ───────── preview ─────────

/// The label a preview row shows for a field.
pub open spec fn field_label(f: MetadataField) -> Seq<char> {
    match f {
        MetadataField::Title => "Title"@,
        MetadataField::SortName => "Sort name"@,
        MetadataField::SeriesType => "Series type"@,
        MetadataField::YearBegan => "Year began"@,
        MetadataField::YearEnd => "Year ended"@,
        MetadataField::Volume => "Volume"@,
        MetadataField::Publisher => "Publisher"@,
        MetadataField::Imprint => "Imprint"@,
        MetadataField::Deck => "Deck"@,
        MetadataField::Description => "Description"@,
        MetadataField::AgeRating => "Age rating"@,
        MetadataField::PageCount => "Page count"@,
        MetadataField::Sku => "SKU"@,
        MetadataField::CoverDate => "Cover date"@,
        MetadataField::Credits => "Credits"@,
        MetadataField::Characters => "Characters"@,
        MetadataField::Teams => "Teams"@,
        MetadataField::Locations => "Locations"@,
        MetadataField::StoryArcs => "Story arcs"@,
        MetadataField::Tags => "Tags"@,
        MetadataField::Genres => "Genres"@,
        MetadataField::CoverPrimary => "Primary cover"@,
        MetadataField::CoverVariants => "Variant covers"@,
        _ => "Field"@,
    }
}

pub fn label_for(field: MetadataField) -> (r: &'static str)
    ensures
        r@ == field_label(field),
{
    match field {
        MetadataField::Title => "Title",
        MetadataField::SortName => "Sort name",
        MetadataField::SeriesType => "Series type",
        MetadataField::YearBegan => "Year began",
        MetadataField::YearEnd => "Year ended",
        MetadataField::Volume => "Volume",
        MetadataField::Publisher => "Publisher",
        MetadataField::Imprint => "Imprint",
        MetadataField::Deck => "Deck",
        MetadataField::Description => "Description",
        MetadataField::AgeRating => "Age rating",
        MetadataField::PageCount => "Page count",
        MetadataField::Sku => "SKU",
        MetadataField::CoverDate => "Cover date",
        MetadataField::Credits => "Credits",
        MetadataField::Characters => "Characters",
        MetadataField::Teams => "Teams",
        MetadataField::Locations => "Locations",
        MetadataField::StoryArcs => "Story arcs",
        MetadataField::Tags => "Tags",
        MetadataField::Genres => "Genres",
        MetadataField::CoverPrimary => "Primary cover",
        MetadataField::CoverVariants => "Variant covers",
        _ => "Field",
    }
}

/// A count as a current value: nothing for zero, else "1 item" or
/// "N items".
pub open spec fn count_value(n: nat) -> Option<Seq<char>> {
    if n == 0 {
        None
    } else {
        Some(count_text(n))
    }
}

pub fn count_string(n: usize) -> (r: Option<String>)
    ensures
        opt_view(r) == count_value(n as nat),
{
    if n == 0 {
        None
    } else {
        Some(format_count(n))
    }
}

/// The stored value of a series field as the preview shows it.
pub open spec fn series_current_value(row: SeriesRow, f: MetadataField) -> Option<Seq<char>> {
    match f {
        MetadataField::Title => norm(Some(row.name)),
        MetadataField::SortName => norm(row.sort_name),
        MetadataField::SeriesType => norm(row.series_type),
        MetadataField::YearBegan => int_opt_view(row.year),
        MetadataField::YearEnd => int_opt_view(row.year_end),
        MetadataField::Volume => int_opt_view(row.volume),
        MetadataField::Publisher => norm(row.publisher),
        MetadataField::Imprint => norm(row.imprint),
        MetadataField::Deck => norm(row.deck),
        MetadataField::Description => norm(row.summary),
        _ => None,
    }
}

pub fn series_current(row: &SeriesRow, field: MetadataField) -> (r: Option<String>)
    ensures
        opt_view(r) == series_current_value(*row, field),
{
    match field {
        MetadataField::Title => norm_exec(&Some(row.name.clone())),
        MetadataField::SortName => norm_exec(&row.sort_name),
        MetadataField::SeriesType => norm_exec(&row.series_type),
        MetadataField::YearBegan => int_opt_text(row.year),
        MetadataField::YearEnd => int_opt_text(row.year_end),
        MetadataField::Volume => int_opt_text(row.volume),
        MetadataField::Publisher => norm_exec(&row.publisher),
        MetadataField::Imprint => norm_exec(&row.imprint),
        MetadataField::Deck => norm_exec(&row.deck),
        MetadataField::Description => norm_exec(&row.summary),
        _ => None,
    }
}

/// The stored value of an issue field as the preview shows it; lists
/// show their entry count, variant covers the number of active variant
/// covers on record (`variant_covers`).
pub open spec fn issue_current_value(row: IssueRow, f: MetadataField, variant_covers: nat) -> Option<
    Seq<char>,
> {
    match f {
        MetadataField::Title => norm(row.title),
        MetadataField::Deck => norm(row.deck),
        MetadataField::Description => norm(row.summary),
        MetadataField::AgeRating => norm(row.age_rating),
        MetadataField::PageCount => int_opt_view(row.page_count),
        MetadataField::Sku => norm(row.sku),
        MetadataField::CoverDate => row_cover_date_text(row),
        MetadataField::Credits => count_value(credits_count(row)),
        MetadataField::Characters => count_value(csv_count(opt_view(row.characters))),
        MetadataField::Teams => count_value(csv_count(opt_view(row.teams))),
        MetadataField::Locations => count_value(csv_count(opt_view(row.locations))),
        MetadataField::StoryArcs => count_value(csv_count(opt_view(row.story_arc))),
        MetadataField::Tags => count_value(csv_count(opt_view(row.tags))),
        MetadataField::Genres => count_value(csv_count(opt_view(row.genre))),
        MetadataField::CoverVariants => count_value(variant_covers),
        _ => None,
    }
}

pub fn issue_current(row: &IssueRow, field: MetadataField, variant_covers: usize) -> (r: Option<String>)
    requires
        credits_count(*row) <= usize::MAX,
    ensures
        opt_view(r) == issue_current_value(*row, field, variant_covers as nat),
{
    match field {
        MetadataField::Title => norm_exec(&row.title),
        MetadataField::Deck => norm_exec(&row.deck),
        MetadataField::Description => norm_exec(&row.summary),
        MetadataField::AgeRating => norm_exec(&row.age_rating),
        MetadataField::PageCount => int_opt_text(row.page_count),
        MetadataField::Sku => norm_exec(&row.sku),
        MetadataField::CoverDate => row_cover_date_string(row),
        MetadataField::Credits => count_string(count_credits(row)),
        MetadataField::Characters => count_string(csv_of(&row.characters)),
        MetadataField::Teams => count_string(csv_of(&row.teams)),
        MetadataField::Locations => count_string(csv_of(&row.locations)),
        MetadataField::StoryArcs => count_string(csv_of(&row.story_arc)),
        MetadataField::Tags => count_string(csv_of(&row.tags)),
        MetadataField::Genres => count_string(csv_of(&row.genre)),
        MetadataField::CoverVariants => count_string(variant_covers),
        _ => None,
    }
}

/// A proposal as plain values.
pub open spec fn proposal_view(p: CompositeProposal) -> (Seq<char>, i32, Option<Seq<char>>) {
    (p.source@, p.ordinal, opt_view(p.value))
}

/// Every included candidate's value of a field, in candidate order.
pub open spec fn proposals_for(ds: Seq<ProviderDetail>, f: MetadataField, scope: MergeScope) -> Seq<
    (Seq<char>, i32, Option<Seq<char>>),
> {
    ds.map_values(|d: ProviderDetail| (source_key(d.source), d.ordinal, value_of(d.detail, f, scope)))
}

fn proposals(details: &[ProviderDetail], field: MetadataField, scope: MergeScope) -> (r: Vec<
    CompositeProposal,
>)
    requires
        !is_float_field(field),
    ensures
        r@.map_values(|p: CompositeProposal| proposal_view(p)) == proposals_for(details@, field, scope),
{
    let mut out: Vec<CompositeProposal> = Vec::new();
    let mut i: usize = 0;
    while i < details.len()
        invariant
            i <= details@.len(),
            !is_float_field(field),
            out@.len() == i,
            forall|j: int| 0 <= j < i ==> #[trigger] proposal_view(out@[j]) == proposals_for(details@, field, scope)[j],
        decreases details@.len() - i,
    {
        let d = &details[i];
        out.push(
            CompositeProposal {
                source: string_of_static(d.source.as_str()),
                ordinal: d.ordinal,
                value: field_value_as_string(&d.detail, field, scope),
            },
        );
        i = i + 1;
    }
    assert(out@.map_values(|p: CompositeProposal| proposal_view(p)) =~= proposals_for(details@, field, scope));
    out
}

fn string_of_static(s: &str) -> (r: String)
    ensures
        r@ == s@,
{
    crate::text::string_of(&crate::text::chars_of(s))
}

/// What the preview row of field `f` shows.
pub open spec fn composite_row_is(
    row: CompositeFieldRow,
    f: MetadataField,
    current: Option<Seq<char>>,
    ds: Seq<ProviderDetail>,
    pref: Seq<Source>,
    provenance: ProvenanceMap,
    full: Seq<(String, ProvenanceDetail)>,
    args: ApplyArgs,
    scope: MergeScope,
) -> bool {
    &&& row.field@ == field_key(f)
    &&& row.label@ == field_label(f)
    &&& opt_view(row.current_value) == current
    &&& opt_view(row.current_set_by) == set_by_shown(full, field_key(f))
    &&& opt_view(row.current_set_at) == set_at_shown(full, field_key(f))
    &&& row.proposals@.map_values(|p: CompositeProposal| proposal_view(p)) == proposals_for(ds, f, scope)
    &&& (row.chosen_ordinal matches Some(o) ==> exists|k: int|
        chosen_at(ds, pref, f, scope, k) && ds[k].ordinal == o)
    &&& (row.chosen_ordinal is None ==> forall|j: int|
        0 <= j < ds.len() ==> !#[trigger] eligible(ds[j], f, scope))
    &&& row.decision@ == diff_decision_key(
        classify_spec(current, chosen_value(ds, row.chosen_ordinal, f, scope), provenance, f, args),
    )
}

proof fn lemma_scope_fields_exact(scope: MergeScope)
    ensures
        forall|i: int| 0 <= i < fields_of_scope(scope).len() ==> !is_float_field(#[trigger] fields_of_scope(scope)[i]),
{
    assert forall|i: int| 0 <= i < fields_of_scope(scope).len() implies !is_float_field(#[trigger] fields_of_scope(scope)[i]) by {
        match scope {
            MergeScope::Series => {
                assert(0 <= i < 10);
            },
            MergeScope::Issue => {
                assert(0 <= i < 16);
            },
        }
    }
}

/// The rows of a composite preview, one per field of the scope, with the
/// stored values `currents` in field order.
pub fn composite_rows(
    scope: MergeScope,
    currents: &Vec<Option<String>>,
    details: &[ProviderDetail],
    policy: &MergePolicyConfig,
    provenance: &ProvenanceMap,
    full: &ProvenanceRows,
    args: &ApplyArgs,
) -> (r: Vec<CompositeFieldRow>)
    requires
        currents@.len() == fields_of_scope(scope).len(),
    ensures
        r@.len() == fields_of_scope(scope).len(),
        forall|i: int|
            0 <= i < r@.len() ==> composite_row_is(
                #[trigger] r@[i],
                fields_of_scope(scope)[i],
                opt_view(currents@[i]),
                details@,
                policy.provider_preference@,
                *provenance,
                full@,
                *args,
                scope,
            ),
{
    let fields = scope_fields(scope);
    let choices = build_default_merge(details, policy, scope);
    proof {
        lemma_scope_fields_exact(scope);
    }
    let mut rows: Vec<CompositeFieldRow> = Vec::new();
    let mut i: usize = 0;
    while i < fields.len()
        invariant
            i <= fields@.len(),
            fields@ == fields_of_scope(scope),
            currents@.len() == fields@.len(),
            choices@.len() == fields@.len(),
            forall|m: int| 0 <= m < fields@.len() ==> !is_float_field(#[trigger] fields_of_scope(scope)[m]),
            forall|m: int|
                0 <= m < choices@.len() ==> {
                    let f = fields_of_scope(scope)[m];
                    &&& (#[trigger] choices@[m]).field == f
                    &&& (choices@[m].ordinal matches Some(o) ==> exists|k: int|
                        chosen_at(details@, policy.provider_preference@, f, scope, k)
                            && details@[k].ordinal == o)
                    &&& (choices@[m].ordinal is None ==> forall|j: int|
                        0 <= j < details@.len() ==> !#[trigger] eligible(details@[j], f, scope))
                    &&& opt_view(choices@[m].value) == chosen_value(details@, choices@[m].ordinal, f, scope)
                },
            rows@.len() == i,
            forall|m: int|
                0 <= m < i ==> composite_row_is(
                    #[trigger] rows@[m],
                    fields_of_scope(scope)[m],
                    opt_view(currents@[m]),
                    details@,
                    policy.provider_preference@,
                    *provenance,
                    full@,
                    *args,
                    scope,
                ),
        decreases fields@.len() - i,
    {
        let f = fields[i];
        assert(!is_float_field(fields_of_scope(scope)[i as int]));
        let key = f.key();
        let (set_by, set_at) = provenance_columns(full, key.as_str());
        let decision = classify_field(
            opt_as_str(&currents[i]),
            opt_as_str(&choices[i].value),
            provenance,
            f,
            args,
        );
        let row = CompositeFieldRow {
            field: key,
            label: string_of_static(label_for(f)),
            current_value: clone_opt_string(&currents[i]),
            current_set_by: set_by,
            current_set_at: set_at,
            proposals: proposals(details, f, scope),
            chosen_ordinal: choices[i].ordinal,
            decision: string_of_static(decision.as_str()),
        };
        rows.push(row);
        i = i + 1;
    }
    rows
}

/// Rows that would write.
pub open spec fn composite_changes_in(rows: Seq<CompositeFieldRow>) -> nat
    decreases rows.len(),
{
    if rows.len() == 0 {
        0
    } else {
        composite_changes_in(rows.drop_last()) + if rows.last().decision@ == "would_fill"@
            || rows.last().decision@ == "would_replace"@ {
            1nat
        } else {
            0nat
        }
    }
}

/// The composite preview's change count: rows that would fill or
/// replace, plus external-id conflicts and new ids.
pub fn composite_changes(rows: &Vec<CompositeFieldRow>, conflicts: usize, news: usize) -> (r: usize)
    requires
        rows@.len() + conflicts + news <= usize::MAX,
    ensures
        r == composite_changes_in(rows@) + conflicts + news,
{
    let mut n: usize = 0;
    let mut i: usize = 0;
    assert(rows@.take(0) =~= Seq::<CompositeFieldRow>::empty());
    while i < rows.len()
        invariant
            i <= rows@.len(),
            n == composite_changes_in(rows@.take(i as int)),
            n <= i,
        decreases rows@.len() - i,
    {
        assert(rows@.take(i + 1).drop_last() =~= rows@.take(i as int));
        assert(rows@.take(i + 1).last() == rows@[i as int]);
        let d = rows[i].decision.as_str();
        if str_eq(d, "would_fill") || str_eq(d, "would_replace") {
            n = n + 1;
        }
        i = i + 1;
    }
    assert(rows@.take(rows@.len() as int) =~= rows@);
    n + conflicts + news
}

// ───────── merged detail ─────────

/// Every included candidate's identifiers, in candidate order.
pub open spec fn all_identifiers(ds: Seq<ProviderDetail>) -> Seq<Identifier>
    decreases ds.len(),
{
    if ds.len() == 0 {
        Seq::empty()
    } else {
        all_identifiers(ds.drop_last()) + ds.last().detail.identifiers@
    }
}

/// Identifiers with each source kept at its first occurrence.
pub fn dedup_by_source(ids: &Vec<Identifier>) -> (r: Vec<Identifier>)
    ensures
        r@ == first_per_source(ids@),
{
    let mut seen: Vec<Source> = Vec::new();
    let mut out: Vec<Identifier> = Vec::new();
    let mut i: usize = 0;
    assert(ids@.take(0) =~= Seq::<Identifier>::empty());
    while i < ids.len()
        invariant
            i <= ids@.len(),
            forall|s: Source| #[trigger] seen@.contains(s) <==> exists|j: int| 0 <= j < i && ids@[j].source == s,
            out@ == first_per_source(ids@.take(i as int)),
        decreases ids@.len() - i,
    {
        let ghost pre = ids@.take(i as int);
        let ghost post = ids@.take(i + 1);
        assert(post.drop_last() =~= pre);
        assert(post.last() == ids@[i as int]);
        let ghost seen0 = seen@;
        let src = ids[i].source;
        let mut found = false;
        let mut k: usize = 0;
        while k < seen.len()
            invariant
                k <= seen@.len(),
                found <==> exists|m: int| 0 <= m < k && seen@[m] == src,
            decreases seen@.len() - k,
        {
            if seen[k] == src {
                found = true;
            }
            k = k + 1;
        }
        assert(found <==> seen@.contains(src));
        if found {
            assert(exists|j: int| 0 <= j < post.len() - 1 && post[j].source == src) by {
                let j = choose|j: int| 0 <= j < i && ids@[j].source == src;
                assert(post[j] == ids@[j]);
            }
            assert(first_per_source(post) =~= out@);
        } else {
            assert(!exists|j: int| 0 <= j < post.len() - 1 && post[j].source == src) by {
                if exists|j: int| 0 <= j < post.len() - 1 && post[j].source == src {
                    let j = choose|j: int| 0 <= j < post.len() - 1 && post[j].source == src;
                    assert(post[j] == ids@[j]);
                    assert(seen@.contains(src));
                }
            }
            seen.push(src);
            assert(seen@.last() == src);
            assert forall|x: Source| #[trigger] seen@.contains(x) implies seen0.contains(x) || x == src by {
                let m = choose|m: int| 0 <= m < seen@.len() && seen@[m] == x;
                if m < seen0.len() {
                    assert(seen0[m] == x);
                }
            }
            out.push(clone_identifier(&ids[i]));
            assert(first_per_source(post) =~= first_per_source(pre).push(ids@[i as int]));
        }
        assert(seen@.contains(src));
        assert(forall|x: Source| #[trigger] seen@.contains(x) ==> seen0.contains(x) || x == src);
        assert forall|s: Source| #[trigger] seen@.contains(s) <==> exists|j: int|
            0 <= j < i + 1 && ids@[j].source == s by {
            if seen@.contains(s) {
                if seen0.contains(s) {
                    let j = choose|j: int| 0 <= j < i && ids@[j].source == s;
                    assert(0 <= j < i + 1 && ids@[j].source == s);
                } else {
                    assert(ids@[i as int].source == s);
                }
            }
            if exists|j: int| 0 <= j < i + 1 && ids@[j].source == s {
                let j = choose|j: int| 0 <= j < i + 1 && ids@[j].source == s;
                if j < i {
                    assert(seen0.contains(s));
                    let m = choose|m: int| 0 <= m < seen0.len() && seen0[m] == s;
                    if found {
                        assert(seen@ == seen0);
                    } else {
                        assert(seen@[m] == s);
                    }
                }
            }
        }
        i = i + 1;
    }
    assert(ids@.take(ids@.len() as int) =~= ids@);
    out
}

/// Every included candidate's identifiers, each source once (its first
/// identifier wins).
pub fn union_identifiers(details: &[ProviderDetail]) -> (r: Vec<Identifier>)
    ensures
        r@ == first_per_source(all_identifiers(details@)),
{
    let mut flat: Vec<Identifier> = Vec::new();
    let mut i: usize = 0;
    assert(flat@ =~= all_identifiers(details@.take(0)));
    while i < details.len()
        invariant
            i <= details@.len(),
            flat@ == all_identifiers(details@.take(i as int)),
        decreases details@.len() - i,
    {
        assert(details@.take(i + 1).drop_last() =~= details@.take(i as int));
        assert(details@.take(i + 1).last() == details@[i as int]);
        let mut more = clone_identifiers(&details[i].detail.identifiers);
        let ghost before = flat@;
        flat.append(&mut more);
        i = i + 1;
        assert(flat@ =~= all_identifiers(details@.take(i as int)));
    }
    assert(details@.take(details@.len() as int) =~= details@);
    dedup_by_source(&flat)
}

/// The candidate a field of the merge is taken from: only fields of the
/// scope with a source whose candidate is among the details.
pub open spec fn chosen_detail(
    ds: Seq<ProviderDetail>,
    fs: FieldSources,
    scope: MergeScope,
    f: MetadataField,
) -> Option<ProviderDetail> {
    if fields_of_scope(scope).contains(f) {
        match fs.source_of(field_key(f)) {
            Some(o) => detail_of(ds, o),
            None => None,
        }
    } else {
        None
    }
}

fn in_scope(scope: MergeScope, f: MetadataField) -> (r: bool)
    ensures
        r == fields_of_scope(scope).contains(f),
{
    let fields = scope_fields(scope);
    let mut i: usize = 0;
    while i < fields.len()
        invariant
            i <= fields@.len(),
            fields@ == fields_of_scope(scope),
            forall|j: int| 0 <= j < i ==> fields@[j] != f,
        decreases fields@.len() - i,
    {
        if fields[i] == f {
            assert(fields@[i as int] == f);
            return true;
        }
        i = i + 1;
    }
    false
}

fn detail_index(ds: &[ProviderDetail], o: i32) -> (r: Option<usize>)
    ensures
        match r {
            Some(i) => i < ds@.len() && detail_of(ds@, o) == Some(ds@[i as int]),
            None => detail_of(ds@, o) is None,
        },
{
    let mut i: usize = 0;
    assert(ds@.skip(0) =~= ds@);
    while i < ds.len()
        invariant
            i <= ds@.len(),
            detail_of(ds@, o) == detail_of(ds@.skip(i as int), o),
        decreases ds@.len() - i,
    {
        assert(ds@.skip(i as int)[0] == ds@[i as int]);
        if ds[i].ordinal == o {
            return Some(i);
        }
        assert(ds@.skip(i as int).drop_first() =~= ds@.skip(i + 1));
        i = i + 1;
    }
    None
}

fn chosen_index(ds: &[ProviderDetail], fs: &FieldSources, scope: MergeScope, f: MetadataField) -> (r:
    Option<usize>)
    ensures
        match r {
            Some(i) => i < ds@.len() && chosen_detail(ds@, *fs, scope, f) == Some(ds@[i as int]),
            None => chosen_detail(ds@, *fs, scope, f) is None,
        },
{
    if !in_scope(scope, f) {
        return None;
    }
    let key = f.key();
    match fs.get(key.as_str()) {
        Some(o) => detail_index(ds, o),
        None => None,
    }
}

/// The first preferred source among the candidates; without one, the
/// first candidate's source.
pub open spec fn first_present(pref: Seq<Source>, ds: Seq<ProviderDetail>) -> Option<Source>
    decreases pref.len(),
{
    if pref.len() == 0 {
        if ds.len() > 0 {
            Some(ds[0].source)
        } else {
            None
        }
    } else if exists|j: int| 0 <= j < ds.len() && ds[j].source == pref[0] {
        Some(pref[0])
    } else {
        first_present(pref.drop_first(), ds)
    }
}

fn attribution_source(pref: &Vec<Source>, ds: &[ProviderDetail]) -> (r: Option<Source>)
    ensures
        r == first_present(pref@, ds@),
{
    let mut i: usize = 0;
    assert(pref@.skip(0) =~= pref@);
    while i < pref.len()
        invariant
            i <= pref@.len(),
            first_present(pref@, ds@) == first_present(pref@.skip(i as int), ds@),
        decreases pref@.len() - i,
    {
        let s = pref[i];
        assert(pref@.skip(i as int)[0] == s);
        let mut j: usize = 0;
        let mut hit = false;
        while j < ds.len()
            invariant
                j <= ds@.len(),
                hit <==> exists|m: int| 0 <= m < j && ds@[m].source == s,
            decreases ds@.len() - j,
        {
            if ds[j].source == s {
                hit = true;
            }
            j = j + 1;
        }
        if hit {
            return Some(s);
        }
        assert(pref@.skip(i as int).drop_first() =~= pref@.skip(i + 1));
        i = i + 1;
    }
    if ds.len() > 0 {
        Some(ds[0].source)
    } else {
        None
    }
}

/// The provenance a field taken from candidate `pd` is stamped with.
pub open spec fn prov_of(pd: ProviderDetail) -> ProvSource {
    ProvSource { set_by: SetBy::Provider(pd.source), source_ext: pd.detail.source_external_id }
}

/// The provenance entries of a merge, for the fields of `fields` that
/// have a chosen candidate, in order.
pub open spec fn prov_entries(
    ds: Seq<ProviderDetail>,
    fs: FieldSources,
    scope: MergeScope,
    fields: Seq<MetadataField>,
) -> Seq<(Seq<char>, ProvSource)>
    decreases fields.len(),
{
    if fields.len() == 0 {
        Seq::empty()
    } else {
        prov_entries(ds, fs, scope, fields.drop_last()) + match chosen_detail(
            ds,
            fs,
            scope,
            fields.last(),
        ) {
            Some(pd) => seq![(field_key(fields.last()), prov_of(pd))],
            None => Seq::empty(),
        }
    }
}

pub open spec fn prov_view(v: Seq<(String, ProvSource)>) -> Seq<(Seq<char>, ProvSource)> {
    v.map_values(|p: (String, ProvSource)| (p.0@, p.1))
}

fn merge_provenance(ds: &[ProviderDetail], fs: &FieldSources, scope: MergeScope) -> (r: Vec<
    (String, ProvSource),
>)
    ensures
        prov_view(r@) == prov_entries(ds@, *fs, scope, fields_of_scope(scope)),
{
    let fields = scope_fields(scope);
    let mut out: Vec<(String, ProvSource)> = Vec::new();
    let mut i: usize = 0;
    assert(prov_view(out@) =~= prov_entries(ds@, *fs, scope, fields@.take(0)));
    while i < fields.len()
        invariant
            i <= fields@.len(),
            fields@ == fields_of_scope(scope),
            prov_view(out@) == prov_entries(ds@, *fs, scope, fields@.take(i as int)),
        decreases fields@.len() - i,
    {
        assert(fields@.take(i + 1).drop_last() =~= fields@.take(i as int));
        assert(fields@.take(i + 1).last() == fields@[i as int]);
        let f = fields[i];
        let ghost before = prov_view(out@);
        match chosen_index(ds, fs, scope, f) {
            Some(k) => {
                let pd = &ds[k];
                let p = ProvSource {
                    set_by: SetBy::Provider(pd.source),
                    source_ext: clone_opt_string(&pd.detail.source_external_id),
                };
                out.push((f.key(), p));
            },
            None => {},
        }
        i = i + 1;
        assert(prov_view(out@) =~= prov_entries(ds@, *fs, scope, fields@.take(i as int)));
    }
    assert(fields@.take(fields@.len() as int) =~= fields@);
    out
}

/// A field's value from its chosen candidate, else nothing.
pub open spec fn chosen_meta(
    ds: Seq<ProviderDetail>,
    fs: FieldSources,
    scope: MergeScope,
    f: MetadataField,
) -> Option<GenericMetadata> {
    match chosen_detail(ds, fs, scope, f) {
        Some(pd) => Some(pd.detail),
        None => None,
    }
}

/// What the merged detail of a composite apply holds.
pub open spec fn merged_detail_is(
    m: GenericMetadata,
    ds: Seq<ProviderDetail>,
    fs: FieldSources,
    scope: MergeScope,
    pref: Seq<Source>,
) -> bool {
    &&& m.series_name == (match chosen_meta(ds, fs, scope, MetadataField::Title) {
        Some(d) => if scope == MergeScope::Series { d.series_name } else { None },
        None => None,
    })
    &&& m.title == (match chosen_meta(ds, fs, scope, MetadataField::Title) {
        Some(d) => if scope == MergeScope::Issue { d.title } else { None },
        None => None,
    })
    &&& m.series_sort_name == (match chosen_meta(ds, fs, scope, MetadataField::SortName) { Some(d) => d.series_sort_name, None => None })
    &&& m.series_type == (match chosen_meta(ds, fs, scope, MetadataField::SeriesType) { Some(d) => d.series_type, None => None })
    &&& m.year_began == (match chosen_meta(ds, fs, scope, MetadataField::YearBegan) { Some(d) => d.year_began, None => None })
    &&& m.year_end == (match chosen_meta(ds, fs, scope, MetadataField::YearEnd) { Some(d) => d.year_end, None => None })
    &&& m.volume == (match chosen_meta(ds, fs, scope, MetadataField::Volume) { Some(d) => d.volume, None => None })
    &&& m.publisher == (match chosen_meta(ds, fs, scope, MetadataField::Publisher) { Some(d) => d.publisher, None => None })
    &&& m.imprint == (match chosen_meta(ds, fs, scope, MetadataField::Imprint) { Some(d) => d.imprint, None => None })
    &&& m.deck == (match chosen_meta(ds, fs, scope, MetadataField::Deck) { Some(d) => d.deck, None => None })
    &&& m.description == (match chosen_meta(ds, fs, scope, MetadataField::Description) { Some(d) => d.description, None => None })
    &&& m.age_rating == (match chosen_meta(ds, fs, scope, MetadataField::AgeRating) { Some(d) => d.age_rating, None => None })
    &&& m.page_count == (match chosen_meta(ds, fs, scope, MetadataField::PageCount) { Some(d) => d.page_count, None => None })
    &&& m.sku == (match chosen_meta(ds, fs, scope, MetadataField::Sku) { Some(d) => d.sku, None => None })
    &&& m.cover_date == (match chosen_meta(ds, fs, scope, MetadataField::CoverDate) { Some(d) => d.cover_date, None => None })
    &&& credits_view(m.credits@) == (match chosen_meta(ds, fs, scope, MetadataField::Credits) { Some(d) => credits_view(d.credits@), None => Seq::empty() })
    &&& entities_view(m.characters@) == (match chosen_meta(ds, fs, scope, MetadataField::Characters) { Some(d) => entities_view(d.characters@), None => Seq::empty() })
    &&& entities_view(m.teams@) == (match chosen_meta(ds, fs, scope, MetadataField::Teams) { Some(d) => entities_view(d.teams@), None => Seq::empty() })
    &&& entities_view(m.locations@) == (match chosen_meta(ds, fs, scope, MetadataField::Locations) { Some(d) => entities_view(d.locations@), None => Seq::empty() })
    &&& entities_view(m.story_arcs@) == (match chosen_meta(ds, fs, scope, MetadataField::StoryArcs) { Some(d) => entities_view(d.story_arcs@), None => Seq::empty() })
    &&& m.tags@ == (match chosen_meta(ds, fs, scope, MetadataField::Tags) { Some(d) => d.tags@, None => Seq::empty() })
    &&& m.genres@ == (match chosen_meta(ds, fs, scope, MetadataField::Genres) { Some(d) => d.genres@, None => Seq::empty() })
    &&& m.cover_image_url == (match chosen_meta(ds, fs, scope, MetadataField::CoverPrimary) { Some(d) => d.cover_image_url, None => None })
    &&& m.cover_image_alt_urls@ == (match chosen_meta(ds, fs, scope, MetadataField::CoverPrimary) { Some(d) => d.cover_image_alt_urls@, None => Seq::empty() })
    &&& variant_covers_view(m.variants@) == (match chosen_meta(ds, fs, scope, MetadataField::CoverVariants) { Some(d) => variant_covers_view(d.variants@), None => Seq::empty() })
    &&& m.identifiers@ == first_per_source(all_identifiers(ds))
    &&& m.source_provider == first_present(pref, ds)
    &&& m.issue_number is None && m.aliases@.len() == 0 && m.store_date is None
    &&& m.foc_date is None && m.notes is None && m.scan_information is None
    &&& m.concepts@.len() == 0 && m.objects@.len() == 0 && m.universes@.len() == 0
    &&& m.reprints@.len() == 0 && m.community_rating_bits is None && m.staff_rating_bits is None
    &&& m.format is None && m.language_code is None && m.price_bits is None
    &&& m.source_external_id is None && m.source_url is None && m.fetched_at_ms is None
    &&& m.upstream_modified_at_ms is None
}

proof fn lemma_variants_with_image_by_view(a: Seq<VariantCoverCandidate>, b: Seq<VariantCoverCandidate>)
    requires
        variant_covers_view(a) == variant_covers_view(b),
    ensures
        variants_with_image(a) == variants_with_image(b),
    decreases a.len(),
{
    assert(a.len() == variant_covers_view(a).len());
    assert(b.len() == variant_covers_view(b).len());
    if a.len() > 0 {
        assert(variant_covers_view(a.drop_last()) =~= variant_covers_view(b.drop_last())) by {
            assert forall|i: int| 0 <= i < a.len() - 1 implies variant_covers_view(a.drop_last())[i]
                == variant_covers_view(b.drop_last())[i] by {
                assert(variant_covers_view(a)[i] == variant_covers_view(b)[i]);
            }
        }
        lemma_variants_with_image_by_view(a.drop_last(), b.drop_last());
        assert(variant_covers_view(a)[a.len() - 1] == variant_covers_view(b)[b.len() - 1]);
        assert(opt_view(a.last().image_url) == opt_view(b.last().image_url));
    }
}

/// What a composite apply writes is what its preview shows as chosen: for
/// every field of the scope, the merged detail's value is the value of
/// the candidate the field's source names, and no value when the field
/// has no source or names a candidate that was not fetched.
#[verifier::rlimit(50)]
pub proof fn lemma_merged_value_is_chosen(
    m: GenericMetadata,
    ds: Seq<ProviderDetail>,
    fs: FieldSources,
    scope: MergeScope,
    pref: Seq<Source>,
    f: MetadataField,
)
    requires
        merged_detail_is(m, ds, fs, scope, pref),
        fields_of_scope(scope).contains(f),
    ensures
        value_of(m, f, scope) == chosen_value(ds, fs.source_of(field_key(f)), f, scope),
{
    let cm = chosen_meta(ds, fs, scope, f);
    assert(cm == match fs.source_of(field_key(f)) {
        Some(o) => match detail_of(ds, o) {
            Some(pd) => Some(pd.detail),
            None => None,
        },
        None => None,
    });
    match f {
        MetadataField::Credits => {
            assert(m.credits@.len() == credits_view(m.credits@).len());
            if let Some(d) = cm {
                assert(d.credits@.len() == credits_view(d.credits@).len());
            }
        },
        MetadataField::Characters => {
            assert(m.characters@.len() == entities_view(m.characters@).len());
            if let Some(d) = cm {
                assert(d.characters@.len() == entities_view(d.characters@).len());
            }
        },
        MetadataField::Teams => {
            assert(m.teams@.len() == entities_view(m.teams@).len());
            if let Some(d) = cm {
                assert(d.teams@.len() == entities_view(d.teams@).len());
            }
        },
        MetadataField::Locations => {
            assert(m.locations@.len() == entities_view(m.locations@).len());
            if let Some(d) = cm {
                assert(d.locations@.len() == entities_view(d.locations@).len());
            }
        },
        MetadataField::StoryArcs => {
            assert(m.story_arcs@.len() == entities_view(m.story_arcs@).len());
            if let Some(d) = cm {
                assert(d.story_arcs@.len() == entities_view(d.story_arcs@).len());
            }
        },
        MetadataField::CoverVariants => {
            match cm {
                Some(d) => lemma_variants_with_image_by_view(m.variants@, d.variants@),
                None => {
                    assert(m.variants@.len() == variant_covers_view(m.variants@).len());
                    assert(m.variants@ =~= Seq::<VariantCoverCandidate>::empty());
                },
            }
        },
        _ => {},
    }
}

/// The merged detail of a composite apply: each field of the scope from
/// the candidate `field_sources` names for it (fields without one stay
/// empty), the identifiers of all candidates, and the most preferred
/// candidate's provider for attribution; with the per-field provenance
/// the write stamps.
pub fn build_merged_detail(
    details: &[ProviderDetail],
    field_sources: &FieldSources,
    scope: MergeScope,
    preference: &Vec<Source>,
) -> (r: (GenericMetadata, Vec<(String, ProvSource)>))
    ensures
        merged_detail_is(r.0, details@, *field_sources, scope, preference@),
        prov_view(r.1@) == prov_entries(details@, *field_sources, scope, fields_of_scope(scope)),
{
    let fs = field_sources;
    let (series_name, title) = match chosen_index(details, fs, scope, MetadataField::Title) {
        Some(k) => match scope {
            MergeScope::Series => (clone_opt_string(&details[k].detail.series_name), None),
            MergeScope::Issue => (None, clone_opt_string(&details[k].detail.title)),
        },
        None => (None, None),
    };
    let series_sort_name = match chosen_index(details, fs, scope, MetadataField::SortName) {
        Some(k) => clone_opt_string(&details[k].detail.series_sort_name),
        None => None,
    };
    let series_type = match chosen_index(details, fs, scope, MetadataField::SeriesType) {
        Some(k) => clone_opt_string(&details[k].detail.series_type),
        None => None,
    };
    let year_began = match chosen_index(details, fs, scope, MetadataField::YearBegan) {
        Some(k) => details[k].detail.year_began,
        None => None,
    };
    let year_end = match chosen_index(details, fs, scope, MetadataField::YearEnd) {
        Some(k) => details[k].detail.year_end,
        None => None,
    };
    let volume = match chosen_index(details, fs, scope, MetadataField::Volume) {
        Some(k) => details[k].detail.volume,
        None => None,
    };
    let publisher = match chosen_index(details, fs, scope, MetadataField::Publisher) {
        Some(k) => clone_opt_string(&details[k].detail.publisher),
        None => None,
    };
    let imprint = match chosen_index(details, fs, scope, MetadataField::Imprint) {
        Some(k) => clone_opt_string(&details[k].detail.imprint),
        None => None,
    };
    let deck = match chosen_index(details, fs, scope, MetadataField::Deck) {
        Some(k) => clone_opt_string(&details[k].detail.deck),
        None => None,
    };
    let description = match chosen_index(details, fs, scope, MetadataField::Description) {
        Some(k) => clone_opt_string(&details[k].detail.description),
        None => None,
    };
    let age_rating = match chosen_index(details, fs, scope, MetadataField::AgeRating) {
        Some(k) => clone_opt_string(&details[k].detail.age_rating),
        None => None,
    };
    let page_count = match chosen_index(details, fs, scope, MetadataField::PageCount) {
        Some(k) => details[k].detail.page_count,
        None => None,
    };
    let sku = match chosen_index(details, fs, scope, MetadataField::Sku) {
        Some(k) => clone_opt_string(&details[k].detail.sku),
        None => None,
    };
    let cover_date = match chosen_index(details, fs, scope, MetadataField::CoverDate) {
        Some(k) => details[k].detail.cover_date,
        None => None,
    };
    let lists = merged_lists(details, fs, scope);
    let covers = merged_covers(details, fs, scope);
    let identifiers = union_identifiers(details);
    let source_provider = attribution_source(preference, details);
    let prov = merge_provenance(details, fs, scope);
    let m = GenericMetadata {
        series_name,
        series_sort_name,
        series_type,
        volume,
        year_began,
        year_end,
        issue_number: None,
        aliases: Vec::new(),
        publisher,
        imprint,
        cover_date,
        store_date: None,
        foc_date: None,
        title,
        deck,
        description,
        notes: None,
        scan_information: None,
        credits: lists.0,
        characters: lists.1,
        teams: lists.2,
        locations: lists.3,
        concepts: Vec::new(),
        objects: Vec::new(),
        story_arcs: lists.4,
        universes: Vec::new(),
        genres: lists.6,
        tags: lists.5,
        reprints: Vec::new(),
        variants: covers.2,
        cover_image_url: covers.0,
        cover_image_alt_urls: covers.1,
        identifiers,
        age_rating,
        page_count,
        community_rating_bits: None,
        staff_rating_bits: None,
        format: None,
        language_code: None,
        price_bits: None,
        sku,
        source_provider,
        source_external_id: None,
        source_url: None,
        fetched_at_ms: None,
        upstream_modified_at_ms: None,
    };
    (m, prov)
}

fn merged_lists(details: &[ProviderDetail], fs: &FieldSources, scope: MergeScope) -> (r: (
    Vec<CreditCandidate>,
    Vec<EntityCandidate>,
    Vec<EntityCandidate>,
    Vec<EntityCandidate>,
    Vec<EntityCandidate>,
    Vec<String>,
    Vec<String>,
))
    ensures
        credits_view(r.0@) == (match chosen_meta(details@, *fs, scope, MetadataField::Credits) { Some(d) => credits_view(d.credits@), None => Seq::empty() }),
        entities_view(r.1@) == (match chosen_meta(details@, *fs, scope, MetadataField::Characters) { Some(d) => entities_view(d.characters@), None => Seq::empty() }),
        entities_view(r.2@) == (match chosen_meta(details@, *fs, scope, MetadataField::Teams) { Some(d) => entities_view(d.teams@), None => Seq::empty() }),
        entities_view(r.3@) == (match chosen_meta(details@, *fs, scope, MetadataField::Locations) { Some(d) => entities_view(d.locations@), None => Seq::empty() }),
        entities_view(r.4@) == (match chosen_meta(details@, *fs, scope, MetadataField::StoryArcs) { Some(d) => entities_view(d.story_arcs@), None => Seq::empty() }),
        r.5@ == (match chosen_meta(details@, *fs, scope, MetadataField::Tags) { Some(d) => d.tags@, None => Seq::empty() }),
        r.6@ == (match chosen_meta(details@, *fs, scope, MetadataField::Genres) { Some(d) => d.genres@, None => Seq::empty() }),
{
    let credits = match chosen_index(details, fs, scope, MetadataField::Credits) {
        Some(k) => clone_credits(&details[k].detail.credits),
        None => {
            let v: Vec<CreditCandidate> = Vec::new();
            assert(credits_view(v@) =~= Seq::empty());
            v
        },
    };
    let characters = chosen_entities(details, fs, scope, MetadataField::Characters, 0);
    let teams = chosen_entities(details, fs, scope, MetadataField::Teams, 1);
    let locations = chosen_entities(details, fs, scope, MetadataField::Locations, 2);
    let story_arcs = chosen_entities(details, fs, scope, MetadataField::StoryArcs, 3);
    let tags = match chosen_index(details, fs, scope, MetadataField::Tags) {
        Some(k) => crate::text::clone_strings(&details[k].detail.tags),
        None => Vec::new(),
    };
    let genres = match chosen_index(details, fs, scope, MetadataField::Genres) {
        Some(k) => crate::text::clone_strings(&details[k].detail.genres),
        None => Vec::new(),
    };
    (credits, characters, teams, locations, story_arcs, tags, genres)
}

/// The entity list `which` names (characters, teams, locations, story
/// arcs) of a detail.
pub open spec fn entity_list(d: GenericMetadata, which: u8) -> Seq<EntityCandidate> {
    if which == 0 {
        d.characters@
    } else if which == 1 {
        d.teams@
    } else if which == 2 {
        d.locations@
    } else {
        d.story_arcs@
    }
}

fn chosen_entities(details: &[ProviderDetail], fs: &FieldSources, scope: MergeScope, f: MetadataField, which: u8) -> (r: Vec<EntityCandidate>)
    ensures
        entities_view(r@) == (match chosen_meta(details@, *fs, scope, f) { Some(d) => entities_view(entity_list(d, which)), None => Seq::empty() }),
{
    match chosen_index(details, fs, scope, f) {
        Some(k) => {
            let d = &details[k].detail;
            if which == 0 {
                clone_entities(&d.characters)
            } else if which == 1 {
                clone_entities(&d.teams)
            } else if which == 2 {
                clone_entities(&d.locations)
            } else {
                clone_entities(&d.story_arcs)
            }
        },
        None => {
            let v: Vec<EntityCandidate> = Vec::new();
            assert(entities_view(v@) =~= Seq::empty());
            v
        },
    }
}

fn merged_covers(details: &[ProviderDetail], fs: &FieldSources, scope: MergeScope) -> (r: (
    Option<String>,
    Vec<String>,
    Vec<VariantCoverCandidate>,
))
    ensures
        r.0 == (match chosen_meta(details@, *fs, scope, MetadataField::CoverPrimary) { Some(d) => d.cover_image_url, None => None }),
        r.1@ == (match chosen_meta(details@, *fs, scope, MetadataField::CoverPrimary) { Some(d) => d.cover_image_alt_urls@, None => Seq::empty() }),
        variant_covers_view(r.2@) == (match chosen_meta(details@, *fs, scope, MetadataField::CoverVariants) { Some(d) => variant_covers_view(d.variants@), None => Seq::empty() }),
{
    let (url, alts) = match chosen_index(details, fs, scope, MetadataField::CoverPrimary) {
        Some(k) => (clone_opt_string(&details[k].detail.cover_image_url), crate::text::clone_strings(&details[k].detail.cover_image_alt_urls)),
        None => (None, Vec::new()),
    };
    let variants = match chosen_index(details, fs, scope, MetadataField::CoverVariants) {
        Some(k) => clone_variants(&details[k].detail.variants),
        None => {
            let v: Vec<VariantCoverCandidate> = Vec::new();
            assert(variant_covers_view(v@) =~= Seq::empty());
            v
        },
    };
    (url, alts, variants)
}

/// Some identifier of `ids` has source `src`.
pub open spec fn has_source(ids: Seq<Identifier>, src: Source) -> bool {
    exists|a: int| 0 <= a < ids.len() && ids[a].source == src
}

/// The identifier union keeps each source once: no two kept identifiers
/// share a source, every kept identifier is one of the inputs, and every
/// source among the inputs is kept.
pub proof fn lemma_union_one_per_source(ids: Seq<Identifier>)
    ensures
        forall|a: int, b: int|
            0 <= a < b < first_per_source(ids).len() ==> first_per_source(ids)[a].source
                != first_per_source(ids)[b].source,
        forall|a: int| 0 <= a < first_per_source(ids).len() ==> ids.contains(#[trigger] first_per_source(ids)[a]),
        forall|j: int| 0 <= j < ids.len() ==> has_source(first_per_source(ids), #[trigger] ids[j].source),
    decreases ids.len(),
{
    if ids.len() > 0 {
        let pre = ids.drop_last();
        lemma_union_one_per_source(pre);
        let rest = first_per_source(pre);
        let last = ids.last();
        let seen = exists|j: int| 0 <= j < ids.len() - 1 && ids[j].source == last.source;
        let out = first_per_source(ids);
        if seen {
            assert(out =~= rest);
        } else {
            assert(out =~= rest.push(last));
        }
        assert forall|a: int, b: int| 0 <= a < b < out.len() implies out[a].source != out[b].source by {
            if !seen && b == rest.len() {
                assert(pre.contains(rest[a]));
                let j = choose|j: int| 0 <= j < pre.len() && pre[j] == rest[a];
                assert(ids[j].source == rest[a].source);
            }
        }
        assert forall|a: int| 0 <= a < out.len() implies ids.contains(#[trigger] out[a]) by {
            if a < rest.len() {
                assert(pre.contains(rest[a]));
                let j = choose|j: int| 0 <= j < pre.len() && pre[j] == rest[a];
                assert(ids[j] == rest[a]);
            } else {
                assert(ids[ids.len() - 1] == last);
            }
        }
        assert forall|j: int| 0 <= j < ids.len() implies has_source(out, #[trigger] ids[j].source) by {
            if j < ids.len() - 1 {
                assert(pre[j] == ids[j]);
                assert(has_source(rest, pre[j].source));
                let a = choose|a: int| 0 <= a < rest.len() && rest[a].source == pre[j].source;
                assert(out[a] == rest[a]);
            } else if seen {
                let k = choose|k: int| 0 <= k < ids.len() - 1 && ids[k].source == last.source;
                assert(pre[k] == ids[k]);
                assert(has_source(rest, pre[k].source));
                let a = choose|a: int| 0 <= a < rest.len() && rest[a].source == pre[k].source;
                assert(out[a] == rest[a]);
            } else {
                assert(out[rest.len() as int] == last);
            }
        }
    }
}

// ───────── candidate columns ─────────

/// A candidate included in a composite, with its parsed provider.
#[derive(Clone, Debug)]
pub struct PickedCandidate {
    pub source: Source,
    pub ordinal: i32,
    pub external_id: String,
}

/// The candidates whose ordinal is wanted and whose provider is known,
/// in candidate order.
pub open spec fn picked_of(cs: Seq<RunCandidate>, wanted: Seq<i32>) -> Seq<(Source, i32, Seq<char>)>
    decreases cs.len(),
{
    if cs.len() == 0 {
        Seq::empty()
    } else {
        let c = cs.last();
        picked_of(cs.drop_last(), wanted) + match parse_source(c.source@) {
            Some(s) => if wanted.contains(c.ordinal) {
                seq![(s, c.ordinal, c.external_id@)]
            } else {
                Seq::empty()
            },
            None => Seq::empty(),
        }
    }
}

pub open spec fn picked_view(p: PickedCandidate) -> (Source, i32, Seq<char>) {
    (p.source, p.ordinal, p.external_id@)
}

/// Column order: by preference of the provider, then by ordinal.
pub open spec fn column_le(pref: Seq<Source>, a: (Source, i32, Seq<char>), b: (Source, i32, Seq<char>)) -> bool {
    rank_of(pref, a.0) < rank_of(pref, b.0) || (rank_of(pref, a.0) == rank_of(pref, b.0) && a.1 <= b.1)
}

fn contains_i32(v: &Vec<i32>, x: i32) -> (r: bool)
    ensures
        r == v@.contains(x),
{
    let mut i: usize = 0;
    while i < v.len()
        invariant
            i <= v@.len(),
            forall|j: int| 0 <= j < i ==> v@[j] != x,
        decreases v@.len() - i,
    {
        if v[i] == x {
            assert(v@[i as int] == x);
            return true;
        }
        i = i + 1;
    }
    false
}

/// The candidates of a composite: those `included` names (or, when it is
/// empty, the best of each provider), with a known provider, ordered by
/// provider preference and then ordinal.
pub fn pick_candidates(candidates: &[RunCandidate], included: &Vec<i32>, policy: &MergePolicyConfig) -> (r: Vec<PickedCandidate>)
    ensures
        ({
            let wanted = if included@.len() == 0 { best_per_provider(candidates@) } else { included@ };
            &&& r@.map_values(|p: PickedCandidate| picked_view(p)).to_multiset() == picked_of(candidates@, wanted).to_multiset()
            &&& forall|i: int, j: int| 0 <= i < j < r@.len() ==> column_le(policy.provider_preference@, picked_view(#[trigger] r@[i]), picked_view(#[trigger] r@[j]))
        }),
{
    broadcast use vstd::seq_lib::group_to_multiset_ensures;
    let wanted = if included.len() == 0 {
        default_best_per_provider(candidates)
    } else {
        included.clone()
    };
    let ghost pref = policy.provider_preference@;
    let mut out: Vec<PickedCandidate> = Vec::new();
    let mut i: usize = 0;
    assert(out@.map_values(|p: PickedCandidate| picked_view(p)) =~= picked_of(candidates@.take(0), wanted@));
    while i < candidates.len()
        invariant
            i <= candidates@.len(),
            pref == policy.provider_preference@,
            out@.map_values(|p: PickedCandidate| picked_view(p)).to_multiset() == picked_of(candidates@.take(i as int), wanted@).to_multiset(),
            forall|a: int, b: int| 0 <= a < b < out@.len() ==> column_le(pref, picked_view(#[trigger] out@[a]), picked_view(#[trigger] out@[b])),
        decreases candidates@.len() - i,
    {
        let ghost pre = candidates@.take(i as int);
        let ghost post = candidates@.take(i + 1);
        assert(post.drop_last() =~= pre);
        assert(post.last() == candidates@[i as int]);
        let c = &candidates[i];
        match Source::from_str(c.source.as_str()) {
            Ok(src) => {
                if contains_i32(&wanted, c.ordinal) {
                    let p = PickedCandidate { source: src, ordinal: c.ordinal, external_id: c.external_id.clone() };
                    let rank = policy.rank(src);
                    let ghost pv = picked_view(p);
                    let mut k: usize = 0;
                    let mut stop = false;
                    while k < out.len() && !stop
                        invariant
                            k <= out@.len(),
                            pref == policy.provider_preference@,
                            rank == rank_of(pref, src),
                            pv == picked_view(p),
                            pv.0 == src,
                            forall|m: int| 0 <= m < k ==> column_le(pref, #[trigger] picked_view(out@[m]), pv),
                            stop ==> k < out@.len() && column_le(pref, pv, picked_view(out@[k as int])),
                        decreases out@.len() - k + (if stop { 0int } else { 1int }),
                    {
                        let rk = policy.rank(out[k].source);
                        if rk > rank || (rk == rank && out[k].ordinal > p.ordinal) {
                            stop = true;
                        } else {
                            k = k + 1;
                        }
                    }
                    let ghost before = out@;
                    let ghost bv = before.map_values(|q: PickedCandidate| picked_view(q));
                    out.insert(k, p);
                    assert(out@ == before.insert(k as int, p));
                    assert(out@.map_values(|q: PickedCandidate| picked_view(q)) =~= bv.insert(k as int, pv));
                    proof {
                        vstd::seq_lib::to_multiset_insert(bv, k as int, pv);
                        vstd::seq_lib::to_multiset_build(picked_of(pre, wanted@), pv);
                    }
                    assert(picked_of(post, wanted@) =~= picked_of(pre, wanted@).push(pv));
                    assert forall|a: int, b: int| 0 <= a < b < out@.len() implies column_le(pref, picked_view(#[trigger] out@[a]), picked_view(#[trigger] out@[b])) by {
                        if b < k {
                            assert(out@[a] == before[a] && out@[b] == before[b]);
                        } else if b == k {
                            assert(out@[a] == before[a]);
                        } else if a == k {
                            assert(out@[b] == before[b - 1]);
                            assert(stop);
                            if b - 1 > k {
                                assert(column_le(pref, picked_view(before[k as int]), picked_view(before[b - 1])));
                            }
                        } else if a < k {
                            assert(out@[a] == before[a] && out@[b] == before[b - 1]);
                        } else {
                            assert(out@[a] == before[a - 1] && out@[b] == before[b - 1]);
                        }
                    }
                } else {
                    assert(picked_of(post, wanted@) =~= picked_of(pre, wanted@));
                }
            },
            Err(_) => {
                assert(picked_of(post, wanted@) =~= picked_of(pre, wanted@));
            },
        }
        i = i + 1;
    }
    assert(candidates@.take(candidates@.len() as int) =~= candidates@);
    out
}

// ───────── composite apply ─────────

/// The candidates an apply names, in the order named: for each ordinal,
/// the first candidate with it, when its provider is known.
pub open spec fn included_of(cs: Seq<RunCandidate>, included: Seq<i32>) -> Seq<(Source, i32, Seq<char>)>
    decreases included.len(),
{
    if included.len() == 0 {
        Seq::empty()
    } else {
        included_of(cs, included.drop_last()) + match first_with_ordinal(cs, included.last()) {
            Some(c) => match parse_source(c.source@) {
                Some(s) => seq![(s, c.ordinal, c.external_id@)],
                None => Seq::empty(),
            },
            None => Seq::empty(),
        }
    }
}

/// The first candidate with ordinal `o`.
pub open spec fn first_with_ordinal(cs: Seq<RunCandidate>, o: i32) -> Option<RunCandidate>
    decreases cs.len(),
{
    if cs.len() == 0 {
        None
    } else if cs[0].ordinal == o {
        Some(cs[0])
    } else {
        first_with_ordinal(cs.drop_first(), o)
    }
}

fn find_ordinal(cs: &[RunCandidate], o: i32) -> (r: Option<usize>)
    ensures
        match r {
            Some(i) => i < cs@.len() && first_with_ordinal(cs@, o) == Some(cs@[i as int]),
            None => first_with_ordinal(cs@, o) is None,
        },
{
    let mut i: usize = 0;
    assert(cs@.skip(0) =~= cs@);
    while i < cs.len()
        invariant
            i <= cs@.len(),
            first_with_ordinal(cs@, o) == first_with_ordinal(cs@.skip(i as int), o),
        decreases cs@.len() - i,
    {
        assert(cs@.skip(i as int)[0] == cs@[i as int]);
        if cs[i].ordinal == o {
            return Some(i);
        }
        assert(cs@.skip(i as int).drop_first() =~= cs@.skip(i + 1));
        i = i + 1;
    }
    None
}

/// The candidates a composite apply names (see [`included_of`]).
pub fn pick_included(candidates: &[RunCandidate], included: &Vec<i32>) -> (r: Vec<PickedCandidate>)
    ensures
        r@.map_values(|p: PickedCandidate| picked_view(p)) == included_of(candidates@, included@),
{
    let mut out: Vec<PickedCandidate> = Vec::new();
    let mut i: usize = 0;
    assert(out@.map_values(|p: PickedCandidate| picked_view(p)) =~= included_of(candidates@, included@.take(0)));
    while i < included.len()
        invariant
            i <= included@.len(),
            out@.map_values(|p: PickedCandidate| picked_view(p)) == included_of(candidates@, included@.take(i as int)),
        decreases included@.len() - i,
    {
        assert(included@.take(i + 1).drop_last() =~= included@.take(i as int));
        assert(included@.take(i + 1).last() == included@[i as int]);
        let ghost before = out@;
        match find_ordinal(candidates, included[i]) {
            Some(k) => match Source::from_str(candidates[k].source.as_str()) {
                Ok(src) => {
                    let p = PickedCandidate { source: src, ordinal: candidates[k].ordinal, external_id: candidates[k].external_id.clone() };
                    out.push(p);
                    assert(out@ == before.push(p));
                },
                Err(_) => {},
            },
            None => {},
        }
        i = i + 1;
        assert(out@.map_values(|p: PickedCandidate| picked_view(p)) =~= included_of(candidates@, included@.take(i as int)));
    }
    assert(included@.take(included@.len() as int) =~= included@);
    out
}

/// The provider a composite apply is stamped with: the merge's
/// attribution provider, else the first candidate's.
pub fn primary_source(merged_source: Option<Source>, details: &[ProviderDetail]) -> (r: Source)
    requires
        details@.len() > 0,
    ensures
        r == match merged_source {
            Some(s) => s,
            None => details@[0].source,
        },
{
    match merged_source {
        Some(s) => s,
        None => details[0].source,
    }
}

/// The ordinal an apply run is recorded under: the first picked
/// candidate of the primary provider, else 0.
pub open spec fn primary_ordinal_of(picked: Seq<PickedCandidate>, primary: Source) -> i32
    decreases picked.len(),
{
    if picked.len() == 0 {
        0
    } else if picked[0].source == primary {
        picked[0].ordinal
    } else {
        primary_ordinal_of(picked.drop_first(), primary)
    }
}

pub fn primary_ordinal(picked: &Vec<PickedCandidate>, primary: Source) -> (r: i32)
    ensures
        r == primary_ordinal_of(picked@, primary),
{
    let mut i: usize = 0;
    assert(picked@.skip(0) =~= picked@);
    while i < picked.len()
        invariant
            i <= picked@.len(),
            primary_ordinal_of(picked@, primary) == primary_ordinal_of(picked@.skip(i as int), primary),
        decreases picked@.len() - i,
    {
        assert(picked@.skip(i as int)[0] == picked@[i as int]);
        if picked[i].source == primary {
            return picked[i].ordinal;
        }
        assert(picked@.skip(i as int).drop_first() =~= picked@.skip(i + 1));
        i = i + 1;
    }
    0
}

/// The provider a composite apply fetches the cover from: the provider
/// of the candidate the primary cover is taken from, else the primary.
pub fn cover_source(field_sources: &FieldSources, details: &[ProviderDetail], primary: Source) -> (r: Source)
    ensures
        r == match field_sources.source_of(field_key(MetadataField::CoverPrimary)) {
            Some(o) => match detail_of(details@, o) {
                Some(d) => d.source,
                None => primary,
            },
            None => primary,
        },
{
    let key = MetadataField::CoverPrimary.key();
    match field_sources.get(key.as_str()) {
        Some(o) => match detail_index(details, o) {
            Some(k) => details[k].source,
            None => primary,
        },
        None => primary,
    }
}

// ───────── laws ─────────

/// A source among the candidates.
pub open spec fn present_in(ds: Seq<ProviderDetail>, s: Source) -> bool {
    exists|j: int| 0 <= j < ds.len() && ds[j].source == s
}

/// The attribution provider is the earliest preferred provider that has a
/// candidate; when no preferred provider has one it is the first
/// candidate's provider, and with no candidate there is none.
pub proof fn lemma_first_present_earliest(pref: Seq<Source>, ds: Seq<ProviderDetail>, p: int)
    ensures
        (0 <= p < pref.len() && present_in(ds, pref[p]) && forall|q: int|
            0 <= q < p ==> !present_in(ds, #[trigger] pref[q])) ==> first_present(pref, ds) == Some(
            pref[p],
        ),
        (forall|q: int| 0 <= q < pref.len() ==> !present_in(ds, #[trigger] pref[q])) ==> first_present(
            pref,
            ds,
        ) == (if ds.len() > 0 {
            Some(ds[0].source)
        } else {
            None
        }),
    decreases pref.len(),
{
    if pref.len() > 0 {
        let rest = pref.drop_first();
        lemma_first_present_earliest(rest, ds, p - 1);
        if 0 < p < pref.len() && present_in(ds, pref[p]) && forall|q: int|
            0 <= q < p ==> !present_in(ds, #[trigger] pref[q]) {
            assert(!present_in(ds, pref[0]));
            assert(rest[p - 1] == pref[p]);
            assert forall|q: int| 0 <= q < p - 1 implies !present_in(ds, #[trigger] rest[q]) by {
                assert(rest[q] == pref[q + 1]);
            }
        }
        if forall|q: int| 0 <= q < pref.len() ==> !present_in(ds, #[trigger] pref[q]) {
            assert(!present_in(ds, pref[0]));
            assert forall|q: int| 0 <= q < rest.len() implies !present_in(ds, #[trigger] rest[q]) by {
                assert(rest[q] == pref[q + 1]);
            }
        }
    }
}

/// An apply run is recorded under the ordinal of the first picked
/// candidate of the primary provider, and under 0 when none was picked.
pub proof fn lemma_primary_ordinal_first(picked: Seq<PickedCandidate>, primary: Source, i: int)
    ensures
        (0 <= i < picked.len() && picked[i].source == primary && forall|j: int|
            0 <= j < i ==> (#[trigger] picked[j]).source != primary) ==> primary_ordinal_of(
            picked,
            primary,
        ) == picked[i].ordinal,
        (forall|j: int| 0 <= j < picked.len() ==> (#[trigger] picked[j]).source != primary)
            ==> primary_ordinal_of(picked, primary) == 0,
    decreases picked.len(),
{
    if picked.len() > 0 {
        let rest = picked.drop_first();
        lemma_primary_ordinal_first(rest, primary, i - 1);
        if 0 < i < picked.len() && picked[i].source == primary && forall|j: int|
            0 <= j < i ==> (#[trigger] picked[j]).source != primary {
            assert(picked[0].source != primary);
            assert(rest[i - 1] == picked[i]);
            assert forall|j: int| 0 <= j < i - 1 implies (#[trigger] rest[j]).source != primary by {
                assert(rest[j] == picked[j + 1]);
            }
        }
        if forall|j: int| 0 <= j < picked.len() ==> (#[trigger] picked[j]).source != primary {
            assert(picked[0].source != primary);
            assert forall|j: int| 0 <= j < rest.len() implies (#[trigger] rest[j]).source != primary by {
                assert(rest[j] == picked[j + 1]);
            }
        }
    }
}

/// Candidate `i` is the first of a known provider.
pub open spec fn first_of_provider(cs: Seq<RunCandidate>, i: int) -> bool {
    &&& 0 <= i < cs.len()
    &&& parse_source(cs[i].source@) is Some
    &&& forall|j: int| 0 <= j < i ==> parse_source((#[trigger] cs[j]).source@) != parse_source(cs[i].source@)
}

/// The default selection holds one ordinal per known provider: the
/// ordinal of each provider's first candidate is selected, and every
/// selected ordinal is that of some provider's first candidate.
pub proof fn lemma_best_per_provider_firsts(cs: Seq<RunCandidate>, i: int, o: i32)
    ensures
        best_per_provider(cs).len() <= cs.len(),
        first_of_provider(cs, i) ==> best_per_provider(cs).contains(cs[i].ordinal),
        best_per_provider(cs).contains(o) ==> exists|k: int| first_of_provider(cs, k) && #[trigger] cs[k].ordinal == o,
    decreases cs.len(),
{
    if cs.len() > 0 {
        let init = cs.drop_last();
        let c = cs.last();
        let r0 = best_per_provider(init);
        let tail = match parse_source(c.source@) {
            Some(s) => if (exists|j: int|
                0 <= j < cs.len() - 1 && parse_source(cs[j].source@) == Some(s)) {
                Seq::<i32>::empty()
            } else {
                seq![c.ordinal]
            },
            None => Seq::<i32>::empty(),
        };
        assert(best_per_provider(cs) == r0 + tail);
        lemma_best_per_provider_firsts(init, i, o);
        if first_of_provider(cs, i) {
            if i < cs.len() - 1 {
                assert(init[i] == cs[i]);
                assert forall|j: int| 0 <= j < i implies parse_source((#[trigger] init[j]).source@)
                    != parse_source(init[i].source@) by {
                    assert(init[j] == cs[j]);
                }
                assert(first_of_provider(init, i));
                let m = choose|m: int| 0 <= m < r0.len() && r0[m] == cs[i].ordinal;
                assert((r0 + tail)[m] == cs[i].ordinal);
            } else {
                assert(c == cs[i]);
                assert(!(exists|j: int|
                    0 <= j < cs.len() - 1 && parse_source(cs[j].source@) == parse_source(c.source@)));
                assert((r0 + tail)[r0.len() as int] == cs[i].ordinal);
            }
        }
        if (r0 + tail).contains(o) {
            let m = choose|m: int| 0 <= m < (r0 + tail).len() && (r0 + tail)[m] == o;
            if m < r0.len() {
                assert(r0[m] == o);
                assert(r0.contains(o));
                let k = choose|k: int| first_of_provider(init, k) && #[trigger] init[k].ordinal == o;
                assert(init[k] == cs[k]);
                assert forall|j: int| 0 <= j < k implies parse_source((#[trigger] cs[j]).source@)
                    != parse_source(cs[k].source@) by {
                    assert(init[j] == cs[j]);
                }
                assert(first_of_provider(cs, k));
            } else {
                let k = cs.len() - 1;
                assert(cs[k] == c);
                assert forall|j: int| 0 <= j < k implies parse_source((#[trigger] cs[j]).source@)
                    != parse_source(cs[k].source@) by {
                    if parse_source(cs[j].source@) == parse_source(cs[k].source@) {
                        assert(0 <= j < cs.len() - 1 && parse_source(cs[j].source@) == parse_source(
                            c.source@,
                        ));
                    }
                }
                assert(first_of_provider(cs, k));
            }
        }
    }
}

} // verus!

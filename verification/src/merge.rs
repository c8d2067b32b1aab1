//! Merging several providers' details field by field: which fields a
//! scope merges, how rich each provider's value is, and which provider a
//! field is taken from by default.
use vstd::prelude::*;
use vstd::string::*;
use crate::field::{MetadataField, field_key, is_junction_field};
use crate::identifier::Source;
use crate::provider::{GenericMetadata, VariantCoverCandidate, CalendarDate, valid_ymd, date_exists};
use crate::text::{
    trim, blank, has_text, text_present, opt_view, trim_str, string_of, int_text, i64_text, chars_of,
    str_is_blank,
};
use crate::writers::string_views;
use crate::diff::{count_text, format_count, date_text_of, variants_with_image, incoming_variant_count};

verus! {

#[derive(Copy, Clone, Debug, PartialEq, Eq, Structural)]
pub enum MergeScope {
    Series,
    Issue,
}

/// One provider's detail for the record being merged.
#[derive(Clone, Debug)]
pub struct ProviderDetail {
    pub source: Source,
    pub external_id: String,
    /// The candidate's position in the run.
    pub ordinal: i32,
    pub detail: GenericMetadata,
}

/// Provider preference, most preferred first.
#[derive(Clone, Debug)]
pub struct MergePolicyConfig {
    pub provider_preference: Vec<Source>,
}

/// The position of `source` in the preference, or `usize::MAX` when it
/// is not listed.
pub open spec fn rank_of(pref: Seq<Source>, source: Source) -> int {
    if exists|i: int| 0 <= i < pref.len() && pref[i] == source {
        choose|i: int|
            0 <= i < pref.len() && pref[i] == source && forall|j: int|
                0 <= j < i ==> pref[j] != source
    } else {
        usize::MAX as int
    }
}

impl MergePolicyConfig {
    pub fn rank(&self, source: Source) -> (r: usize)
        ensures
            r == rank_of(self.provider_preference@, source),
    {
        let mut i: usize = 0;
        while i < self.provider_preference.len()
            invariant
                i <= self.provider_preference@.len(),
                forall|j: int| 0 <= j < i ==> self.provider_preference@[j] != source,
            decreases self.provider_preference@.len() - i,
        {
            if self.provider_preference[i] == source {
                let ghost pref = self.provider_preference@;
                assert(exists|k: int| 0 <= k < pref.len() && pref[k] == source);
                let ghost c = choose|k: int|
                    0 <= k < pref.len() && pref[k] == source && forall|j: int|
                        0 <= j < k ==> pref[j] != source;
                assert(0 <= i < pref.len() && pref[i as int] == source && forall|j: int|
                    0 <= j < i ==> pref[j] != source);
                assert(c == i) by {
                    if c < i {
                        assert(pref[c] != source);
                    } else if c > i {
                        assert(pref[i as int] != source);
                    }
                }
                return i;
            }
            i = i + 1;
        }
        usize::MAX
    }
}

/// The field a merge offers a choice for, the provider it came from, and
/// the value shown.
#[derive(Clone, Debug)]
pub struct FieldChoice {
    pub field: MetadataField,
    pub ordinal: Option<i32>,
    pub value: Option<String>,
}

pub open spec fn series_scope_fields() -> Seq<MetadataField> {
    seq![
        MetadataField::Title,
        MetadataField::SortName,
        MetadataField::SeriesType,
        MetadataField::YearBegan,
        MetadataField::YearEnd,
        MetadataField::Volume,
        MetadataField::Publisher,
        MetadataField::Imprint,
        MetadataField::Deck,
        MetadataField::Description,
    ]
}

pub open spec fn issue_scope_fields() -> Seq<MetadataField> {
    seq![
        MetadataField::Title,
        MetadataField::Deck,
        MetadataField::Description,
        MetadataField::AgeRating,
        MetadataField::PageCount,
        MetadataField::Sku,
        MetadataField::CoverDate,
        MetadataField::Credits,
        MetadataField::Characters,
        MetadataField::Teams,
        MetadataField::Locations,
        MetadataField::StoryArcs,
        MetadataField::Tags,
        MetadataField::Genres,
        MetadataField::CoverPrimary,
        MetadataField::CoverVariants,
    ]
}

pub open spec fn fields_of_scope(scope: MergeScope) -> Seq<MetadataField> {
    match scope {
        MergeScope::Series => series_scope_fields(),
        MergeScope::Issue => issue_scope_fields(),
    }
}

/// The fields a merge of `scope` offers, in display order.
pub fn scope_fields(scope: MergeScope) -> (r: Vec<MetadataField>)
    ensures
        r@ == fields_of_scope(scope),
{
    match scope {
        MergeScope::Series => {
            let r = vec![
                MetadataField::Title,
                MetadataField::SortName,
                MetadataField::SeriesType,
                MetadataField::YearBegan,
                MetadataField::YearEnd,
                MetadataField::Volume,
                MetadataField::Publisher,
                MetadataField::Imprint,
                MetadataField::Deck,
                MetadataField::Description,
            ];
            assert(r@ =~= series_scope_fields());
            r
        },
        MergeScope::Issue => {
            let r = vec![
                MetadataField::Title,
                MetadataField::Deck,
                MetadataField::Description,
                MetadataField::AgeRating,
                MetadataField::PageCount,
                MetadataField::Sku,
                MetadataField::CoverDate,
                MetadataField::Credits,
                MetadataField::Characters,
                MetadataField::Teams,
                MetadataField::Locations,
                MetadataField::StoryArcs,
                MetadataField::Tags,
                MetadataField::Genres,
                MetadataField::CoverPrimary,
                MetadataField::CoverVariants,
            ];
            assert(r@ =~= issue_scope_fields());
            r
        },
    }
}

// ───────── values ─────────

/// Text trimmed, absent when empty.
pub open spec fn norm(v: Option<String>) -> Option<Seq<char>> {
    match v {
        Some(s) => if trim(s@).len() > 0 {
            Some(trim(s@))
        } else {
            None
        },
        None => None,
    }
}

pub(crate) fn norm_exec(v: &Option<String>) -> (r: Option<String>)
    ensures
        opt_view(r) == norm(*v),
{
    match v {
        Some(s) => {
            let t = trim_str(s.as_str());
            if t.len() > 0 {
                Some(string_of(&t))
            } else {
                None
            }
        },
        None => None,
    }
}

pub open spec fn int_value(v: Option<i32>) -> Option<Seq<char>> {
    match v {
        Some(n) => Some(int_text(n as int)),
        None => None,
    }
}

fn int_value_exec(v: Option<i32>) -> (r: Option<String>)
    ensures
        opt_view(r) == int_value(v),
{
    match v {
        Some(n) => Some(i64_text(n as i64)),
        None => None,
    }
}

/// A date as chrono prints it; dates that do not exist have no text.
pub open spec fn date_value(d: Option<CalendarDate>) -> Option<Seq<char>> {
    match d {
        Some(x) => if valid_ymd(x.year, x.month, x.day) {
            Some(date_text_of(x.year, x.month, x.day))
        } else {
            None
        },
        None => None,
    }
}

fn date_value_exec(d: &Option<CalendarDate>) -> (r: Option<String>)
    ensures
        opt_view(r) == date_value(*d),
{
    match d {
        Some(x) => {
            if date_exists(x.year, x.month, x.day) {
                Some(crate::diff::date_to_string(x.year, x.month, x.day))
            } else {
                None
            }
        },
        None => None,
    }
}

/// The trimmed, non-empty aliases in order.
pub open spec fn kept_aliases(a: Seq<String>) -> Seq<Seq<char>>
    decreases a.len(),
{
    if a.len() == 0 {
        Seq::empty()
    } else {
        kept_aliases(a.drop_last()) + if trim(a.last()@).len() > 0 {
            seq![trim(a.last()@)]
        } else {
            Seq::empty()
        }
    }
}

/// Items joined with `", "`.
pub open spec fn join_comma(ws: Seq<Seq<char>>) -> Seq<char>
    decreases ws.len(),
{
    if ws.len() == 0 {
        Seq::empty()
    } else if ws.len() == 1 {
        ws[0]
    } else {
        join_comma(ws.drop_last()) + ", "@ + ws.last()
    }
}

pub open spec fn aliases_value(a: Seq<String>) -> Option<Seq<char>> {
    if kept_aliases(a).len() == 0 {
        None
    } else {
        Some(join_comma(kept_aliases(a)))
    }
}

proof fn lemma_join_nonempty(ws: Seq<Seq<char>>)
    requires
        ws.len() > 0,
        forall|i: int| 0 <= i < ws.len() ==> #[trigger] ws[i].len() > 0,
    ensures
        join_comma(ws).len() > 0,
    decreases ws.len(),
{
    if ws.len() > 1 {
        lemma_join_nonempty(ws.drop_last());
    }
}

fn aliases_value_exec(a: &Vec<String>) -> (r: Option<String>)
    ensures
        opt_view(r) == aliases_value(a@),
{
    let mut out = String::new();
    let mut count: usize = 0;
    let mut i: usize = 0;
    assert(a@.take(0) =~= Seq::<String>::empty());
    while i < a.len()
        invariant
            i <= a@.len(),
            count == kept_aliases(a@.take(i as int)).len(),
            out@ == join_comma(kept_aliases(a@.take(i as int))),
            count <= i,
        decreases a@.len() - i,
    {
        let ghost before = kept_aliases(a@.take(i as int));
        assert(a@.take(i + 1).drop_last() =~= a@.take(i as int));
        assert(a@.take(i + 1).last() == a@[i as int]);
        let t = trim_str(a[i].as_str());
        if t.len() > 0 {
            let ts = string_of(&t);
            let ghost after = before.push(t@);
            assert(kept_aliases(a@.take(i + 1)) =~= after);
            assert(after.drop_last() =~= before);
            if count > 0 {
                out.append(", ");
            }
            out.append(ts.as_str());
            count = count + 1;
            assert(out@ =~= join_comma(after));
        } else {
            assert(kept_aliases(a@.take(i + 1)) =~= before);
        }
        i = i + 1;
    }
    assert(a@.take(a@.len() as int) =~= a@);
    if count == 0 {
        None
    } else {
        Some(out)
    }
}

/// The number of entries in a list that are not blank.
pub open spec fn nonblank_count(v: Seq<String>) -> nat
    decreases v.len(),
{
    if v.len() == 0 {
        0
    } else {
        nonblank_count(v.drop_last()) + if blank(v.last()@) {
            0nat
        } else {
            1nat
        }
    }
}

fn nonblank_count_exec(v: &Vec<String>) -> (r: usize)
    ensures
        r == nonblank_count(v@),
{
    let mut n: usize = 0;
    let mut i: usize = 0;
    assert(v@.take(0) =~= Seq::<String>::empty());
    while i < v.len()
        invariant
            i <= v@.len(),
            n == nonblank_count(v@.take(i as int)),
            n <= i,
        decreases v@.len() - i,
    {
        assert(v@.take(i + 1).drop_last() =~= v@.take(i as int));
        assert(v@.take(i + 1).last() == v@[i as int]);
        if !str_is_blank(v[i].as_str()) {
            n = n + 1;
        }
        i = i + 1;
    }
    assert(v@.take(v@.len() as int) =~= v@);
    n
}

/// How many items a collection field holds in a provider's detail.
pub open spec fn collection_size(d: GenericMetadata, f: MetadataField) -> nat {
    match f {
        MetadataField::Credits => d.credits@.len(),
        MetadataField::Characters => d.characters@.len(),
        MetadataField::Teams => d.teams@.len(),
        MetadataField::Locations => d.locations@.len(),
        MetadataField::Concepts => d.concepts@.len(),
        MetadataField::Objects => d.objects@.len(),
        MetadataField::StoryArcs => d.story_arcs@.len(),
        MetadataField::Universes => d.universes@.len(),
        MetadataField::Genres => nonblank_count(d.genres@),
        MetadataField::Tags => nonblank_count(d.tags@),
        MetadataField::Reprints => d.reprints@.len(),
        MetadataField::CoverVariants => variants_with_image(d.variants@),
        _ => 0,
    }
}

/// A collection field: a junction set or the variant covers.
pub open spec fn is_collection(f: MetadataField) -> bool {
    is_junction_field(f) || f == MetadataField::CoverVariants
}

/// The floating-point fields, whose text comes from the float's own
/// formatting.
pub open spec fn is_float_field(f: MetadataField) -> bool {
    f == MetadataField::CommunityRating || f == MetadataField::StaffRating || f
        == MetadataField::Price
}

/// A provider's value of a field as the merge view shows it.
pub open spec fn value_of(d: GenericMetadata, f: MetadataField, scope: MergeScope) -> Option<Seq<char>> {
    match f {
        MetadataField::Title => match scope {
            MergeScope::Series => norm(d.series_name),
            MergeScope::Issue => norm(d.title),
        },
        MetadataField::SortName => norm(d.series_sort_name),
        MetadataField::SeriesType => norm(d.series_type),
        MetadataField::Publisher => norm(d.publisher),
        MetadataField::Imprint => norm(d.imprint),
        MetadataField::Deck => norm(d.deck),
        MetadataField::Description => norm(d.description),
        MetadataField::Notes => norm(d.notes),
        MetadataField::ScanInformation => norm(d.scan_information),
        MetadataField::AgeRating => norm(d.age_rating),
        MetadataField::Format => norm(d.format),
        MetadataField::LanguageCode => norm(d.language_code),
        MetadataField::Sku => norm(d.sku),
        MetadataField::YearBegan => int_value(d.year_began),
        MetadataField::YearEnd => int_value(d.year_end),
        MetadataField::Volume => int_value(d.volume),
        MetadataField::PageCount => int_value(d.page_count),
        MetadataField::CoverDate => date_value(d.cover_date),
        MetadataField::StoreDate => date_value(d.store_date),
        MetadataField::FocDate => date_value(d.foc_date),
        MetadataField::Aliases => aliases_value(d.aliases@),
        MetadataField::CoverPrimary => norm(d.cover_image_url),
        _ => if is_collection(f) && collection_size(d, f) > 0 {
            Some(count_text(collection_size(d, f)))
        } else {
            None
        },
    }
}

/// How rich a provider's value of a field is: the item count of a
/// collection, else 1 when it has a value and 0 otherwise.
pub open spec fn richness(d: GenericMetadata, f: MetadataField, scope: MergeScope) -> nat {
    if is_collection(f) {
        collection_size(d, f)
    } else if value_of(d, f, scope) is Some {
        1
    } else {
        0
    }
}

fn collection_size_exec(d: &GenericMetadata, f: MetadataField) -> (r: usize)
    ensures
        r == collection_size(*d, f),
{
    match f {
        MetadataField::Credits => d.credits.len(),
        MetadataField::Characters => d.characters.len(),
        MetadataField::Teams => d.teams.len(),
        MetadataField::Locations => d.locations.len(),
        MetadataField::Concepts => d.concepts.len(),
        MetadataField::Objects => d.objects.len(),
        MetadataField::StoryArcs => d.story_arcs.len(),
        MetadataField::Universes => d.universes.len(),
        MetadataField::Genres => nonblank_count_exec(&d.genres),
        MetadataField::Tags => nonblank_count_exec(&d.tags),
        MetadataField::Reprints => d.reprints.len(),
        MetadataField::CoverVariants => incoming_variant_count(&d.variants),
        _ => 0,
    }
}

/// The value of `field` in a provider's detail, as text.
pub fn field_value_as_string(detail: &GenericMetadata, field: MetadataField, scope: MergeScope) -> (r:
    Option<String>)
    requires
        !is_float_field(field),
    ensures
        opt_view(r) == value_of(*detail, field, scope),
{
    match field {
        MetadataField::Title => match scope {
            MergeScope::Series => norm_exec(&detail.series_name),
            MergeScope::Issue => norm_exec(&detail.title),
        },
        MetadataField::SortName => norm_exec(&detail.series_sort_name),
        MetadataField::SeriesType => norm_exec(&detail.series_type),
        MetadataField::Publisher => norm_exec(&detail.publisher),
        MetadataField::Imprint => norm_exec(&detail.imprint),
        MetadataField::Deck => norm_exec(&detail.deck),
        MetadataField::Description => norm_exec(&detail.description),
        MetadataField::Notes => norm_exec(&detail.notes),
        MetadataField::ScanInformation => norm_exec(&detail.scan_information),
        MetadataField::AgeRating => norm_exec(&detail.age_rating),
        MetadataField::Format => norm_exec(&detail.format),
        MetadataField::LanguageCode => norm_exec(&detail.language_code),
        MetadataField::Sku => norm_exec(&detail.sku),
        MetadataField::YearBegan => int_value_exec(detail.year_began),
        MetadataField::YearEnd => int_value_exec(detail.year_end),
        MetadataField::Volume => int_value_exec(detail.volume),
        MetadataField::PageCount => int_value_exec(detail.page_count),
        MetadataField::CoverDate => date_value_exec(&detail.cover_date),
        MetadataField::StoreDate => date_value_exec(&detail.store_date),
        MetadataField::FocDate => date_value_exec(&detail.foc_date),
        MetadataField::Aliases => aliases_value_exec(&detail.aliases),
        MetadataField::CoverPrimary => norm_exec(&detail.cover_image_url),
        _ => {
            if field.is_junction() || field == MetadataField::CoverVariants {
                let n = collection_size_exec(detail, field);
                if n > 0 {
                    Some(format_count(n))
                } else {
                    None
                }
            } else {
                None
            }
        },
    }
}

/// How rich a provider's value of `field` is.
pub fn field_richness(detail: &GenericMetadata, field: MetadataField, scope: MergeScope) -> (r:
    usize)
    requires
        !is_float_field(field),
    ensures
        r == richness(*detail, field, scope),
{
    if field.is_junction() || field == MetadataField::CoverVariants {
        collection_size_exec(detail, field)
    } else {
        match field_value_as_string(detail, field, scope) {
            Some(_) => 1,
            None => 0,
        }
    }
}

// ───────── choosing ─────────

/// The merge key of a collection field: larger sets first, then preferred
/// providers, then earlier candidates. `a` ranks at most as high as `b`.
pub open spec fn coll_key_le(
    pref: Seq<Source>,
    f: MetadataField,
    scope: MergeScope,
    a: ProviderDetail,
    b: ProviderDetail,
) -> bool {
    let ra = richness(a.detail, f, scope);
    let rb = richness(b.detail, f, scope);
    let pa = rank_of(pref, a.source);
    let pb = rank_of(pref, b.source);
    ra < rb || (ra == rb && (pa > pb || (pa == pb && a.ordinal >= b.ordinal)))
}

/// The merge key of a scalar field: preferred providers first, then
/// earlier candidates. `a` comes no later than `b`.
pub open spec fn scalar_key_le(pref: Seq<Source>, a: ProviderDetail, b: ProviderDetail) -> bool {
    let pa = rank_of(pref, a.source);
    let pb = rank_of(pref, b.source);
    pa < pb || (pa == pb && a.ordinal <= b.ordinal)
}

/// Whether a provider's detail can supply the field at all.
pub open spec fn eligible(d: ProviderDetail, f: MetadataField, scope: MergeScope) -> bool {
    if is_collection(f) {
        richness(d.detail, f, scope) > 0
    } else {
        value_of(d.detail, f, scope) is Some
    }
}

/// `k` is the detail a field is taken from: for a collection the richest
/// (ties to the preferred provider, then the earlier candidate, then the
/// later position), for a scalar the preferred provider with a value
/// (ties to the earlier candidate, then the earlier position).
pub open spec fn chosen_at(
    ds: Seq<ProviderDetail>,
    pref: Seq<Source>,
    f: MetadataField,
    scope: MergeScope,
    k: int,
) -> bool {
    &&& 0 <= k < ds.len()
    &&& eligible(ds[k], f, scope)
    &&& if is_collection(f) {
        &&& forall|j: int|
            0 <= j < ds.len() && #[trigger] eligible(ds[j], f, scope) ==> coll_key_le(
                pref,
                f,
                scope,
                ds[j],
                ds[k],
            )
        &&& forall|j: int|
            k < j < ds.len() && #[trigger] eligible(ds[j], f, scope) ==> !coll_key_le(
                pref,
                f,
                scope,
                ds[k],
                ds[j],
            )
    } else {
        &&& forall|j: int|
            0 <= j < ds.len() && #[trigger] eligible(ds[j], f, scope) ==> scalar_key_le(
                pref,
                ds[k],
                ds[j],
            )
        &&& forall|j: int|
            0 <= j < k && #[trigger] eligible(ds[j], f, scope) ==> !scalar_key_le(
                pref,
                ds[j],
                ds[k],
            )
    }
}

/// The candidate (by ordinal) a field is taken from by default; external
/// ids are never merged field by field.
pub fn choose_field_candidate(
    field: MetadataField,
    details: &[ProviderDetail],
    policy: &MergePolicyConfig,
    scope: MergeScope,
) -> (r: Option<i32>)
    requires
        !is_float_field(field),
    ensures
        field is ExternalId ==> r is None,
        !(field is ExternalId) ==> match r {
            Some(o) => exists|k: int|
                chosen_at(details@, policy.provider_preference@, field, scope, k)
                    && details@[k].ordinal == o,
            None => forall|j: int|
                0 <= j < details@.len() ==> !#[trigger] eligible(details@[j], field, scope),
        },
{
    if matches!(field, MetadataField::ExternalId(_)) {
        return None;
    }
    let ghost ds = details@;
    let ghost pref = policy.provider_preference@;
    let coll = field.is_junction() || field == MetadataField::CoverVariants;
    let mut best: Option<usize> = None;
    let mut best_rich: usize = 0;
    let mut best_rank: usize = 0;
    let mut i: usize = 0;
    while i < details.len()
        invariant
            i <= ds.len(),
            ds == details@,
            pref == policy.provider_preference@,
            !is_float_field(field),
            !(field is ExternalId),
            coll == is_collection(field),
            match best {
                Some(b) => {
                    &&& b < i
                    &&& eligible(ds[b as int], field, scope)
                    &&& best_rich == richness(ds[b as int].detail, field, scope)
                    &&& best_rank == rank_of(pref, ds[b as int].source)
                    &&& if coll {
                        &&& forall|j: int|
                            0 <= j < i && #[trigger] eligible(ds[j], field, scope) ==> coll_key_le(
                                pref,
                                field,
                                scope,
                                ds[j],
                                ds[b as int],
                            )
                        &&& forall|j: int|
                            b < j < i && #[trigger] eligible(ds[j], field, scope) ==> !coll_key_le(
                                pref,
                                field,
                                scope,
                                ds[b as int],
                                ds[j],
                            )
                    } else {
                        &&& forall|j: int|
                            0 <= j < i && #[trigger] eligible(ds[j], field, scope) ==> scalar_key_le(
                                pref,
                                ds[b as int],
                                ds[j],
                            )
                        &&& forall|j: int|
                            0 <= j < b && #[trigger] eligible(ds[j], field, scope) ==> !scalar_key_le(
                                pref,
                                ds[j],
                                ds[b as int],
                            )
                    }
                },
                None => forall|j: int| 0 <= j < i ==> !#[trigger] eligible(ds[j], field, scope),
            },
        decreases ds.len() - i,
    {
        let d = &details[i];
        let rich = field_richness(&d.detail, field, scope);
        let rank = policy.rank(d.source);
        let elig = if coll {
            rich > 0
        } else {
            rich > 0
        };
        assert(elig == eligible(ds[i as int], field, scope));
        if elig {
            match best {
                None => {
                    best = Some(i);
                    best_rich = rich;
                    best_rank = rank;
                },
                Some(b) => {
                    let bo = details[b].ordinal;
                    let replace = if coll {
                        rich > best_rich || (rich == best_rich && (rank < best_rank || (rank
                            == best_rank && d.ordinal <= bo)))
                    } else {
                        rank < best_rank || (rank == best_rank && d.ordinal < bo)
                    };
                    if replace {
                        best = Some(i);
                        best_rich = rich;
                        best_rank = rank;
                    }
                },
            }
        }
        i = i + 1;
    }
    match best {
        Some(b) => {
            assert(chosen_at(ds, pref, field, scope, b as int));
            Some(details[b].ordinal)
        },
        None => None,
    }
}

/// The first detail of the candidate `o`.
pub open spec fn detail_of(ds: Seq<ProviderDetail>, o: i32) -> Option<ProviderDetail>
    decreases ds.len(),
{
    if ds.len() == 0 {
        None
    } else if ds[0].ordinal == o {
        Some(ds[0])
    } else {
        detail_of(ds.drop_first(), o)
    }
}

fn find_detail(ds: &[ProviderDetail], o: i32) -> (r: Option<usize>)
    ensures
        match r {
            Some(i) => i < ds@.len() && detail_of(ds@, o) == Some(ds@[i as int]),
            None => detail_of(ds@, o) is None,
        },
{
    let mut i: usize = 0;
    assert(ds@.skip(0) =~= ds@);
    while i < ds.len()
        invariant
            i <= ds@.len(),
            detail_of(ds@, o) == detail_of(ds@.skip(i as int), o),
        decreases ds@.len() - i,
    {
        assert(ds@.skip(i as int)[0] == ds@[i as int]);
        if ds[i].ordinal == o {
            return Some(i);
        }
        assert(ds@.skip(i as int).drop_first() =~= ds@.skip(i + 1));
        i = i + 1;
    }
    None
}

/// The value shown for a chosen candidate.
pub open spec fn chosen_value(
    ds: Seq<ProviderDetail>,
    o: Option<i32>,
    f: MetadataField,
    scope: MergeScope,
) -> Option<Seq<char>> {
    match o {
        Some(ord) => match detail_of(ds, ord) {
            Some(d) => value_of(d.detail, f, scope),
            None => None,
        },
        None => None,
    }
}

pub fn chosen_value_of(
    details: &[ProviderDetail],
    ordinal: Option<i32>,
    field: MetadataField,
    scope: MergeScope,
) -> (r: Option<String>)
    requires
        !is_float_field(field),
    ensures
        opt_view(r) == chosen_value(details@, ordinal, field, scope),
{
    match ordinal {
        Some(o) => match find_detail(details, o) {
            Some(i) => field_value_as_string(&details[i].detail, field, scope),
            None => None,
        },
        None => None,
    }
}

/// The default merge: for every field of the scope, in order, the
/// candidate chosen and its value.
pub fn build_default_merge(
    details: &[ProviderDetail],
    policy: &MergePolicyConfig,
    scope: MergeScope,
) -> (r: Vec<FieldChoice>)
    ensures
        r@.len() == fields_of_scope(scope).len(),
        forall|i: int|
            0 <= i < r@.len() ==> {
                let f = fields_of_scope(scope)[i];
                &&& (#[trigger] r@[i]).field == f
                &&& (r@[i].ordinal matches Some(o) ==> exists|k: int|
                    chosen_at(details@, policy.provider_preference@, f, scope, k)
                        && details@[k].ordinal == o)
                &&& (r@[i].ordinal is None ==> forall|j: int|
                    0 <= j < details@.len() ==> !#[trigger] eligible(details@[j], f, scope))
                &&& opt_view(r@[i].value) == chosen_value(details@, r@[i].ordinal, f, scope)
            },
{
    let fields = scope_fields(scope);
    let mut out: Vec<FieldChoice> = Vec::new();
    let mut i: usize = 0;
    while i < fields.len()
        invariant
            i <= fields@.len(),
            fields@ == fields_of_scope(scope),
            out@.len() == i,
            forall|k: int|
                0 <= k < i ==> {
                    let f = fields_of_scope(scope)[k];
                    &&& (#[trigger] out@[k]).field == f
                    &&& (out@[k].ordinal matches Some(o) ==> exists|m: int|
                        chosen_at(details@, policy.provider_preference@, f, scope, m)
                            && details@[m].ordinal == o)
                    &&& (out@[k].ordinal is None ==> forall|j: int|
                        0 <= j < details@.len() ==> !#[trigger] eligible(details@[j], f, scope))
                    &&& opt_view(out@[k].value) == chosen_value(details@, out@[k].ordinal, f, scope)
                },
        decreases fields@.len() - i,
    {
        let field = fields[i];
        proof {
            assert(!is_float_field(field)) by {
                if scope == MergeScope::Series {
                    assert(series_scope_fields()[i as int] == field);
                } else {
                    assert(issue_scope_fields()[i as int] == field);
                }
            }
            assert(!(field is ExternalId)) by {
                if scope == MergeScope::Series {
                    assert(series_scope_fields()[i as int] == field);
                } else {
                    assert(issue_scope_fields()[i as int] == field);
                }
            }
        }
        let ordinal = choose_field_candidate(field, details, policy, scope);
        let value = chosen_value_of(details, ordinal, field, scope);
        let ghost before = out@;
        out.push(FieldChoice { field, ordinal, value });
        assert forall|k: int| 0 <= k < i implies out@[k] == before[k] by {}
        i = i + 1;
    }
    out
}

// ───────── laws ─────────

/// A collection field's richness, and the count the merge view shows for
/// it, is the number of items the provider's detail holds in that field
/// (for genres and tags the entries that are not blank, for variant covers
/// those with an image).
pub proof fn lemma_collection_richness_is_item_count(d: GenericMetadata, scope: MergeScope)
    ensures
        richness(d, MetadataField::Credits, scope) == d.credits@.len(),
        richness(d, MetadataField::Characters, scope) == d.characters@.len(),
        richness(d, MetadataField::Teams, scope) == d.teams@.len(),
        richness(d, MetadataField::Locations, scope) == d.locations@.len(),
        richness(d, MetadataField::Concepts, scope) == d.concepts@.len(),
        richness(d, MetadataField::Objects, scope) == d.objects@.len(),
        richness(d, MetadataField::StoryArcs, scope) == d.story_arcs@.len(),
        richness(d, MetadataField::Universes, scope) == d.universes@.len(),
        richness(d, MetadataField::Reprints, scope) == d.reprints@.len(),
        richness(d, MetadataField::Genres, scope) == nonblank_count(d.genres@),
        richness(d, MetadataField::Tags, scope) == nonblank_count(d.tags@),
        richness(d, MetadataField::CoverVariants, scope) == variants_with_image(d.variants@),
        value_of(d, MetadataField::Teams, scope) == (if d.teams@.len() > 0 {
            Some(count_text(d.teams@.len()))
        } else {
            None
        }),
        value_of(d, MetadataField::Characters, scope) == (if d.characters@.len() > 0 {
            Some(count_text(d.characters@.len()))
        } else {
            None
        }),
        value_of(d, MetadataField::Credits, scope) == (if d.credits@.len() > 0 {
            Some(count_text(d.credits@.len()))
        } else {
            None
        }),
        value_of(d, MetadataField::Locations, scope) == (if d.locations@.len() > 0 {
            Some(count_text(d.locations@.len()))
        } else {
            None
        }),
        value_of(d, MetadataField::StoryArcs, scope) == (if d.story_arcs@.len() > 0 {
            Some(count_text(d.story_arcs@.len()))
        } else {
            None
        }),
{
}

/// The richest set wins: the detail a collection field is taken from
/// holds at least as many items as every other detail, so a detail with
/// strictly more teams (characters, credits, locations, story arcs) than
/// another is never passed over for it.
pub proof fn lemma_richest_set_wins(
    ds: Seq<ProviderDetail>,
    pref: Seq<Source>,
    f: MetadataField,
    scope: MergeScope,
    k: int,
    j: int,
)
    requires
        is_collection(f),
        chosen_at(ds, pref, f, scope, k),
        0 <= j < ds.len(),
    ensures
        richness(ds[j].detail, f, scope) <= richness(ds[k].detail, f, scope),
        f == MetadataField::Teams ==> ds[j].detail.teams@.len() <= ds[k].detail.teams@.len(),
        f == MetadataField::Characters ==> ds[j].detail.characters@.len()
            <= ds[k].detail.characters@.len(),
        f == MetadataField::Credits ==> ds[j].detail.credits@.len() <= ds[k].detail.credits@.len(),
        f == MetadataField::Locations ==> ds[j].detail.locations@.len()
            <= ds[k].detail.locations@.len(),
        f == MetadataField::StoryArcs ==> ds[j].detail.story_arcs@.len()
            <= ds[k].detail.story_arcs@.len(),
{
    if eligible(ds[j], f, scope) {
        assert(coll_key_le(pref, f, scope, ds[j], ds[k]));
    }
    lemma_collection_richness_is_item_count(ds[j].detail, scope);
    lemma_collection_richness_is_item_count(ds[k].detail, scope);
}

/// Among details that hold some teams, the one with strictly more teams
/// than every other is the one teams are taken from, whatever the
/// provider preference.
pub proof fn lemma_most_teams_chosen(
    ds: Seq<ProviderDetail>,
    pref: Seq<Source>,
    scope: MergeScope,
    k: int,
    m: int,
)
    requires
        chosen_at(ds, pref, MetadataField::Teams, scope, k),
        0 <= m < ds.len(),
        forall|j: int| 0 <= j < ds.len() && j != m ==> ds[j].detail.teams@.len() < #[trigger] ds[m].detail.teams@.len(),
    ensures
        k == m,
{
    if k != m {
        lemma_richest_set_wins(ds, pref, MetadataField::Teams, scope, k, m);
    }
}

proof fn lemma_first_occurrence(pref: Seq<Source>, s: Source, p: int)
    requires
        0 <= p < pref.len(),
        pref[p] == s,
    ensures
        exists|q: int| 0 <= q <= p && pref[q] == s && forall|j: int| 0 <= j < q ==> pref[j] != s,
    decreases p,
{
    if exists|j: int| 0 <= j < p && pref[j] == s {
        let j = choose|j: int| 0 <= j < p && pref[j] == s;
        lemma_first_occurrence(pref, s, j);
    } else {
        assert(0 <= p <= p && pref[p] == s && forall|j: int| 0 <= j < p ==> pref[j] != s);
    }
}

proof fn lemma_rank_at_most(pref: Seq<Source>, s: Source, p: int)
    requires
        0 <= p < pref.len(),
        pref[p] == s,
    ensures
        0 <= rank_of(pref, s) <= p,
        pref[rank_of(pref, s)] == s,
{
    lemma_first_occurrence(pref, s, p);
    assert(exists|i: int| 0 <= i < pref.len() && pref[i] == s);
    let r = rank_of(pref, s);
    assert(0 <= r < pref.len() && pref[r] == s && forall|j: int| 0 <= j < r ==> pref[j] != s);
    if r > p {
        assert(pref[p] != s);
    }
}

/// The preferred provider wins a scalar field: the detail a scalar field
/// is taken from comes from a provider listed in the preference no later
/// than any listed provider whose detail has a value for the field.
#[verifier::spinoff_prover]
#[verifier::rlimit(50)]
pub proof fn lemma_preferred_value_wins(
    ds: Seq<ProviderDetail>,
    pref: Seq<Source>,
    f: MetadataField,
    scope: MergeScope,
    k: int,
    j: int,
    p: int,
)
    requires
        !is_collection(f),
        chosen_at(ds, pref, f, scope, k),
        0 <= j < ds.len(),
        value_of(ds[j].detail, f, scope) is Some,
        0 <= p < pref.len(),
        pref.len() < usize::MAX,
        pref[p] == ds[j].source,
    ensures
        exists|q: int| 0 <= q <= p && pref[q] == ds[k].source,
{
    assert(eligible(ds[j], f, scope));
    assert(scalar_key_le(pref, ds[k], ds[j]));
    lemma_rank_at_most(pref, ds[j].source, p);
    let sk = ds[k].source;
    let rk = rank_of(pref, sk);
    assert(rk <= p);
    if exists|i: int| 0 <= i < pref.len() && pref[i] == sk {
        let i = choose|i: int| 0 <= i < pref.len() && pref[i] == sk;
        lemma_rank_at_most(pref, sk, i);
        assert(0 <= rk <= p && pref[rk] == sk);
    } else {
        assert(rk == usize::MAX as int);
    }
}

} // verus!

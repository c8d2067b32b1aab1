//! How complete an issue's or a series' metadata is: the tier a row
//! falls in, the weighted share of core fields present, the fields still
//! missing, and the SQL predicate for "metadata satisfied".
use vstd::prelude::*;
use vstd::string::*;
use crate::field::{MetadataField, field_key};
use crate::writers::string_views;
use crate::text::{blank, opt_str_view, filled, opt_str_filled, clone_strings};

verus! {

/// The key under which a missing external id is reported.
pub const EXTERNAL_ID_KEY: &'static str = "external_id";

/// Weight of the external id and the cover among the core fields.
pub const HEAVY_WEIGHT: u32 = 2;

/// Weight of every other core field.
pub const LIGHT_WEIGHT: u32 = 1;

#[derive(Copy, Clone, Debug, PartialEq, Eq, Structural)]
pub enum CompletenessTier {
    Complete,
    Partial,
    NeedsMetadata,
    /// The user accepted the row as it is.
    Accepted,
}

impl CompletenessTier {
    /// A row the user accepted reads as `Accepted` unless it is complete
    /// anyway.
    pub fn with_acceptance(self, accepted: bool) -> (r: Self)
        ensures
            r == (if accepted && self != CompletenessTier::Complete {
                CompletenessTier::Accepted
            } else {
                self
            }),
    {
        if accepted && self != CompletenessTier::Complete {
            CompletenessTier::Accepted
        } else {
            self
        }
    }
}

/// The literal text that follows each occurrence of the table alias in
/// the satisfied predicate.
pub open spec fn satisfied_sql_parts() -> Seq<Seq<char>> {
    seq![
        ".metadata_review_accepted_at IS NOT NULL OR ( "@,
        ".year IS NOT NULL AND "@,
        ".year >= 1800 AND COALESCE(btrim("@,
        ".summary), '') <> '' AND "@,
        ".page_count IS NOT NULL AND "@,
        ".page_count > 0 AND (COALESCE("@,
        ".writer, '') <> '' OR COALESCE("@,
        ".penciller, '') <> '' OR COALESCE("@,
        ".inker, '') <> '' OR COALESCE("@,
        ".colorist, '') <> '' OR COALESCE("@,
        ".letterer, '') <> '' OR COALESCE("@,
        ".cover_artist, '') <> '' OR COALESCE("@,
        ".editor, '') <> '' OR COALESCE("@,
        ".translator, '') <> '') AND EXISTS (SELECT 1 FROM external_ids x WHERE x.entity_type = 'issue' AND x.entity_id = "@,
        ".id AND x.source IN ('comicvine', 'metron')))"@,
    ]
}

/// The alias followed by each part, in order.
pub open spec fn interleave(a: Seq<char>, parts: Seq<Seq<char>>) -> Seq<char>
    decreases parts.len(),
{
    if parts.len() == 0 {
        Seq::empty()
    } else {
        interleave(a, parts.drop_last()) + a + parts.last()
    }
}

fn satisfied_sql_parts_of() -> (r: Vec<&'static str>)
    ensures
        r@.map_values(|p: &str| p@) == satisfied_sql_parts(),
{
    let r: Vec<&'static str> = vec![
        ".metadata_review_accepted_at IS NOT NULL OR ( ",
        ".year IS NOT NULL AND ",
        ".year >= 1800 AND COALESCE(btrim(",
        ".summary), '') <> '' AND ",
        ".page_count IS NOT NULL AND ",
        ".page_count > 0 AND (COALESCE(",
        ".writer, '') <> '' OR COALESCE(",
        ".penciller, '') <> '' OR COALESCE(",
        ".inker, '') <> '' OR COALESCE(",
        ".colorist, '') <> '' OR COALESCE(",
        ".letterer, '') <> '' OR COALESCE(",
        ".cover_artist, '') <> '' OR COALESCE(",
        ".editor, '') <> '' OR COALESCE(",
        ".translator, '') <> '') AND EXISTS (SELECT 1 FROM external_ids x WHERE x.entity_type = 'issue' AND x.entity_id = ",
        ".id AND x.source IN ('comicvine', 'metron')))",
    ];
    assert(r@.map_values(|p: &str| p@) =~= satisfied_sql_parts());
    r
}

/// The SQL predicate, over the issues table under `alias`, for "this
/// issue's metadata is satisfied": accepted by the user, or a plausible
/// year, a summary, a page count, a credit and a ComicVine or Metron id.
pub fn issue_metadata_satisfied_sql(alias: &str) -> (r: String)
    ensures
        r@ == interleave(alias@, satisfied_sql_parts()),
{
    let parts = satisfied_sql_parts_of();
    let ghost ps = parts@.map_values(|p: &str| p@);
    let mut s = String::new();
    let mut i: usize = 0;
    assert(ps.take(0) =~= Seq::<Seq<char>>::empty());
    while i < parts.len()
        invariant
            i <= parts@.len(),
            ps == parts@.map_values(|p: &str| p@),
            s@ == interleave(alias@, ps.take(i as int)),
        decreases parts@.len() - i,
    {
        s.append(alias);
        s.append(parts[i]);
        assert(ps.take(i + 1).drop_last() =~= ps.take(i as int));
        i = i + 1;
        assert(s@ =~= interleave(alias@, ps.take(i as int)));
    }
    assert(ps.take(parts@.len() as int) =~= ps);
    s
}

/// What the issue assessment reads.
#[derive(Clone, Copy, Debug)]
pub struct IssueCompletenessInput {
    pub has_external_id: bool,
    pub has_title: bool,
    pub has_cover_date: bool,
    pub has_summary: bool,
    pub has_page_count: bool,
    pub has_credits: bool,
    pub has_cover: bool,
    pub has_characters: bool,
    pub has_story_arcs: bool,
    pub has_genres: bool,
}

impl Default for IssueCompletenessInput {
    fn default() -> (r: Self)
        ensures
            !r.has_external_id && !r.has_title && !r.has_cover_date && !r.has_summary
                && !r.has_page_count && !r.has_credits && !r.has_cover && !r.has_characters
                && !r.has_story_arcs && !r.has_genres,
    {
        IssueCompletenessInput {
            has_external_id: false,
            has_title: false,
            has_cover_date: false,
            has_summary: false,
            has_page_count: false,
            has_credits: false,
            has_cover: false,
            has_characters: false,
            has_story_arcs: false,
            has_genres: false,
        }
    }
}

/// What the series assessment reads.
#[derive(Clone, Copy, Debug)]
pub struct SeriesCompletenessInput {
    pub has_external_id: bool,
    pub has_summary: bool,
    pub has_publisher: bool,
    pub has_status: bool,
    pub has_total_issues: bool,
    pub has_year_began: bool,
    pub has_genres: bool,
}

impl Default for SeriesCompletenessInput {
    fn default() -> (r: Self)
        ensures
            !r.has_external_id && !r.has_summary && !r.has_publisher && !r.has_status
                && !r.has_total_issues && !r.has_year_began && !r.has_genres,
    {
        SeriesCompletenessInput {
            has_external_id: false,
            has_summary: false,
            has_publisher: false,
            has_status: false,
            has_total_issues: false,
            has_year_began: false,
            has_genres: false,
        }
    }
}

/// A year from 1800 on.
pub fn plausible_year(year: Option<i32>) -> (r: bool)
    ensures
        r == (year matches Some(y) && y >= 1800),
{
    match year {
        Some(y) => y >= 1800,
        None => false,
    }
}

/// Present and not blank.
pub fn non_empty(value: Option<&str>) -> (r: bool)
    ensures
        r == filled(opt_str_view(value)),
{
    opt_str_filled(value)
}

// ───────── assessment ─────────

/// One core field: key, weight, present.
pub type CoreField = (String, u32, bool);

pub open spec fn core_missing(core: Seq<(Seq<char>, u32, bool)>) -> Seq<Seq<char>>
    decreases core.len(),
{
    if core.len() == 0 {
        Seq::empty()
    } else {
        core_missing(core.drop_last()) + if core.last().2 {
            Seq::empty()
        } else {
            seq![core.last().0]
        }
    }
}

pub open spec fn recommended_missing(rec: Seq<(Seq<char>, bool)>) -> Seq<Seq<char>>
    decreases rec.len(),
{
    if rec.len() == 0 {
        Seq::empty()
    } else {
        recommended_missing(rec.drop_last()) + if rec.last().1 {
            Seq::empty()
        } else {
            seq![rec.last().0]
        }
    }
}

pub open spec fn total_weight(core: Seq<(Seq<char>, u32, bool)>) -> int
    decreases core.len(),
{
    if core.len() == 0 {
        0
    } else {
        total_weight(core.drop_last()) + core.last().1
    }
}

pub open spec fn present_weight(core: Seq<(Seq<char>, u32, bool)>) -> int
    decreases core.len(),
{
    if core.len() == 0 {
        0
    } else {
        present_weight(core.drop_last()) + if core.last().2 {
            core.last().1 as int
        } else {
            0
        }
    }
}

/// Unmatched rows, and rows missing more than half their core fields,
/// need metadata; rows missing none are complete; the rest are partial.
pub open spec fn tier_of(matched: bool, missing: nat, core: nat) -> CompletenessTier {
    if !matched || missing * 2 > core {
        CompletenessTier::NeedsMetadata
    } else if missing == 0 {
        CompletenessTier::Complete
    } else {
        CompletenessTier::Partial
    }
}

/// The integer part of an assessment; the score is
/// `present_weight / total_weight` (1 when the total is 0).
#[derive(Clone, Debug)]
pub struct CompletenessAssessment {
    pub tier: CompletenessTier,
    pub present_weight: u32,
    pub total_weight: u32,
    pub missing_core: Vec<String>,
    pub missing_recommended: Vec<String>,
}

proof fn lemma_weights_bounded(core: Seq<(Seq<char>, u32, bool)>)
    ensures
        0 <= present_weight(core) <= total_weight(core),
        total_weight(core) <= core.len() * 0xffff_ffff,
    decreases core.len(),
{
    if core.len() > 0 {
        lemma_weights_bounded(core.drop_last());
    }
}

/// Assess `core` fields (key, weight, present) and `recommended` fields
/// (key, present) of a row that is or is not matched to a provider.
pub fn assess(matched: bool, core: &Vec<CoreField>, recommended: &Vec<(String, bool)>) -> (r:
    CompletenessAssessment)
    requires
        total_weight(core_view(core@)) <= u32::MAX,
    ensures
        r.total_weight == total_weight(core_view(core@)),
        r.present_weight == present_weight(core_view(core@)),
        string_views(r.missing_core@) == core_missing(core_view(core@)),
        string_views(r.missing_recommended@) == recommended_missing(rec_view(recommended@)),
        r.tier == tier_of(matched, core_missing(core_view(core@)).len(), core@.len()),
{
    let ghost cv = core_view(core@);
    let ghost rv = rec_view(recommended@);
    let mut total: u32 = 0;
    let mut present: u32 = 0;
    let mut missing_core: Vec<String> = Vec::new();
    let mut i: usize = 0;
    assert(cv.take(0) =~= Seq::<(Seq<char>, u32, bool)>::empty());
    while i < core.len()
        invariant
            i <= core@.len(),
            cv == core_view(core@),
            total_weight(cv) <= u32::MAX,
            total == total_weight(cv.take(i as int)),
            present == present_weight(cv.take(i as int)),
            string_views(missing_core@) == core_missing(cv.take(i as int)),
        decreases core@.len() - i,
    {
        let ghost before = string_views(missing_core@);
        assert(cv.take(i + 1).drop_last() =~= cv.take(i as int));
        assert(cv.take(i + 1).last() == cv[i as int]);
        proof {
            lemma_weights_bounded(cv.take(i + 1));
            lemma_total_prefix(cv, i + 1);
        }
        total = total + core[i].1;
        if core[i].2 {
            present = present + core[i].1;
        } else {
            missing_core.push(core[i].0.clone());
            assert(string_views(missing_core@) =~= before.push(cv[i as int].0));
        }
        i = i + 1;
        assert(string_views(missing_core@) =~= core_missing(cv.take(i as int)));
    }
    assert(cv.take(core@.len() as int) =~= cv);
    let mut missing_rec: Vec<String> = Vec::new();
    let mut j: usize = 0;
    assert(rv.take(0) =~= Seq::<(Seq<char>, bool)>::empty());
    while j < recommended.len()
        invariant
            j <= recommended@.len(),
            rv == rec_view(recommended@),
            string_views(missing_rec@) == recommended_missing(rv.take(j as int)),
        decreases recommended@.len() - j,
    {
        let ghost before = string_views(missing_rec@);
        assert(rv.take(j + 1).drop_last() =~= rv.take(j as int));
        assert(rv.take(j + 1).last() == rv[j as int]);
        if !recommended[j].1 {
            missing_rec.push(recommended[j].0.clone());
            assert(string_views(missing_rec@) =~= before.push(rv[j as int].0));
        }
        j = j + 1;
        assert(string_views(missing_rec@) =~= recommended_missing(rv.take(j as int)));
    }
    assert(rv.take(recommended@.len() as int) =~= rv);
    proof {
        lemma_missing_len(cv);
    }
    let tier = if !matched || missing_core.len() > core.len() / 2 {
        CompletenessTier::NeedsMetadata
    } else if missing_core.len() == 0 {
        CompletenessTier::Complete
    } else {
        CompletenessTier::Partial
    };
    CompletenessAssessment {
        tier,
        present_weight: present,
        total_weight: total,
        missing_core,
        missing_recommended: missing_rec,
    }
}

proof fn lemma_total_prefix(core: Seq<(Seq<char>, u32, bool)>, k: int)
    requires
        0 <= k <= core.len(),
    ensures
        total_weight(core.take(k)) <= total_weight(core),
    decreases core.len() - k,
{
    if k < core.len() {
        lemma_total_prefix(core, k + 1);
        assert(core.take(k + 1).drop_last() =~= core.take(k));
    } else {
        assert(core.take(k) =~= core);
    }
}

proof fn lemma_missing_len(core: Seq<(Seq<char>, u32, bool)>)
    ensures
        core_missing(core).len() <= core.len(),
    decreases core.len(),
{
    if core.len() > 0 {
        lemma_missing_len(core.drop_last());
    }
}

fn key_of(f: MetadataField) -> (r: String)
    ensures
        r@ == field_key(f),
{
    f.key()
}

/// The core fields of an issue: external id and cover weigh double; title,
/// characters, story arcs and genres are only recommended.
pub open spec fn issue_core(input: IssueCompletenessInput) -> Seq<(Seq<char>, u32, bool)> {
    seq![
        (EXTERNAL_ID_KEY@, HEAVY_WEIGHT, input.has_external_id),
        (field_key(MetadataField::CoverDate), LIGHT_WEIGHT, input.has_cover_date),
        (field_key(MetadataField::Summary), LIGHT_WEIGHT, input.has_summary),
        (field_key(MetadataField::PageCount), LIGHT_WEIGHT, input.has_page_count),
        (field_key(MetadataField::Credits), LIGHT_WEIGHT, input.has_credits),
        (field_key(MetadataField::CoverPrimary), HEAVY_WEIGHT, input.has_cover),
    ]
}

pub open spec fn core_view(core: Seq<CoreField>) -> Seq<(Seq<char>, u32, bool)> {
    core.map_values(|c: CoreField| (c.0@, c.1, c.2))
}

pub open spec fn rec_view(rec: Seq<(String, bool)>) -> Seq<(Seq<char>, bool)> {
    rec.map_values(|c: (String, bool)| (c.0@, c.1))
}

pub open spec fn issue_recommended(input: IssueCompletenessInput) -> Seq<(Seq<char>, bool)> {
    seq![
        (field_key(MetadataField::Title), input.has_title),
        (field_key(MetadataField::Characters), input.has_characters),
        (field_key(MetadataField::StoryArcs), input.has_story_arcs),
        (field_key(MetadataField::Genres), input.has_genres),
    ]
}

fn issue_core_of(input: &IssueCompletenessInput) -> (r: Vec<CoreField>)
    ensures
        core_view(r@) == issue_core(*input),
        total_weight(core_view(r@)) == 8,
{
    let r: Vec<CoreField> = vec![
        (String::from_str(EXTERNAL_ID_KEY), HEAVY_WEIGHT, input.has_external_id),
        (key_of(MetadataField::CoverDate), LIGHT_WEIGHT, input.has_cover_date),
        (key_of(MetadataField::Summary), LIGHT_WEIGHT, input.has_summary),
        (key_of(MetadataField::PageCount), LIGHT_WEIGHT, input.has_page_count),
        (key_of(MetadataField::Credits), LIGHT_WEIGHT, input.has_credits),
        (key_of(MetadataField::CoverPrimary), HEAVY_WEIGHT, input.has_cover),
    ];
    assert(core_view(r@) =~= issue_core(*input));
    reveal_with_fuel(total_weight, 7);
    r
}

fn issue_recommended_of(input: &IssueCompletenessInput) -> (r: Vec<(String, bool)>)
    ensures
        rec_view(r@) == issue_recommended(*input),
{
    let r: Vec<(String, bool)> = vec![
        (key_of(MetadataField::Title), input.has_title),
        (key_of(MetadataField::Characters), input.has_characters),
        (key_of(MetadataField::StoryArcs), input.has_story_arcs),
        (key_of(MetadataField::Genres), input.has_genres),
    ];
    assert(rec_view(r@) =~= issue_recommended(*input));
    r
}

/// Assess an issue; it counts as matched when it has an external id.
pub fn assess_issue(input: &IssueCompletenessInput) -> (r: CompletenessAssessment)
    ensures
        r.total_weight == total_weight(issue_core(*input)),
        r.present_weight == present_weight(issue_core(*input)),
        string_views(r.missing_core@) == core_missing(issue_core(*input)),
        string_views(r.missing_recommended@) == recommended_missing(issue_recommended(*input)),
        r.tier == tier_of(input.has_external_id, core_missing(issue_core(*input)).len(), 6),
{
    let core = issue_core_of(input);
    let rec = issue_recommended_of(input);
    assess(input.has_external_id, &core, &rec)
}

/// The core fields of a series: the external id weighs double; genres are
/// only recommended.
pub open spec fn series_core(input: SeriesCompletenessInput) -> Seq<(Seq<char>, u32, bool)> {
    seq![
        (EXTERNAL_ID_KEY@, HEAVY_WEIGHT, input.has_external_id),
        (field_key(MetadataField::Summary), LIGHT_WEIGHT, input.has_summary),
        (field_key(MetadataField::Publisher), LIGHT_WEIGHT, input.has_publisher),
        (field_key(MetadataField::Status), LIGHT_WEIGHT, input.has_status),
        (field_key(MetadataField::YearBegan), LIGHT_WEIGHT, input.has_year_began),
        ("total_issues"@, LIGHT_WEIGHT, input.has_total_issues),
    ]
}

pub open spec fn series_recommended(input: SeriesCompletenessInput) -> Seq<(Seq<char>, bool)> {
    seq![(field_key(MetadataField::Genres), input.has_genres)]
}

/// Assess a series; it counts as matched when it has an external id.
pub fn assess_series(input: &SeriesCompletenessInput) -> (r: CompletenessAssessment)
    ensures
        r.total_weight == total_weight(series_core(*input)),
        r.present_weight == present_weight(series_core(*input)),
        string_views(r.missing_core@) == core_missing(series_core(*input)),
        string_views(r.missing_recommended@) == recommended_missing(series_recommended(*input)),
        r.tier == tier_of(input.has_external_id, core_missing(series_core(*input)).len(), 6),
{
    let core: Vec<CoreField> = vec![
        (String::from_str(EXTERNAL_ID_KEY), HEAVY_WEIGHT, input.has_external_id),
        (key_of(MetadataField::Summary), LIGHT_WEIGHT, input.has_summary),
        (key_of(MetadataField::Publisher), LIGHT_WEIGHT, input.has_publisher),
        (key_of(MetadataField::Status), LIGHT_WEIGHT, input.has_status),
        (key_of(MetadataField::YearBegan), LIGHT_WEIGHT, input.has_year_began),
        (String::from_str("total_issues"), LIGHT_WEIGHT, input.has_total_issues),
    ];
    assert(core_view(core@) =~= series_core(*input));
    assert(total_weight(core_view(core@)) == 7) by {
        reveal_with_fuel(total_weight, 7);
    }
    let rec: Vec<(String, bool)> = vec![(key_of(MetadataField::Genres), input.has_genres)];
    assert(rec_view(rec@) =~= series_recommended(*input));
    assess(input.has_external_id, &core, &rec)
}

// ───────── laws ─────────

/// Every core field is present.
pub open spec fn all_present(core: Seq<(Seq<char>, u32, bool)>) -> bool {
    forall|i: int| 0 <= i < core.len() ==> (#[trigger] core[i]).2
}

proof fn lemma_core_missing_members(core: Seq<(Seq<char>, u32, bool)>)
    ensures
        core_missing(core).len() <= core.len(),
        (core_missing(core).len() == 0) == all_present(core),
        forall|k: Seq<char>|
            core_missing(core).contains(k) <==> exists|i: int|
                0 <= i < core.len() && !(#[trigger] core[i]).2 && core[i].0 == k,
        all_present(core) ==> present_weight(core) == total_weight(core),
        0 <= present_weight(core) <= total_weight(core),
    decreases core.len(),
{
    if core.len() > 0 {
        let init = core.drop_last();
        lemma_core_missing_members(init);
        let last = core.last();
        let tail = if last.2 {
            Seq::<Seq<char>>::empty()
        } else {
            seq![last.0]
        };
        assert(core_missing(core) == core_missing(init) + tail);
        assert forall|k: Seq<char>|
            core_missing(core).contains(k) <==> exists|i: int|
                0 <= i < core.len() && !(#[trigger] core[i]).2 && core[i].0 == k by {
            if core_missing(core).contains(k) {
                let j = choose|j: int| 0 <= j < core_missing(core).len() && core_missing(core)[j] == k;
                if j < core_missing(init).len() {
                    assert(core_missing(init)[j] == k);
                    assert(core_missing(init).contains(k));
                    let i = choose|i: int| 0 <= i < init.len() && !(#[trigger] init[i]).2 && init[i].0 == k;
                    assert(core[i] == init[i]);
                } else {
                    assert(core[core.len() - 1] == last);
                }
            }
            if exists|i: int| 0 <= i < core.len() && !(#[trigger] core[i]).2 && core[i].0 == k {
                let i = choose|i: int| 0 <= i < core.len() && !(#[trigger] core[i]).2 && core[i].0 == k;
                if i < init.len() {
                    assert(init[i] == core[i]);
                    assert(core_missing(init).contains(k));
                    let j = choose|j: int| 0 <= j < core_missing(init).len() && core_missing(init)[j] == k;
                    assert(core_missing(core)[j] == k);
                } else {
                    assert(core_missing(core)[core_missing(init).len() as int] == k);
                }
            }
        }
        if all_present(core) {
            assert forall|i: int| 0 <= i < init.len() implies (#[trigger] init[i]).2 by {
                assert(init[i] == core[i]);
            }
            assert(core[core.len() - 1].2);
        }
        if all_present(init) && last.2 {
            assert forall|i: int| 0 <= i < core.len() implies (#[trigger] core[i]).2 by {
                if i < init.len() {
                    assert(init[i] == core[i]);
                }
            }
        }
        if !all_present(init) {
            let i = choose|i: int| 0 <= i < init.len() && !(#[trigger] init[i]).2;
            assert(core[i] == init[i]);
        }
        if !last.2 {
            assert(!core[core.len() - 1].2);
        }
    }
}

/// The assessment of core fields: the missing list names exactly the
/// absent fields and is empty exactly when every core field is present;
/// the present weight never exceeds the total and equals it when nothing
/// is missing; a row is complete exactly when it is matched and every
/// core field is present, and needs metadata exactly when it is unmatched
/// or more core fields are missing than present.
pub proof fn lemma_assessment_laws(matched: bool, core: Seq<(Seq<char>, u32, bool)>)
    ensures
        forall|k: Seq<char>|
            core_missing(core).contains(k) <==> exists|i: int|
                0 <= i < core.len() && !(#[trigger] core[i]).2 && core[i].0 == k,
        0 <= present_weight(core) <= total_weight(core),
        all_present(core) ==> present_weight(core) == total_weight(core),
        (tier_of(matched, core_missing(core).len(), core.len()) == CompletenessTier::Complete) == (
        matched && all_present(core)),
        (tier_of(matched, core_missing(core).len(), core.len()) == CompletenessTier::NeedsMetadata)
            == (!matched || core_missing(core).len() > core.len() - core_missing(core).len()),
        tier_of(matched, core_missing(core).len(), core.len()) != CompletenessTier::Accepted,
{
    lemma_core_missing_members(core);
}

/// An issue is complete exactly when it has an external id, a cover date,
/// a summary, a page count, a credit and a cover (its title, characters,
/// story arcs and genres do not gate the tier); the external id and the
/// cover weigh two, every other core field one.
pub proof fn lemma_issue_assessment(input: IssueCompletenessInput)
    ensures
        total_weight(issue_core(input)) == 8,
        present_weight(issue_core(input)) == (if input.has_external_id { 2int } else { 0 }) + (
        if input.has_cover_date { 1int } else { 0 }) + (if input.has_summary { 1int } else { 0 })
            + (if input.has_page_count { 1int } else { 0 }) + (if input.has_credits { 1int } else {
            0
        }) + (if input.has_cover { 2int } else { 0 }),
        (tier_of(input.has_external_id, core_missing(issue_core(input)).len(), 6)
            == CompletenessTier::Complete) == (input.has_external_id && input.has_cover_date
            && input.has_summary && input.has_page_count && input.has_credits && input.has_cover),
        !input.has_external_id ==> tier_of(
            input.has_external_id,
            core_missing(issue_core(input)).len(),
            6,
        ) == CompletenessTier::NeedsMetadata,
{
    let core = issue_core(input);
    lemma_core_missing_members(core);
    reveal_with_fuel(total_weight, 7);
    reveal_with_fuel(present_weight, 7);
    if input.has_external_id && input.has_cover_date && input.has_summary && input.has_page_count
        && input.has_credits && input.has_cover {
        assert(all_present(core)) by {
            assert forall|i: int| 0 <= i < core.len() implies (#[trigger] core[i]).2 by {
            }
        }
    }
}

/// A series is complete exactly when it has an external id, a summary, a
/// publisher, a status, a start year and an issue total (its genres do
/// not gate the tier); the external id weighs two, every other core field
/// one.
pub proof fn lemma_series_assessment(input: SeriesCompletenessInput)
    ensures
        total_weight(series_core(input)) == 7,
        present_weight(series_core(input)) == (if input.has_external_id { 2int } else { 0 }) + (
        if input.has_summary { 1int } else { 0 }) + (if input.has_publisher { 1int } else { 0 })
            + (if input.has_status { 1int } else { 0 }) + (if input.has_year_began { 1int } else {
            0
        }) + (if input.has_total_issues { 1int } else { 0 }),
        (tier_of(input.has_external_id, core_missing(series_core(input)).len(), 6)
            == CompletenessTier::Complete) == (input.has_external_id && input.has_summary
            && input.has_publisher && input.has_status && input.has_year_began
            && input.has_total_issues),
{
    let core = series_core(input);
    lemma_core_missing_members(core);
    reveal_with_fuel(total_weight, 7);
    reveal_with_fuel(present_weight, 7);
    if input.has_external_id && input.has_summary && input.has_publisher && input.has_status
        && input.has_year_began && input.has_total_issues {
        assert(all_present(core)) by {
            assert forall|i: int| 0 <= i < core.len() implies (#[trigger] core[i]).2 by {
            }
        }
    }
}

} // verus!

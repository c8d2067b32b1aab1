//! The preview of an apply: per field, the current and the proposed
//! value and what Apply would do, plus the external ids that would be
//! added or that clash with a user-set id.
use vstd::prelude::*;
use vstd::string::*;
use crate::field::{MetadataField, field_key};
use crate::identifier::{Identifier, Source, source_key};
use crate::apply::{
    ApplyArgs, ApplyMode, ProvenanceMap, DiffDecision, classify_spec, classify_field, user_pinned,
    diff_decision_key, SeriesRow, IssueRow, row_has_cover_date, apply_decision, changes,
    key_selected, series_steps, step_applies, lemma_preview_matches_apply, issue_steps,
};
use crate::provider::{
    GenericMetadata, canonical_role, canonicalize_role, CalendarDate, CreditCandidate,
    VariantCoverCandidate, valid_ymd, date_exists,
};
use crate::text::{
    first_match, find_key, clone_opt_string, opt_view, opt_str_view, trim, blank, chars_of,
    str_eq, u64_digits, dec_seq, string_of, concat2, i64_text, int_text, has_text, text_present,
    eq_lit, digit_char, filled,
};
use crate::writers::string_views;
use crate::comicvine::pieces;

verus! {

/// One row of the preview table.
#[derive(Clone, Debug)]
pub struct ScalarDiffRow {
    /// The field's key, echoed back in the apply's selection.
    pub field: String,
    pub label: String,
    pub current_value: Option<String>,
    pub proposed_value: Option<String>,
    /// The [`DiffDecision`] key.
    pub decision: String,
    /// Who set the current value, when a provenance row exists.
    pub current_set_by: Option<String>,
    /// When the current value was set (RFC 3339), when known.
    pub current_set_at: Option<String>,
}

/// A candidate id that differs from a user-set id of the same source.
#[derive(Clone, Debug)]
pub struct ExternalIdConflictRow {
    pub source: String,
    pub current_external_id: String,
    pub proposed_external_id: String,
}

/// A candidate id for a source the entity has no id from.
#[derive(Clone, Debug)]
pub struct ExternalIdNewRow {
    pub source: String,
    pub external_id: String,
}

/// The whole preview.
#[derive(Clone, Debug)]
pub struct DiffResp {
    pub run_id: u128,
    pub ordinal: i32,
    pub scope: String,
    pub source: String,
    pub source_external_id: String,
    pub rows: Vec<ScalarDiffRow>,
    pub external_id_conflicts: Vec<ExternalIdConflictRow>,
    pub external_ids_new: Vec<ExternalIdNewRow>,
    /// Rows whose decision would write a value (would fill or would
    /// replace).
    pub changes_count: usize,
}

/// Who set a field and when (RFC 3339).
#[derive(Clone, Debug)]
pub struct ProvenanceDetail {
    pub set_by: String,
    pub set_at: String,
}

/// Field key to its provenance row; earlier entries shadow later ones.
pub type ProvenanceRows = Vec<(String, ProvenanceDetail)>;

pub open spec fn set_by_shown(full: Seq<(String, ProvenanceDetail)>, key: Seq<char>) -> Option<
    Seq<char>,
> {
    match first_match(full, key) {
        Some(p) => Some(p.set_by@),
        None => None,
    }
}

pub open spec fn set_at_shown(full: Seq<(String, ProvenanceDetail)>, key: Seq<char>) -> Option<
    Seq<char>,
> {
    match first_match(full, key) {
        Some(p) => Some(p.set_at@),
        None => None,
    }
}

pub(crate) fn provenance_columns(full: &ProvenanceRows, key: &str) -> (r: (Option<String>, Option<String>))
    ensures
        opt_view(r.0) == set_by_shown(full@, key@),
        opt_view(r.1) == set_at_shown(full@, key@),
{
    match find_key(full, key) {
        Some(i) => (Some(full[i].1.set_by.clone()), Some(full[i].1.set_at.clone())),
        None => (None, None),
    }
}

// ───────── scalar rows ─────────

/// One scalar field to preview: field, label, current and proposed text.
#[derive(Clone, Debug)]
pub struct DiffInput {
    pub field: MetadataField,
    pub label: &'static str,
    pub current: Option<String>,
    pub incoming: Option<String>,
}

/// The row a scalar field is shown as.
pub open spec fn scalar_row_is(
    row: ScalarDiffRow,
    inp: DiffInput,
    prov: ProvenanceMap,
    full: Seq<(String, ProvenanceDetail)>,
    args: ApplyArgs,
) -> bool {
    let key = field_key(inp.field);
    &&& row.field@ == key
    &&& row.label@ == inp.label@
    &&& opt_view(row.current_value) == opt_view(inp.current)
    &&& opt_view(row.proposed_value) == opt_view(inp.incoming)
    &&& row.decision@ == diff_decision_key(
        classify_spec(opt_view(inp.current), opt_view(inp.incoming), prov, inp.field, args),
    )
    &&& opt_view(row.current_set_by) == set_by_shown(full, key)
    &&& opt_view(row.current_set_at) == set_at_shown(full, key)
}

pub(crate) fn opt_as_str(v: &Option<String>) -> (r: Option<&str>)
    ensures
        opt_str_view(r) == opt_view(*v),
{
    match v {
        Some(s) => Some(s.as_str()),
        None => None,
    }
}

/// Append the preview row of one scalar field.
pub fn push_scalar(
    rows: &mut Vec<ScalarDiffRow>,
    inp: &DiffInput,
    provenance: &ProvenanceMap,
    provenance_full: &ProvenanceRows,
    args: &ApplyArgs,
)
    ensures
        final(rows)@.len() == old(rows)@.len() + 1,
        final(rows)@.drop_last() == old(rows)@,
        scalar_row_is(final(rows)@.last(), *inp, *provenance, provenance_full@, *args),
{
    let decision = classify_field(
        opt_as_str(&inp.current),
        opt_as_str(&inp.incoming),
        provenance,
        inp.field,
        args,
    );
    let key = inp.field.key();
    let (set_by, set_at) = provenance_columns(provenance_full, key.as_str());
    let ghost before = rows@;
    rows.push(
        ScalarDiffRow {
            field: key,
            label: String::from_str(inp.label),
            current_value: clone_opt_string(&inp.current),
            proposed_value: clone_opt_string(&inp.incoming),
            decision: String::from_str(decision.as_str()),
            current_set_by: set_by,
            current_set_at: set_at,
        },
    );
    assert(rows@.drop_last() =~= before);
}

/// The preview rows of scalar fields, in order.
pub fn scalar_rows(
    inputs: &Vec<DiffInput>,
    provenance: &ProvenanceMap,
    provenance_full: &ProvenanceRows,
    args: &ApplyArgs,
) -> (r: Vec<ScalarDiffRow>)
    ensures
        r@.len() == inputs@.len(),
        forall|i: int|
            0 <= i < inputs@.len() ==> #[trigger] scalar_row_is(
                r@[i],
                inputs@[i],
                *provenance,
                provenance_full@,
                *args,
            ),
{
    let mut rows: Vec<ScalarDiffRow> = Vec::new();
    let mut i: usize = 0;
    while i < inputs.len()
        invariant
            i <= inputs@.len(),
            rows@.len() == i,
            forall|j: int|
                0 <= j < i ==> #[trigger] scalar_row_is(
                    rows@[j],
                    inputs@[j],
                    *provenance,
                    provenance_full@,
                    *args,
                ),
        decreases inputs@.len() - i,
    {
        let ghost before = rows@;
        push_scalar(&mut rows, &inputs[i], provenance, provenance_full, args);
        assert forall|j: int| 0 <= j < i + 1 implies #[trigger] scalar_row_is(
            rows@[j],
            inputs@[j],
            *provenance,
            provenance_full@,
            *args,
        ) by {
            if j < i {
                assert(rows@.drop_last()[j] == rows@[j]);
                assert(rows@[j] == before[j]);
            } else {
                assert(rows@[j] == rows@.last());
            }
        }
        i = i + 1;
    }
    rows
}

pub(crate) fn int_opt_text(v: Option<i32>) -> (r: Option<String>)
    ensures
        opt_view(r) == int_opt_view(v),
{
    match v {
        Some(n) => Some(i64_text(n as i64)),
        None => None,
    }
}

pub open spec fn int_opt_view(v: Option<i32>) -> Option<Seq<char>> {
    match v {
        Some(n) => Some(int_text(n as int)),
        None => None,
    }
}

/// The series fields the preview shows, with their labels, current and
/// proposed values.
pub open spec fn series_diff_input(row: SeriesRow, d: GenericMetadata, i: int) -> (
    MetadataField,
    Seq<char>,
    Option<Seq<char>>,
    Option<Seq<char>>,
) {
    if i == 0 {
        (MetadataField::Title, "Title"@, Some(row.name@), opt_view(d.series_name))
    } else if i == 1 {
        (MetadataField::SortName, "Sort name"@, opt_view(row.sort_name), opt_view(d.series_sort_name))
    } else if i == 2 {
        (MetadataField::SeriesType, "Series type"@, opt_view(row.series_type), opt_view(d.series_type))
    } else if i == 3 {
        (MetadataField::YearBegan, "Year began"@, int_opt_view(row.year), int_opt_view(d.year_began))
    } else if i == 4 {
        (MetadataField::YearEnd, "Year ended"@, int_opt_view(row.year_end), int_opt_view(d.year_end))
    } else if i == 5 {
        (MetadataField::Volume, "Volume"@, int_opt_view(row.volume), int_opt_view(d.volume))
    } else if i == 6 {
        (MetadataField::Publisher, "Publisher"@, opt_view(row.publisher), opt_view(d.publisher))
    } else if i == 7 {
        (MetadataField::Imprint, "Imprint"@, opt_view(row.imprint), opt_view(d.imprint))
    } else if i == 8 {
        (MetadataField::Deck, "Deck"@, opt_view(row.deck), opt_view(d.deck))
    } else {
        (MetadataField::Description, "Description"@, opt_view(row.summary), opt_view(d.description))
    }
}

pub open spec fn input_view(inp: DiffInput) -> (
    MetadataField,
    Seq<char>,
    Option<Seq<char>>,
    Option<Seq<char>>,
) {
    (inp.field, inp.label@, opt_view(inp.current), opt_view(inp.incoming))
}

fn push_input(
    v: &mut Vec<DiffInput>,
    field: MetadataField,
    label: &'static str,
    current: Option<String>,
    incoming: Option<String>,
)
    ensures
        final(v)@ == old(v)@.push(DiffInput { field, label, current, incoming }),
{
    v.push(DiffInput { field, label, current, incoming });
}

proof fn lemma_int_text_filled(n: int)
    ensures
        filled(Some(int_text(n))),
{
    let m: nat = if n < 0 { (-n) as nat } else { n as nat };
    let t = int_text(n);
    let d = dec_seq(m);
    assert(d.len() > 0 && '0' <= d.last() && d.last() <= '9') by {
        if m >= 10 {
            assert(d.last() == digit_char(m % 10));
        }
    }
    assert(t.last() == d.last()) by {
        if n < 0 {
            assert(t == seq!['-'] + d);
        }
    }
    assert(!crate::text::is_ws(t[t.len() - 1]));
}

/// The series preview predicts the series apply: each preview row is the
/// apply step of the same field, its current value is present exactly
/// when the apply step finds the local column filled and its proposed
/// value exactly when the provider offers one; so for a selected field a
/// row that shows a change is one the apply writes, and a field the apply
/// writes is shown as a change or as no change.
pub proof fn lemma_series_preview_predicts_apply(
    row: SeriesRow,
    d: GenericMetadata,
    prov: ProvenanceMap,
    args: ApplyArgs,
    i: int,
)
    requires
        0 <= i < 10,
    ensures
        ({
            let inp = series_diff_input(row, d, i);
            let st = series_steps(row, d)[i];
            let dd = classify_spec(inp.2, inp.3, prov, inp.0, args);
            &&& inp.0 == st.0
            &&& filled(inp.2) == st.2
            &&& filled(inp.3) == st.1
            &&& (key_selected(args, field_key(inp.0)) && changes(dd)) ==> step_applies(st, prov, args)
            &&& (key_selected(args, field_key(inp.0)) && step_applies(st, prov, args)) ==> (changes(dd)
                || dd == DiffDecision::NoChange)
        }),
{
    let inp = series_diff_input(row, d, i);
    if i == 3 || i == 4 || i == 5 {
        if let Some(n) = (if i == 3 { row.year } else if i == 4 { row.year_end } else { row.volume }) {
            lemma_int_text_filled(n as int);
        }
        if let Some(n) = (if i == 3 { d.year_began } else if i == 4 { d.year_end } else { d.volume }) {
            lemma_int_text_filled(n as int);
        }
    }
    if key_selected(args, field_key(inp.0)) && filled(inp.3) {
        lemma_preview_matches_apply(inp.2, inp.3, prov, inp.0, args);
    }
}

/// The scalar inputs of a series preview, in display order.
pub fn series_diff_inputs(row: &SeriesRow, detail: &GenericMetadata) -> (r: Vec<DiffInput>)
    ensures
        r@.len() == 10,
        forall|i: int| 0 <= i < 10 ==> #[trigger] input_view(r@[i]) == series_diff_input(*row, *detail, i),
{
    let mut v: Vec<DiffInput> = Vec::new();
    push_input(&mut v, MetadataField::Title, "Title", Some(row.name.clone()), clone_opt_string(&detail.series_name));
    push_input(&mut v, MetadataField::SortName, "Sort name", clone_opt_string(&row.sort_name), clone_opt_string(&detail.series_sort_name));
    push_input(&mut v, MetadataField::SeriesType, "Series type", clone_opt_string(&row.series_type), clone_opt_string(&detail.series_type));
    push_input(&mut v, MetadataField::YearBegan, "Year began", int_opt_text(row.year), int_opt_text(detail.year_began));
    push_input(&mut v, MetadataField::YearEnd, "Year ended", int_opt_text(row.year_end), int_opt_text(detail.year_end));
    push_input(&mut v, MetadataField::Volume, "Volume", int_opt_text(row.volume), int_opt_text(detail.volume));
    push_input(&mut v, MetadataField::Publisher, "Publisher", clone_opt_string(&row.publisher), clone_opt_string(&detail.publisher));
    push_input(&mut v, MetadataField::Imprint, "Imprint", clone_opt_string(&row.imprint), clone_opt_string(&detail.imprint));
    push_input(&mut v, MetadataField::Deck, "Deck", clone_opt_string(&row.deck), clone_opt_string(&detail.deck));
    push_input(&mut v, MetadataField::Description, "Description", clone_opt_string(&row.summary), clone_opt_string(&detail.description));
    assert forall|i: int| 0 <= i < 10 implies #[trigger] input_view(v@[i]) == series_diff_input(*row, *detail, i) by {
        if i == 0 {} else if i == 1 {} else if i == 2 {} else if i == 3 {} else if i == 4 {}
        else if i == 5 {} else if i == 6 {} else if i == 7 {} else if i == 8 {} else {}
    }
    v
}

// ───────── count rows ─────────

/// "none", "1 item" or "N items".
pub open spec fn count_text(n: nat) -> Seq<char> {
    if n == 0 {
        "none"@
    } else if n == 1 {
        "1 item"@
    } else {
        dec_seq(n) + " items"@
    }
}

pub fn format_count(n: usize) -> (r: String)
    ensures
        r@ == count_text(n as nat),
{
    if n == 0 {
        String::from_str("none")
    } else if n == 1 {
        String::from_str("1 item")
    } else {
        let d = string_of(&u64_digits(n as u64));
        concat2(d.as_str(), " items")
    }
}

/// The entries of a comma-separated list that are not blank.
pub open spec fn csv_entries(ps: Seq<Seq<char>>) -> nat
    decreases ps.len(),
{
    if ps.len() == 0 {
        0
    } else {
        (if blank(ps.last()) {
            0nat
        } else {
            1nat
        }) + csv_entries(ps.drop_last())
    }
}

pub open spec fn csv_count(csv: Option<Seq<char>>) -> nat {
    match csv {
        Some(s) => csv_entries(pieces(s, ',', Seq::empty())),
        None => 0,
    }
}

proof fn lemma_pieces_split(s: Seq<char>, cur: Seq<char>, i: int)
    requires
        0 <= i <= s.len(),
    ensures
        pieces(s, ',', cur).len() <= s.len() + 1,
    decreases s.len(),
{
    if s.len() > 0 {
        if s[0] == ',' {
            lemma_pieces_split(s.drop_first(), Seq::empty(), 0);
        } else {
            lemma_pieces_split(s.drop_first(), cur.push(s[0]), 0);
        }
    }
}

proof fn lemma_csv_entries_bound(ps: Seq<Seq<char>>)
    ensures
        csv_entries(ps) <= ps.len(),
    decreases ps.len(),
{
    if ps.len() > 0 {
        lemma_csv_entries_bound(ps.drop_last());
    }
}

/// A stored list without a comma holds one entry when it is not blank and
/// none when it is; an absent list holds none.
pub proof fn lemma_csv_count_single(s: Seq<char>)
    requires
        !s.contains(','),
    ensures
        csv_count(Some(s)) == (if blank(s) { 0nat } else { 1nat }),
        csv_count(None) == 0,
{
    let ps = pieces(s, ',', Seq::empty());
    crate::comicvine::lemma_pieces_join(s, ',', Seq::empty());
    assert(Seq::<char>::empty() + s =~= s);
    if ps.len() >= 2 {
        let j = crate::comicvine::join_with(ps, ',');
        assert(j == ps[0] + seq![','] + crate::comicvine::join_with(ps.drop_first(), ','));
        assert(j[ps[0].len() as int] == ',');
        assert(s.contains(','));
    }
    assert(ps.len() == 1);
    assert(ps[0] == s);
    assert(csv_entries(ps.drop_last()) == 0);
    assert(ps.last() == s);
}

/// Count the comma-separated entries of a text column that are not
/// blank; absent is none.
pub fn count_csv(csv: Option<&str>) -> (r: usize)
    ensures
        r == csv_count(opt_str_view(csv)),
{
    match csv {
        None => 0,
        Some(s) => {
            let v = chars_of(s);
            let ghost all = pieces(v@, ',', Seq::empty());
            let mut n: usize = 0;
            let mut cur: Vec<char> = Vec::new();
            let mut i: usize = 0;
            let ghost done: Seq<Seq<char>> = Seq::empty();
            assert(v@.skip(0) =~= v@);
            assert(done + pieces(v@.skip(0), ',', cur@) =~= all);
            while i < v.len()
                invariant
                    i <= v@.len(),
                    v@ == s@,
                    all == pieces(v@, ',', Seq::empty()),
                    done + pieces(v@.skip(i as int), ',', cur@) == all,
                    n == csv_entries(done),
                    n <= done.len(),
                    done.len() + cur@.len() <= i,
                decreases v@.len() - i,
            {
                assert(v@.skip(i as int)[0] == v@[i as int]);
                assert(v@.skip(i as int).drop_first() =~= v@.skip(i + 1));
                if v[i] == ',' {
                    let b = crate::text::is_blank(&cur);
                    proof {
                        assert((done + seq![cur@]).drop_last() =~= done);
                        assert(done + seq![cur@] + pieces(v@.skip(i + 1), ',', Seq::empty())
                            =~= done + pieces(v@.skip(i as int), ',', cur@));
                        done = done + seq![cur@];
                    }
                    if !b {
                        n = n + 1;
                    }
                    cur = Vec::new();
                } else {
                    cur.push(v[i]);
                }
                i = i + 1;
            }
            assert(v@.skip(i as int) =~= Seq::<char>::empty());
            let b = crate::text::is_blank(&cur);
            proof {
                assert((done + seq![cur@]).drop_last() =~= done);
                assert(done + seq![cur@] =~= all);
                if !b {
                    assert(cur@.len() > 0);
                }
            }
            if !b {
                n = n + 1;
            }
            n
        },
    }
}

/// The decision of a count-shaped row (junction sets, variant covers):
/// as for scalars, with equal counts standing for "no change".
pub open spec fn count_decision(
    current: nat,
    incoming: nat,
    prov: ProvenanceMap,
    f: MetadataField,
    args: ApplyArgs,
) -> DiffDecision {
    if incoming == 0 {
        DiffDecision::NoIncomingValue
    } else if user_pinned(prov, f) && !args.override_user_edits {
        DiffDecision::BlockedByUser
    } else if current == 0 {
        DiffDecision::WouldFill
    } else if current == incoming {
        DiffDecision::NoChange
    } else if args.mode == ApplyMode::ReplaceAll {
        DiffDecision::WouldReplace
    } else {
        DiffDecision::SkippedFillMissingHasValue
    }
}

/// A count row predicts what an apply of the selected field does: with no
/// incoming items there is nothing to write; an unoverridden user pin
/// blocks; equal counts are no change; and for a different non-zero count
/// the row reports a change exactly when the apply matrix writes the
/// field, as a fill when the local set is empty and as a replacement when
/// it is not.
pub proof fn lemma_count_decision_matches_apply(
    current: nat,
    incoming: nat,
    prov: ProvenanceMap,
    f: MetadataField,
    args: ApplyArgs,
)
    requires
        key_selected(args, field_key(f)),
    ensures
        ({
            let dd = count_decision(current, incoming, prov, f, args);
            &&& (dd is NoIncomingValue) == (incoming == 0)
            &&& (dd is BlockedByUser) == (incoming > 0 && user_pinned(prov, f)
                && !args.override_user_edits)
            &&& (incoming > 0 && current != incoming) ==> (changes(dd) == apply_decision(
                current > 0,
                prov,
                f,
                args,
            ))
            &&& (incoming > 0 && current != incoming && changes(dd)) ==> ((dd is WouldFill) == (
            current == 0))
            &&& (incoming > 0 && current == incoming && !(user_pinned(prov, f)
                && !args.override_user_edits)) ==> dd is NoChange
        }),
{
}

/// One count-shaped field to preview.
#[derive(Clone, Copy, Debug)]
pub struct CountInput {
    pub field: MetadataField,
    pub label: &'static str,
    pub current: usize,
    pub incoming: usize,
}

pub open spec fn count_row_is(
    row: ScalarDiffRow,
    inp: CountInput,
    prov: ProvenanceMap,
    full: Seq<(String, ProvenanceDetail)>,
    args: ApplyArgs,
) -> bool {
    let key = field_key(inp.field);
    &&& row.field@ == key
    &&& row.label@ == inp.label@
    &&& opt_view(row.current_value) == Some(count_text(inp.current as nat))
    &&& opt_view(row.proposed_value) == Some(count_text(inp.incoming as nat))
    &&& row.decision@ == diff_decision_key(
        count_decision(inp.current as nat, inp.incoming as nat, prov, inp.field, args),
    )
    &&& opt_view(row.current_set_by) == set_by_shown(full, key)
    &&& opt_view(row.current_set_at) == set_at_shown(full, key)
}

/// Append the preview row of one count-shaped field.
pub fn push_count_row(
    rows: &mut Vec<ScalarDiffRow>,
    inp: &CountInput,
    provenance: &ProvenanceMap,
    provenance_full: &ProvenanceRows,
    args: &ApplyArgs,
)
    ensures
        final(rows)@.len() == old(rows)@.len() + 1,
        final(rows)@.drop_last() == old(rows)@,
        count_row_is(final(rows)@.last(), *inp, *provenance, provenance_full@, *args),
{
    let key = inp.field.key();
    let user_set = match provenance.get(key.as_str()) {
        Some(v) => str_eq(v.as_str(), "user"),
        None => false,
    };
    let decision = if inp.incoming == 0 {
        DiffDecision::NoIncomingValue
    } else if user_set && !args.override_user_edits {
        DiffDecision::BlockedByUser
    } else if inp.current == 0 {
        DiffDecision::WouldFill
    } else if inp.current == inp.incoming {
        DiffDecision::NoChange
    } else {
        match args.mode {
            ApplyMode::ReplaceAll => DiffDecision::WouldReplace,
            ApplyMode::FillMissing => DiffDecision::SkippedFillMissingHasValue,
        }
    };
    let (set_by, set_at) = provenance_columns(provenance_full, key.as_str());
    let ghost before = rows@;
    rows.push(
        ScalarDiffRow {
            field: key,
            label: String::from_str(inp.label),
            current_value: Some(format_count(inp.current)),
            proposed_value: Some(format_count(inp.incoming)),
            decision: String::from_str(decision.as_str()),
            current_set_by: set_by,
            current_set_at: set_at,
        },
    );
    assert(rows@.drop_last() =~= before);
}

/// Rows that would write.
pub open spec fn changes_in(rows: Seq<ScalarDiffRow>) -> nat
    decreases rows.len(),
{
    if rows.len() == 0 {
        0
    } else {
        changes_in(rows.drop_last()) + if rows.last().decision@ == "would_fill"@
            || rows.last().decision@ == "would_replace"@ {
            1nat
        } else {
            0nat
        }
    }
}

proof fn lemma_changes_bound(rows: Seq<ScalarDiffRow>)
    ensures
        changes_in(rows) <= rows.len(),
    decreases rows.len(),
{
    if rows.len() > 0 {
        lemma_changes_bound(rows.drop_last());
    }
}

/// The preview's change count: the rows whose decision would write a
/// value (would fill or would replace).
pub fn changes_count(rows: &Vec<ScalarDiffRow>) -> (r: usize)
    ensures
        r == changes_in(rows@),
{
    let mut n: usize = 0;
    let mut i: usize = 0;
    assert(rows@.take(0) =~= Seq::<ScalarDiffRow>::empty());
    while i < rows.len()
        invariant
            i <= rows@.len(),
            n == changes_in(rows@.take(i as int)),
            n <= i,
        decreases rows@.len() - i,
    {
        assert(rows@.take(i + 1).drop_last() =~= rows@.take(i as int));
        assert(rows@.take(i + 1).last() == rows@[i as int]);
        let d = rows[i].decision.as_str();
        if str_eq(d, "would_fill") || str_eq(d, "would_replace") {
            n = n + 1;
        }
        i = i + 1;
    }
    assert(rows@.take(rows@.len() as int) =~= rows@);
    n
}

// ───────── external ids ─────────

/// An external id the entity already has, with who set it.
#[derive(Clone, Debug)]
pub struct ExistingExternalId {
    pub source: String,
    pub external_id: String,
    pub set_by: String,
}

/// The existing id of a source: the last row for it.
pub open spec fn existing_for(rows: Seq<ExistingExternalId>, src: Seq<char>) -> Option<
    ExistingExternalId,
>
    decreases rows.len(),
{
    if rows.len() == 0 {
        None
    } else if rows.last().source@ == src {
        Some(rows.last())
    } else {
        existing_for(rows.drop_last(), src)
    }
}

fn find_existing(rows: &Vec<ExistingExternalId>, src: &str) -> (r: Option<usize>)
    ensures
        match r {
            Some(i) => i < rows@.len() && existing_for(rows@, src@) == Some(rows@[i as int]),
            None => existing_for(rows@, src@) is None,
        },
{
    let mut i: usize = rows.len();
    assert(rows@.take(i as int) =~= rows@);
    while i > 0
        invariant
            i <= rows@.len(),
            existing_for(rows@, src@) == existing_for(rows@.take(i as int), src@),
        decreases i,
    {
        assert(rows@.take(i as int).drop_last() =~= rows@.take(i - 1));
        assert(rows@.take(i as int).last() == rows@[i - 1]);
        if str_eq(rows[i - 1].source.as_str(), src) {
            return Some(i - 1);
        }
        i = i - 1;
    }
    None
}

/// The incoming ids, each source at its first occurrence only.
pub open spec fn first_per_source(ids: Seq<Identifier>) -> Seq<Identifier>
    decreases ids.len(),
{
    if ids.len() == 0 {
        Seq::empty()
    } else {
        let rest = first_per_source(ids.drop_last());
        let id = ids.last();
        rest + if (exists|j: int| 0 <= j < ids.len() - 1 && ids[j].source == id.source) {
            Seq::empty()
        } else {
            seq![id]
        }
    }
}

/// Conflict: a user-set id of the same source that differs.
pub open spec fn is_conflict(existing: Seq<ExistingExternalId>, id: Identifier) -> bool {
    match existing_for(existing, source_key(id.source)) {
        Some(e) => e.external_id@ != id.id@ && e.set_by@ == "user"@,
        None => false,
    }
}

/// New: no id of that source yet.
pub open spec fn is_new(existing: Seq<ExistingExternalId>, id: Identifier) -> bool {
    existing_for(existing, source_key(id.source)) is None
}

pub open spec fn conflict_ids(existing: Seq<ExistingExternalId>, ids: Seq<Identifier>) -> Seq<
    Identifier,
>
    decreases ids.len(),
{
    if ids.len() == 0 {
        Seq::empty()
    } else {
        conflict_ids(existing, ids.drop_last()) + if is_conflict(existing, ids.last()) {
            seq![ids.last()]
        } else {
            Seq::empty()
        }
    }
}

pub open spec fn new_ids(existing: Seq<ExistingExternalId>, ids: Seq<Identifier>) -> Seq<Identifier>
    decreases ids.len(),
{
    if ids.len() == 0 {
        Seq::empty()
    } else {
        new_ids(existing, ids.drop_last()) + if is_new(existing, ids.last()) {
            seq![ids.last()]
        } else {
            Seq::empty()
        }
    }
}

fn contains_source(seen: &Vec<Source>, s: Source) -> (r: bool)
    ensures
        r == seen@.contains(s),
{
    let mut k: usize = 0;
    while k < seen.len()
        invariant
            k <= seen@.len(),
            forall|m: int| 0 <= m < k ==> seen@[m] != s,
        decreases seen@.len() - k,
    {
        if seen[k] == s {
            assert(seen@[k as int] == s);
            return true;
        }
        k = k + 1;
    }
    false
}

/// The conflict rows show `cs`, in order.
pub open spec fn conflict_rows_show(
    rows: Seq<ExternalIdConflictRow>,
    existing: Seq<ExistingExternalId>,
    cs: Seq<Identifier>,
) -> bool {
    &&& rows.len() == cs.len()
    &&& forall|k: int|
        0 <= k < cs.len() ==> #[trigger] rows[k].source@ == source_key(cs[k].source)
            && rows[k].proposed_external_id@ == cs[k].id@ && Some(rows[k].current_external_id@)
            == match existing_for(existing, source_key(cs[k].source)) {
            Some(e) => Some(e.external_id@),
            None => None,
        }
}

/// The new-id rows show `ns`, in order.
pub open spec fn new_rows_show(rows: Seq<ExternalIdNewRow>, ns: Seq<Identifier>) -> bool {
    &&& rows.len() == ns.len()
    &&& forall|k: int|
        0 <= k < ns.len() ==> #[trigger] rows[k].source@ == source_key(ns[k].source)
            && rows[k].external_id@ == ns[k].id@
}

#[verifier::spinoff_prover]
proof fn lemma_conflict_rows_push(
    rows: Seq<ExternalIdConflictRow>,
    existing: Seq<ExistingExternalId>,
    cs: Seq<Identifier>,
    row: ExternalIdConflictRow,
    id: Identifier,
)
    requires
        conflict_rows_show(rows, existing, cs),
        row.source@ == source_key(id.source),
        row.proposed_external_id@ == id.id@,
        Some(row.current_external_id@) == match existing_for(existing, source_key(id.source)) {
            Some(e) => Some(e.external_id@),
            None => None,
        },
    ensures
        conflict_rows_show(rows.push(row), existing, cs.push(id)),
{
    let r2 = rows.push(row);
    let c2 = cs.push(id);
    assert forall|k: int| 0 <= k < c2.len() implies #[trigger] r2[k].source@ == source_key(
        c2[k].source,
    ) && r2[k].proposed_external_id@ == c2[k].id@ && Some(r2[k].current_external_id@)
        == match existing_for(existing, source_key(c2[k].source)) {
        Some(e) => Some(e.external_id@),
        None => None,
    } by {
        if k < cs.len() {
            assert(r2[k] == rows[k]);
            assert(c2[k] == cs[k]);
        }
    }
}

proof fn lemma_new_rows_push(rows: Seq<ExternalIdNewRow>, ns: Seq<Identifier>, row: ExternalIdNewRow, id: Identifier)
    requires
        new_rows_show(rows, ns),
        row.source@ == source_key(id.source),
        row.external_id@ == id.id@,
    ensures
        new_rows_show(rows.push(row), ns.push(id)),
{
    let r2 = rows.push(row);
    let n2 = ns.push(id);
    assert forall|k: int| 0 <= k < n2.len() implies #[trigger] r2[k].source@ == source_key(
        n2[k].source,
    ) && r2[k].external_id@ == n2[k].id@ by {
        if k < ns.len() {
            assert(r2[k] == rows[k]);
            assert(n2[k] == ns[k]);
        }
    }
}

/// Split the candidate's ids, each source taken once (its first id), into
/// conflicts with user-set ids and ids for sources the entity lacks; ids
/// equal to the existing one, or differing from an id not set by the
/// user, are neither.
pub fn classify_external_ids(existing: &Vec<ExistingExternalId>, incoming: &Vec<Identifier>) -> (r: (
    Vec<ExternalIdConflictRow>,
    Vec<ExternalIdNewRow>,
))
    ensures
        conflict_rows_show(r.0@, existing@, conflict_ids(existing@, first_per_source(incoming@))),
        new_rows_show(r.1@, new_ids(existing@, first_per_source(incoming@))),
{
    let mut conflicts: Vec<ExternalIdConflictRow> = Vec::new();
    let mut news: Vec<ExternalIdNewRow> = Vec::new();
    let mut seen: Vec<Source> = Vec::new();
    let mut i: usize = 0;
    assert(incoming@.take(0) =~= Seq::<Identifier>::empty());
    while i < incoming.len()
        invariant
            i <= incoming@.len(),
            forall|s: Source| #[trigger] seen@.contains(s) <==> exists|j: int|
                0 <= j < i && incoming@[j].source == s,
            conflict_rows_show(
                conflicts@,
                existing@,
                conflict_ids(existing@, first_per_source(incoming@.take(i as int))),
            ),
            new_rows_show(news@, new_ids(existing@, first_per_source(incoming@.take(i as int)))),
        decreases incoming@.len() - i,
    {
        let id = &incoming[i];
        let ghost pre = incoming@.take(i as int);
        let ghost post = incoming@.take(i + 1);
        assert(post.drop_last() =~= pre);
        assert(post.last() == incoming@[i as int]);
        let ghost once_pre = first_per_source(pre);
        let ghost cs_pre = conflict_ids(existing@, once_pre);
        let ghost ns_pre = new_ids(existing@, once_pre);
        let ghost c0 = conflicts@;
        let ghost n0 = news@;
        let ghost seen0 = seen@;
        let already = contains_source(&seen, id.source);
        if already {
            assert(exists|j: int| 0 <= j < post.len() - 1 && post[j].source == post.last().source) by {
                let j = choose|j: int| 0 <= j < i && incoming@[j].source == id.source;
                assert(post[j] == incoming@[j]);
            }
            assert(first_per_source(post) =~= once_pre);
        } else {
            assert(!exists|j: int| 0 <= j < post.len() - 1 && post[j].source == post.last().source) by {
                if exists|j: int| 0 <= j < post.len() - 1 && post[j].source == post.last().source {
                    let j = choose|j: int| 0 <= j < post.len() - 1 && post[j].source == post.last().source;
                    assert(post[j] == incoming@[j]);
                    assert(seen@.contains(id.source));
                }
            }
            assert(first_per_source(post) =~= once_pre.push(*id));
            let ghost once_post = once_pre.push(*id);
            assert(once_post.drop_last() =~= once_pre);
            assert(once_post.last() == *id);
            seen.push(id.source);
            let key = id.source.as_str();
            match find_existing(existing, key) {
                Some(e) => {
                    let ex = &existing[e];
                    if !str_eq(ex.external_id.as_str(), id.id.as_str()) && str_eq(
                        ex.set_by.as_str(),
                        "user",
                    ) {
                        let row = ExternalIdConflictRow {
                            source: String::from_str(key),
                            current_external_id: ex.external_id.clone(),
                            proposed_external_id: id.id.clone(),
                        };
                        proof {
                            lemma_conflict_rows_push(c0, existing@, cs_pre, row, *id);
                        }
                        conflicts.push(row);
                        assert(conflict_ids(existing@, once_post) =~= cs_pre.push(*id));
                    } else {
                        assert(conflict_ids(existing@, once_post) =~= cs_pre);
                    }
                    assert(new_ids(existing@, once_post) =~= ns_pre);
                },
                None => {
                    let row = ExternalIdNewRow { source: String::from_str(key), external_id: id.id.clone() };
                    proof {
                        lemma_new_rows_push(n0, ns_pre, row, *id);
                    }
                    news.push(row);
                    assert(new_ids(existing@, once_post) =~= ns_pre.push(*id));
                    assert(conflict_ids(existing@, once_post) =~= cs_pre);
                },
            }
        }
        assert(conflict_rows_show(
            conflicts@,
            existing@,
            conflict_ids(existing@, first_per_source(post)),
        ));
        assert(new_rows_show(news@, new_ids(existing@, first_per_source(post))));
        assert forall|s: Source| #[trigger] seen@.contains(s) <==> exists|j: int|
            0 <= j < i + 1 && incoming@[j].source == s by {
            if seen@.contains(s) {
                let m = choose|m: int| 0 <= m < seen@.len() && seen@[m] == s;
                if m < seen0.len() {
                    assert(seen0[m] == s);
                    assert(seen0.contains(s));
                    let j = choose|j: int| 0 <= j < i && incoming@[j].source == s;
                    assert(0 <= j < i + 1 && incoming@[j].source == s);
                } else {
                    assert(incoming@[i as int].source == s);
                }
            }
            if exists|j: int| 0 <= j < i + 1 && incoming@[j].source == s {
                let j = choose|j: int| 0 <= j < i + 1 && incoming@[j].source == s;
                if j < i {
                    assert(seen0.contains(s));
                    let m = choose|m: int| 0 <= m < seen0.len() && seen0[m] == s;
                    assert(seen@[m] == s);
                } else if already {
                    assert(seen@.contains(s));
                } else {
                    assert(seen@[seen@.len() - 1] == s);
                }
            }
        }
        i = i + 1;
    }
    assert(incoming@.take(incoming@.len() as int) =~= incoming@);
    (conflicts, news)
}

// ───────── assembling ─────────

/// `n` in decimal with at least four digits, zero-padded on the left.
pub open spec fn pad4(n: nat) -> Seq<char> {
    let d = dec_seq(n);
    if d.len() < 4 {
        Seq::new((4 - d.len()) as nat, |i: int| '0') + d
    } else {
        d
    }
}

/// The two decimal digits of `n < 100`.
pub open spec fn two_digits(n: nat) -> Seq<char> {
    seq![digit_char(n / 10), digit_char(n % 10)]
}

/// The text chrono prints for a date (`NaiveDate`'s `Display`, which is
/// its `%Y-%m-%d` `Debug` form): the year with at least four digits,
/// signed when it lies outside 0..=9999, then the month and the day with
/// two digits each.
pub open spec fn date_text_of(year: i32, month: u32, day: u32) -> Seq<char> {
    let y: int = if year < 0 { -(year as int) } else { year as int };
    let sign: Seq<char> = if 0 <= year <= 9999 {
        Seq::empty()
    } else if year < 0 {
        seq!['-']
    } else {
        seq!['+']
    };
    sign + pad4(y as nat) + seq!['-'] + two_digits(month as nat) + seq!['-'] + two_digits(day as nat)
}

/// Calls `chrono::NaiveDate::from_ymd_opt(..).unwrap().to_string()` on a
/// date that exists. Claimed: the text is `date_text_of` the date, as
/// chrono's `Debug` impl for `NaiveDate` (to which `Display` forwards)
/// writes it.
#[verifier::external_body]
pub(crate) fn date_to_string(year: i32, month: u32, day: u32) -> (r: String)
    requires
        valid_ymd(year, month, day),
    ensures
        r@ == date_text_of(year, month, day),
{
    chrono::NaiveDate::from_ymd_opt(year, month, day).unwrap().to_string()
}

/// The row's cover date as text, when its parts make a date.
pub open spec fn row_cover_date_text(row: IssueRow) -> Option<Seq<char>> {
    if row_has_cover_date(row) {
        Some(date_text_of(row.year.unwrap(), row.month.unwrap() as u32, row.day.unwrap() as u32))
    } else {
        None
    }
}

pub open spec fn date_opt_text(d: Option<CalendarDate>) -> Option<Seq<char>> {
    match d {
        Some(d) => Some(date_text_of(d.year, d.month, d.day)),
        None => None,
    }
}

pub(crate) fn row_cover_date_string(row: &IssueRow) -> (r: Option<String>)
    ensures
        opt_view(r) == row_cover_date_text(*row),
{
    match (row.year, row.month, row.day) {
        (Some(y), Some(m), Some(d)) => {
            if m >= 1 && d >= 1 && date_exists(y, m as u32, d as u32) {
                Some(date_to_string(y, m as u32, d as u32))
            } else {
                None
            }
        },
        _ => None,
    }
}

fn date_string(d: &Option<CalendarDate>) -> (r: Option<String>)
    requires
        d matches Some(x) ==> valid_ymd(x.year, x.month, x.day),
    ensures
        opt_view(r) == date_opt_text(*d),
{
    match d {
        Some(x) => Some(date_to_string(x.year, x.month, x.day)),
        None => None,
    }
}

/// The scalar fields of an issue preview, in display order.
pub open spec fn issue_diff_input(row: IssueRow, d: GenericMetadata, i: int) -> (
    MetadataField,
    Seq<char>,
    Option<Seq<char>>,
    Option<Seq<char>>,
) {
    if i == 0 {
        (MetadataField::Title, "Title"@, opt_view(row.title), opt_view(d.title))
    } else if i == 1 {
        (MetadataField::Deck, "Deck"@, opt_view(row.deck), opt_view(d.deck))
    } else if i == 2 {
        (MetadataField::Description, "Description"@, opt_view(row.summary), opt_view(d.description))
    } else if i == 3 {
        (MetadataField::AgeRating, "Age rating"@, opt_view(row.age_rating), opt_view(d.age_rating))
    } else if i == 4 {
        (MetadataField::PageCount, "Page count"@, int_opt_view(row.page_count), int_opt_view(d.page_count))
    } else if i == 5 {
        (MetadataField::Sku, "SKU"@, opt_view(row.sku), opt_view(d.sku))
    } else {
        (MetadataField::CoverDate, "Cover date"@, row_cover_date_text(row), date_opt_text(d.cover_date))
    }
}

proof fn lemma_date_text_filled(year: i32, month: u32, day: u32)
    ensures
        filled(Some(date_text_of(year, month, day))),
{
    let t = date_text_of(year, month, day);
    let dd = two_digits(day as nat);
    assert(t.last() == dd.last());
    assert(dd.last() == digit_char((day as nat) % 10));
    assert(!crate::text::is_ws(t[t.len() - 1]));
}

/// The apply step an issue preview row stands for.
pub open spec fn issue_step_of(i: int) -> int {
    if i == 0 {
        0
    } else if i == 6 {
        2
    } else {
        i + 4
    }
}

/// The issue preview predicts the issue apply: each preview row is the
/// apply step of the same field, its current value is present exactly
/// when the apply step finds the local column filled and its proposed
/// value exactly when the provider offers one; so for a selected field a
/// row that shows a change is one the apply writes, and a field the apply
/// writes is shown as a change or as no change.
pub proof fn lemma_issue_preview_predicts_apply(
    row: IssueRow,
    d: GenericMetadata,
    prov: ProvenanceMap,
    args: ApplyArgs,
    i: int,
)
    requires
        0 <= i < 7,
    ensures
        ({
            let inp = issue_diff_input(row, d, i);
            let st = issue_steps(row, d)[issue_step_of(i)];
            let dd = classify_spec(inp.2, inp.3, prov, inp.0, args);
            &&& inp.0 == st.0
            &&& filled(inp.2) == st.2
            &&& filled(inp.3) == st.1
            &&& (key_selected(args, field_key(inp.0)) && changes(dd)) ==> step_applies(st, prov, args)
            &&& (key_selected(args, field_key(inp.0)) && step_applies(st, prov, args)) ==> (changes(dd)
                || dd == DiffDecision::NoChange)
        }),
{
    let inp = issue_diff_input(row, d, i);
    if i == 4 {
        if let Some(n) = row.page_count {
            lemma_int_text_filled(n as int);
        }
        if let Some(n) = d.page_count {
            lemma_int_text_filled(n as int);
        }
    }
    if i == 6 {
        if row_has_cover_date(row) {
            lemma_date_text_filled(row.year.unwrap(), row.month.unwrap() as u32, row.day.unwrap() as u32);
        }
        if let Some(x) = d.cover_date {
            lemma_date_text_filled(x.year, x.month, x.day);
        }
    }
    if key_selected(args, field_key(inp.0)) && filled(inp.3) {
        lemma_preview_matches_apply(inp.2, inp.3, prov, inp.0, args);
    }
}

/// The scalar inputs of an issue preview.
pub fn issue_diff_inputs(row: &IssueRow, detail: &GenericMetadata) -> (r: Vec<DiffInput>)
    requires
        detail.cover_date matches Some(x) ==> valid_ymd(x.year, x.month, x.day),
    ensures
        r@.len() == 7,
        forall|i: int| 0 <= i < 7 ==> #[trigger] input_view(r@[i]) == issue_diff_input(*row, *detail, i),
{
    let mut v: Vec<DiffInput> = Vec::new();
    push_input(&mut v, MetadataField::Title, "Title", clone_opt_string(&row.title), clone_opt_string(&detail.title));
    push_input(&mut v, MetadataField::Deck, "Deck", clone_opt_string(&row.deck), clone_opt_string(&detail.deck));
    push_input(&mut v, MetadataField::Description, "Description", clone_opt_string(&row.summary), clone_opt_string(&detail.description));
    push_input(&mut v, MetadataField::AgeRating, "Age rating", clone_opt_string(&row.age_rating), clone_opt_string(&detail.age_rating));
    push_input(&mut v, MetadataField::PageCount, "Page count", int_opt_text(row.page_count), int_opt_text(detail.page_count));
    push_input(&mut v, MetadataField::Sku, "SKU", clone_opt_string(&row.sku), clone_opt_string(&detail.sku));
    push_input(&mut v, MetadataField::CoverDate, "Cover date", row_cover_date_string(row), date_string(&detail.cover_date));
    assert forall|i: int| 0 <= i < 7 implies #[trigger] input_view(v@[i]) == issue_diff_input(*row, *detail, i) by {
        if i == 0 {} else if i == 1 {} else if i == 2 {} else if i == 3 {} else if i == 4 {}
        else if i == 5 {} else {}
    }
    v
}

/// The ComicInfo role names, in PascalCase.
pub open spec fn is_comicinfo_role(r: Seq<char>) -> bool {
    r == "Writer"@ || r == "Penciller"@ || r == "Inker"@ || r == "Colorist"@ || r == "Letterer"@
        || r == "CoverArtist"@ || r == "Editor"@ || r == "Translator"@
}

/// A credit lands in a per-role column: its role maps to a ComicInfo role
/// or already is one.
pub open spec fn credit_in_scope(role: Seq<char>) -> bool {
    canonical_role(role) is Some || is_comicinfo_role(role)
}

pub open spec fn credits_in_scope(cs: Seq<CreditCandidate>) -> nat
    decreases cs.len(),
{
    if cs.len() == 0 {
        0
    } else {
        credits_in_scope(cs.drop_last()) + if credit_in_scope(cs.last().role@) {
            1nat
        } else {
            0nat
        }
    }
}

/// Proposed credits that would land in a per-role column.
pub fn proposed_credits_count(credits: &Vec<CreditCandidate>) -> (r: usize)
    ensures
        r == credits_in_scope(credits@),
{
    let mut n: usize = 0;
    let mut i: usize = 0;
    assert(credits@.take(0) =~= Seq::<CreditCandidate>::empty());
    while i < credits.len()
        invariant
            i <= credits@.len(),
            n == credits_in_scope(credits@.take(i as int)),
            n <= i,
        decreases credits@.len() - i,
    {
        assert(credits@.take(i + 1).drop_last() =~= credits@.take(i as int));
        assert(credits@.take(i + 1).last() == credits@[i as int]);
        let role = credits[i].role.as_str();
        let t = chars_of(role);
        let in_scope = canonicalize_role(role).is_some() || eq_lit(&t, "Writer") || eq_lit(
            &t,
            "Penciller",
        ) || eq_lit(&t, "Inker") || eq_lit(&t, "Colorist") || eq_lit(&t, "Letterer") || eq_lit(
            &t,
            "CoverArtist",
        ) || eq_lit(&t, "Editor") || eq_lit(&t, "Translator");
        if in_scope {
            n = n + 1;
        }
        i = i + 1;
    }
    assert(credits@.take(credits@.len() as int) =~= credits@);
    n
}

pub open spec fn variants_with_image(vs: Seq<VariantCoverCandidate>) -> nat
    decreases vs.len(),
{
    if vs.len() == 0 {
        0
    } else {
        variants_with_image(vs.drop_last()) + if has_text(vs.last().image_url) {
            1nat
        } else {
            0nat
        }
    }
}

/// Proposed variant covers that carry an image URL.
pub fn incoming_variant_count(variants: &Vec<VariantCoverCandidate>) -> (r: usize)
    ensures
        r == variants_with_image(variants@),
{
    let mut n: usize = 0;
    let mut i: usize = 0;
    assert(variants@.take(0) =~= Seq::<VariantCoverCandidate>::empty());
    while i < variants.len()
        invariant
            i <= variants@.len(),
            n == variants_with_image(variants@.take(i as int)),
            n <= i,
        decreases variants@.len() - i,
    {
        assert(variants@.take(i + 1).drop_last() =~= variants@.take(i as int));
        assert(variants@.take(i + 1).last() == variants@[i as int]);
        if text_present(&variants[i].image_url) {
            n = n + 1;
        }
        i = i + 1;
    }
    assert(variants@.take(variants@.len() as int) =~= variants@);
    n
}

/// Entries across the eight per-role credit columns.
pub open spec fn credits_count(row: IssueRow) -> nat {
    csv_count(opt_view(row.writer)) + csv_count(opt_view(row.penciller)) + csv_count(
        opt_view(row.inker),
    ) + csv_count(opt_view(row.colorist)) + csv_count(opt_view(row.letterer)) + csv_count(
        opt_view(row.cover_artist),
    ) + csv_count(opt_view(row.editor)) + csv_count(opt_view(row.translator))
}

pub(crate) fn csv_of(v: &Option<String>) -> (r: usize)
    ensures
        r == csv_count(opt_view(*v)),
{
    match v {
        Some(s) => count_csv(Some(s.as_str())),
        None => count_csv(None),
    }
}

pub fn count_credits(row: &IssueRow) -> (r: usize)
    requires
        credits_count(*row) <= usize::MAX,
    ensures
        r == credits_count(*row),
{
    csv_of(&row.writer) + csv_of(&row.penciller) + csv_of(&row.inker) + csv_of(&row.colorist)
        + csv_of(&row.letterer) + csv_of(&row.cover_artist) + csv_of(&row.editor) + csv_of(
        &row.translator,
    )
}

/// The count rows of an issue preview, in display order: credits,
/// characters, teams, locations, story arcs, tags, genres, variant covers.
pub open spec fn issue_count_input(
    row: IssueRow,
    d: GenericMetadata,
    current_variants: nat,
    i: int,
) -> (MetadataField, Seq<char>, nat, nat) {
    if i == 0 {
        (MetadataField::Credits, "Credits"@, credits_count(row), credits_in_scope(d.credits@))
    } else if i == 1 {
        (MetadataField::Characters, "Characters"@, csv_count(opt_view(row.characters)), d.characters@.len())
    } else if i == 2 {
        (MetadataField::Teams, "Teams"@, csv_count(opt_view(row.teams)), d.teams@.len())
    } else if i == 3 {
        (MetadataField::Locations, "Locations"@, csv_count(opt_view(row.locations)), d.locations@.len())
    } else if i == 4 {
        (MetadataField::StoryArcs, "Story arcs"@, csv_count(opt_view(row.story_arc)), d.story_arcs@.len())
    } else if i == 5 {
        (MetadataField::Tags, "Tags"@, csv_count(opt_view(row.tags)), d.tags@.len())
    } else if i == 6 {
        (MetadataField::Genres, "Genres"@, csv_count(opt_view(row.genre)), d.genres@.len())
    } else {
        (MetadataField::CoverVariants, "Variant covers"@, current_variants, variants_with_image(d.variants@))
    }
}

pub open spec fn count_input_view(c: CountInput) -> (MetadataField, Seq<char>, nat, nat) {
    (c.field, c.label@, c.current as nat, c.incoming as nat)
}

/// The count inputs of an issue preview; `current_variants` is the number
/// of active variant cover rows.
pub fn issue_count_inputs(row: &IssueRow, detail: &GenericMetadata, current_variants: usize) -> (r:
    Vec<CountInput>)
    requires
        credits_count(*row) <= usize::MAX,
    ensures
        r@.len() == 8,
        forall|i: int|
            0 <= i < 8 ==> #[trigger] count_input_view(r@[i]) == issue_count_input(
                *row,
                *detail,
                current_variants as nat,
                i,
            ),
{
    let mut v: Vec<CountInput> = Vec::new();
    v.push(CountInput { field: MetadataField::Credits, label: "Credits", current: count_credits(row), incoming: proposed_credits_count(&detail.credits) });
    v.push(CountInput { field: MetadataField::Characters, label: "Characters", current: csv_of(&row.characters), incoming: detail.characters.len() });
    v.push(CountInput { field: MetadataField::Teams, label: "Teams", current: csv_of(&row.teams), incoming: detail.teams.len() });
    v.push(CountInput { field: MetadataField::Locations, label: "Locations", current: csv_of(&row.locations), incoming: detail.locations.len() });
    v.push(CountInput { field: MetadataField::StoryArcs, label: "Story arcs", current: csv_of(&row.story_arc), incoming: detail.story_arcs.len() });
    v.push(CountInput { field: MetadataField::Tags, label: "Tags", current: csv_of(&row.tags), incoming: detail.tags.len() });
    v.push(CountInput { field: MetadataField::Genres, label: "Genres", current: csv_of(&row.genre), incoming: detail.genres.len() });
    v.push(CountInput { field: MetadataField::CoverVariants, label: "Variant covers", current: current_variants, incoming: incoming_variant_count(&detail.variants) });
    assert forall|i: int| 0 <= i < 8 implies #[trigger] count_input_view(v@[i]) == issue_count_input(*row, *detail, current_variants as nat, i) by {
        if i == 0 {} else if i == 1 {} else if i == 2 {} else if i == 3 {} else if i == 4 {}
        else if i == 5 {} else if i == 6 {} else {}
    }
    v
}

/// Append the count rows, in order.
pub fn push_count_rows(
    rows: &mut Vec<ScalarDiffRow>,
    inputs: &Vec<CountInput>,
    provenance: &ProvenanceMap,
    provenance_full: &ProvenanceRows,
    args: &ApplyArgs,
)
    ensures
        final(rows)@.len() == old(rows)@.len() + inputs@.len(),
        final(rows)@.take(old(rows)@.len() as int) == old(rows)@,
        forall|i: int|
            0 <= i < inputs@.len() ==> #[trigger] count_row_is(
                final(rows)@[old(rows)@.len() + i],
                inputs@[i],
                *provenance,
                provenance_full@,
                *args,
            ),
{
    let ghost start = rows@;
    let mut i: usize = 0;
    assert(rows@.take(start.len() as int) =~= start);
    while i < inputs.len()
        invariant
            i <= inputs@.len(),
            rows@.len() == start.len() + i,
            rows@.take(start.len() as int) == start,
            forall|j: int|
                0 <= j < i ==> #[trigger] count_row_is(
                    rows@[start.len() + j],
                    inputs@[j],
                    *provenance,
                    provenance_full@,
                    *args,
                ),
        decreases inputs@.len() - i,
    {
        let ghost before = rows@;
        push_count_row(rows, &inputs[i], provenance, provenance_full, args);
        assert(rows@.take(start.len() as int) =~= before.take(start.len() as int));
        assert forall|j: int| 0 <= j < i + 1 implies #[trigger] count_row_is(
            rows@[start.len() + j],
            inputs@[j],
            *provenance,
            provenance_full@,
            *args,
        ) by {
            if j < i {
                assert(rows@.drop_last()[start.len() + j] == rows@[start.len() + j]);
                assert(rows@[start.len() + j] == before[start.len() + j]);
            } else {
                assert(rows@[start.len() + j] == rows@.last());
            }
        }
        i = i + 1;
    }
}

/// Assemble the preview from its parts; the change count is the number of
/// rows that would write.
pub fn build_diff(
    run_id: u128,
    ordinal: i32,
    scope: &str,
    source: Source,
    source_external_id: &Option<String>,
    rows: Vec<ScalarDiffRow>,
    conflicts: Vec<ExternalIdConflictRow>,
    news: Vec<ExternalIdNewRow>,
) -> (r: DiffResp)
    ensures
        r.run_id == run_id,
        r.ordinal == ordinal,
        r.scope@ == scope@,
        r.source@ == source_key(source),
        r.source_external_id@ == (match *source_external_id {
            Some(s) => s@,
            None => Seq::empty(),
        }),
        r.rows@ == rows@,
        r.external_id_conflicts@ == conflicts@,
        r.external_ids_new@ == news@,
        r.changes_count == changes_in(rows@),
{
    let n = changes_count(&rows);
    DiffResp {
        run_id,
        ordinal,
        scope: String::from_str(scope),
        source: String::from_str(source.as_str()),
        source_external_id: match source_external_id {
            Some(s) => s.clone(),
            None => String::new(),
        },
        rows,
        external_id_conflicts: conflicts,
        external_ids_new: news,
        changes_count: n,
    }
}

/// The preview of a series apply: the ten scalar rows in display order,
/// then the external-id conflicts and new ids.
pub fn compute_series_diff(
    run_id: u128,
    ordinal: i32,
    source: Source,
    row: &SeriesRow,
    detail: &GenericMetadata,
    provenance: &ProvenanceMap,
    provenance_full: &ProvenanceRows,
    args: &ApplyArgs,
    existing_ids: &Vec<ExistingExternalId>,
) -> (r: DiffResp)
    ensures
        r.run_id == run_id && r.ordinal == ordinal,
        r.scope@ == "series"@,
        r.source@ == source_key(source),
        r.source_external_id@ == (match detail.source_external_id {
            Some(s) => s@,
            None => Seq::empty(),
        }),
        r.rows@.len() == 10,
        forall|i: int|
            0 <= i < 10 ==> #[trigger] input_view_matches(
                r.rows@[i],
                series_diff_input(*row, *detail, i),
                *provenance,
                provenance_full@,
                *args,
            ),
        conflict_rows_show(
            r.external_id_conflicts@,
            existing_ids@,
            conflict_ids(existing_ids@, first_per_source(detail.identifiers@)),
        ),
        new_rows_show(
            r.external_ids_new@,
            new_ids(existing_ids@, first_per_source(detail.identifiers@)),
        ),
        r.changes_count == changes_in(r.rows@),
{
    let inputs = series_diff_inputs(row, detail);
    let rows = scalar_rows(&inputs, provenance, provenance_full, args);
    let (conflicts, news) = classify_external_ids(existing_ids, &detail.identifiers);
    proof {
        assert forall|i: int| 0 <= i < 10 implies #[trigger] input_view_matches(
            rows@[i],
            series_diff_input(*row, *detail, i),
            *provenance,
            provenance_full@,
            *args,
        ) by {
            assert(scalar_row_is(rows@[i], inputs@[i], *provenance, provenance_full@, *args));
            assert(input_view(inputs@[i]) == series_diff_input(*row, *detail, i));
        }
    }
    build_diff(run_id, ordinal, "series", source, &detail.source_external_id, rows, conflicts, news)
}

/// A row shows a scalar field given by its view.
pub open spec fn input_view_matches(
    row: ScalarDiffRow,
    v: (MetadataField, Seq<char>, Option<Seq<char>>, Option<Seq<char>>),
    prov: ProvenanceMap,
    full: Seq<(String, ProvenanceDetail)>,
    args: ApplyArgs,
) -> bool {
    let key = field_key(v.0);
    &&& row.field@ == key
    &&& row.label@ == v.1
    &&& opt_view(row.current_value) == v.2
    &&& opt_view(row.proposed_value) == v.3
    &&& row.decision@ == diff_decision_key(classify_spec(v.2, v.3, prov, v.0, args))
    &&& opt_view(row.current_set_by) == set_by_shown(full, key)
    &&& opt_view(row.current_set_at) == set_at_shown(full, key)
}

/// A row shows a count field given by its view.
pub open spec fn count_view_matches(
    row: ScalarDiffRow,
    v: (MetadataField, Seq<char>, nat, nat),
    prov: ProvenanceMap,
    full: Seq<(String, ProvenanceDetail)>,
    args: ApplyArgs,
) -> bool {
    let key = field_key(v.0);
    &&& row.field@ == key
    &&& row.label@ == v.1
    &&& opt_view(row.current_value) == Some(count_text(v.2))
    &&& opt_view(row.proposed_value) == Some(count_text(v.3))
    &&& row.decision@ == diff_decision_key(count_decision(v.2, v.3, prov, v.0, args))
    &&& opt_view(row.current_set_by) == set_by_shown(full, key)
    &&& opt_view(row.current_set_at) == set_at_shown(full, key)
}

/// The preview of an issue apply: seven scalar rows, then eight count
/// rows (junction sets and variant covers), then the external-id
/// conflicts and new ids. `current_variants` is the number of active
/// variant cover rows.
pub fn compute_issue_diff(
    run_id: u128,
    ordinal: i32,
    source: Source,
    row: &IssueRow,
    detail: &GenericMetadata,
    current_variants: usize,
    provenance: &ProvenanceMap,
    provenance_full: &ProvenanceRows,
    args: &ApplyArgs,
    existing_ids: &Vec<ExistingExternalId>,
) -> (r: DiffResp)
    requires
        credits_count(*row) <= usize::MAX,
        detail.cover_date matches Some(x) ==> valid_ymd(x.year, x.month, x.day),
    ensures
        r.run_id == run_id && r.ordinal == ordinal,
        r.scope@ == "issue"@,
        r.source@ == source_key(source),
        r.source_external_id@ == (match detail.source_external_id {
            Some(s) => s@,
            None => Seq::empty(),
        }),
        r.rows@.len() == 15,
        forall|i: int|
            0 <= i < 7 ==> #[trigger] input_view_matches(
                r.rows@[i],
                issue_diff_input(*row, *detail, i),
                *provenance,
                provenance_full@,
                *args,
            ),
        forall|i: int|
            0 <= i < 8 ==> #[trigger] count_view_matches(
                r.rows@[7 + i],
                issue_count_input(*row, *detail, current_variants as nat, i),
                *provenance,
                provenance_full@,
                *args,
            ),
        conflict_rows_show(
            r.external_id_conflicts@,
            existing_ids@,
            conflict_ids(existing_ids@, first_per_source(detail.identifiers@)),
        ),
        new_rows_show(
            r.external_ids_new@,
            new_ids(existing_ids@, first_per_source(detail.identifiers@)),
        ),
        r.changes_count == changes_in(r.rows@),
{
    let inputs = issue_diff_inputs(row, detail);
    let mut rows = scalar_rows(&inputs, provenance, provenance_full, args);
    let ghost scalars = rows@;
    let counts = issue_count_inputs(row, detail, current_variants);
    push_count_rows(&mut rows, &counts, provenance, provenance_full, args);
    let (conflicts, news) = classify_external_ids(existing_ids, &detail.identifiers);
    proof {
        assert forall|i: int| 0 <= i < 7 implies #[trigger] input_view_matches(
            rows@[i],
            issue_diff_input(*row, *detail, i),
            *provenance,
            provenance_full@,
            *args,
        ) by {
            assert(rows@.take(7)[i] == scalars[i]);
            assert(scalar_row_is(scalars[i], inputs@[i], *provenance, provenance_full@, *args));
            assert(input_view(inputs@[i]) == issue_diff_input(*row, *detail, i));
        }
        assert forall|i: int| 0 <= i < 8 implies #[trigger] count_view_matches(
            rows@[7 + i],
            issue_count_input(*row, *detail, current_variants as nat, i),
            *provenance,
            provenance_full@,
            *args,
        ) by {
            assert(count_row_is(rows@[7 + i], counts@[i], *provenance, provenance_full@, *args));
            assert(count_input_view(counts@[i]) == issue_count_input(
                *row,
                *detail,
                current_variants as nat,
                i,
            ));
        }
    }
    build_diff(run_id, ordinal, "issue", source, &detail.source_external_id, rows, conflicts, news)
}

} // verus!

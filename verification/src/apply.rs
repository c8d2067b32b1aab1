//! The apply step's decisions: per field, whether a chosen candidate's
//! value is written over the local one.
//!
//! | DB state                          | fill_missing | replace_all |
//! |-----------------------------------|--------------|-------------|
//! | empty, no provenance              | apply        | apply       |
//! | empty, set by the user            | skip         | skip        |
//! | filled, set by something else     | skip         | apply       |
//! | filled, set by the user           | skip         | skip        |
//!
//! `override_user_edits` lifts the user rows; a per-field selection, when
//! given, skips every field outside it first.
use vstd::prelude::*;
use vstd::string::*;
use crate::field::{MetadataField, field_key, parse_field, is_junction_field, is_cover_field};
use crate::writers::{SetBy, CoverOverwritePolicy, string_views};
use crate::text::{
    first_match, find_key, clone_opt_string, opt_view, opt_str_view, filled, trim, blank, str_eq,
    opt_filled, opt_str_filled, trim_str, chars_eq, chars_of, chars_ends_with, ends_with,
    str_is_blank, clone_strings, has_text, text_present, nonblank, str_nonblank, concat2, concat3,
};
use crate::unicode::{to_lowercase, lowercase_of, is_ascii_text};
use crate::provider::{GenericMetadata, CalendarDate, date_exists, valid_ymd};
use crate::identifier::{Identifier, Source, source_key};

verus! {

// ───────── the run a preview or apply works on ─────────

/// Why a run cannot be previewed or applied at the scope asked for.
#[derive(Clone, Debug)]
pub enum RunScopeError {
    /// The run was made at another scope; carries the run's scope.
    InvalidScope(String),
    /// A series-scope run names no series.
    SeriesGone,
    /// An issue-scope run names no issue.
    IssueGone,
}

/// The stored scope of a series-scope (`series`) or issue-scope run.
pub open spec fn run_scope_text(series: bool) -> Seq<char> {
    if series {
        "series"@
    } else {
        "issue"@
    }
}

/// The entity a preview or apply works on: the run must have been made at
/// the scope asked for (`series`, else issue) and name its entity.
pub fn run_entity(run_scope: &str, scope_entity_id: &Option<String>, series: bool) -> (r: Result<
    String,
    RunScopeError,
>)
    ensures
        run_scope@ != run_scope_text(series) ==> (r matches Err(RunScopeError::InvalidScope(s))
            && s@ == run_scope@),
        run_scope@ == run_scope_text(series) && scope_entity_id is None ==> (if series {
            r matches Err(RunScopeError::SeriesGone)
        } else {
            r matches Err(RunScopeError::IssueGone)
        }),
        run_scope@ == run_scope_text(series) && scope_entity_id is Some ==> (r matches Ok(id)
            && id@ == scope_entity_id.unwrap()@),
{
    let want = if series { "series" } else { "issue" };
    if !str_eq(run_scope, want) {
        return Err(RunScopeError::InvalidScope(String::from_str(run_scope)));
    }
    match scope_entity_id {
        Some(id) => Ok(id.clone()),
        None => if series {
            Err(RunScopeError::SeriesGone)
        } else {
            Err(RunScopeError::IssueGone)
        },
    }
}

// ───────── arguments ─────────

#[derive(Copy, Clone, Debug, PartialEq, Eq, Structural)]
pub enum ApplyMode {
    /// Only fill fields that are empty.
    FillMissing,
    /// Overwrite fields not set by the user.
    ReplaceAll,
}

pub open spec fn apply_mode_key(m: ApplyMode) -> Seq<char> {
    match m {
        ApplyMode::FillMissing => "fill_missing"@,
        ApplyMode::ReplaceAll => "replace_all"@,
    }
}

impl ApplyMode {
    pub fn as_str(self) -> (r: &'static str)
        ensures
            r@ == apply_mode_key(self),
    {
        match self {
            ApplyMode::FillMissing => "fill_missing",
            ApplyMode::ReplaceAll => "replace_all",
        }
    }
}

/// One apply request. Run and actor ids are the 128-bit values of their
/// UUIDs.
#[derive(Clone, Debug)]
pub struct ApplyArgs {
    pub run_id: u128,
    pub ordinal: i32,
    pub mode: ApplyMode,
    pub apply_cover: bool,
    pub cover_overwrite_policy: CoverOverwritePolicy,
    pub override_user_edits: bool,
    pub actor_id: Option<u128>,
    /// The field keys opted in from the preview; `None` applies every
    /// field the matrix permits.
    pub selected_fields: Option<Vec<String>>,
    /// Sources whose external-id conflict the user resolved as "use
    /// theirs".
    pub override_external_id_sources: Vec<String>,
}

/// Whether the per-field selection lets `key` through.
pub open spec fn key_selected(args: ApplyArgs, key: Seq<char>) -> bool {
    match args.selected_fields {
        Some(v) => string_views(v@).contains(key),
        None => true,
    }
}

/// The selection: with no list every field passes; with a list exactly the
/// listed keys pass.
pub proof fn lemma_selection(args: ApplyArgs, key: Seq<char>)
    ensures
        args.selected_fields is None ==> key_selected(args, key),
        args.selected_fields matches Some(v) ==> key_selected(args, key) == exists|i: int|
            0 <= i < v@.len() && (#[trigger] v@[i])@ == key,
{
    if let Some(v) = args.selected_fields {
        if exists|i: int| 0 <= i < v@.len() && (#[trigger] v@[i])@ == key {
            let i = choose|i: int| 0 <= i < v@.len() && (#[trigger] v@[i])@ == key;
            assert(string_views(v@)[i] == key);
        }
        if string_views(v@).contains(key) {
            let i = choose|i: int| 0 <= i < string_views(v@).len() && string_views(v@)[i] == key;
            assert(v@[i]@ == key);
        }
    }
}

/// `v` holds a string equal to `s`.
pub fn contains_str(v: &Vec<String>, s: &str) -> (r: bool)
    ensures
        r == string_views(v@).contains(s@),
{
    let mut i: usize = 0;
    while i < v.len()
        invariant
            i <= v@.len(),
            forall|j: int| 0 <= j < i ==> string_views(v@)[j] != s@,
        decreases v@.len() - i,
    {
        if str_eq(v[i].as_str(), s) {
            assert(string_views(v@)[i as int] == s@);
            return true;
        }
        i = i + 1;
    }
    false
}

fn selected(args: &ApplyArgs, key: &str) -> (r: bool)
    ensures
        r == key_selected(*args, key@),
{
    match &args.selected_fields {
        Some(v) => contains_str(v, key),
        None => true,
    }
}

// ───────── provenance ─────────

/// Field key to the `set_by` text of its provenance row; a later insert
/// shadows an earlier one for the same key.
pub struct ProvenanceMap {
    entries: Vec<(String, String)>,
}

impl ProvenanceMap {
    /// Who set the field `key`, if anyone.
    pub closed spec fn set_by_of(&self, key: Seq<char>) -> Option<Seq<char>> {
        opt_view(first_match(self.entries@, key))
    }

    pub fn new() -> (r: Self)
        ensures
            forall|k: Seq<char>| r.set_by_of(k) is None,
    {
        ProvenanceMap { entries: Vec::new() }
    }

    pub fn insert(&mut self, key: String, set_by: String)
        ensures
            forall|k: Seq<char>| #[trigger]
                final(self).set_by_of(k) == if k == key@ {
                    Some(set_by@)
                } else {
                    old(self).set_by_of(k)
                },
    {
        let ghost before = self.entries@;
        let ghost kv = key@;
        let ghost sv = set_by@;
        self.entries.insert(0, (key, set_by));
        assert(self.entries@.drop_first() =~= before);
        assert(self.entries@[0].0@ == kv && self.entries@[0].1@ == sv);
    }

    pub fn get(&self, key: &str) -> (r: Option<String>)
        ensures
            opt_view(r) == self.set_by_of(key@),
    {
        match find_key(&self.entries, key) {
            Some(i) => Some(self.entries[i].1.clone()),
            None => None,
        }
    }
}

/// The field's provenance row says the user set it.
pub open spec fn user_pinned(prov: ProvenanceMap, f: MetadataField) -> bool {
    prov.set_by_of(field_key(f)) == Some("user"@)
}

fn is_user_pinned(prov: &ProvenanceMap, key: &String, Ghost(f): Ghost<MetadataField>) -> (r: bool)
    requires
        key@ == field_key(f),
    ensures
        r == user_pinned(*prov, f),
{
    match prov.get(key.as_str()) {
        Some(v) => str_eq(v.as_str(), "user"),
        None => false,
    }
}

// ───────── the matrix ─────────

/// The decision for one field: selected, not a user pin (unless
/// overridden), and either empty locally or the mode replaces.
pub open spec fn apply_decision(
    db_has_value: bool,
    prov: ProvenanceMap,
    f: MetadataField,
    args: ApplyArgs,
) -> bool {
    &&& key_selected(args, field_key(f))
    &&& !(user_pinned(prov, f) && !args.override_user_edits)
    &&& (!db_has_value || args.mode == ApplyMode::ReplaceAll)
}

/// Whether a provider value is written over the field, per the matrix.
pub fn should_apply(
    db_has_value: bool,
    provenance: &ProvenanceMap,
    field: MetadataField,
    args: &ApplyArgs,
) -> (r: bool)
    ensures
        r == apply_decision(db_has_value, *provenance, field, *args),
        !key_selected(*args, field_key(field)) ==> !r,
        user_pinned(*provenance, field) && !args.override_user_edits ==> !r,
        args.mode == ApplyMode::FillMissing && db_has_value ==> !r,
        !db_has_value && key_selected(*args, field_key(field)) && !user_pinned(*provenance, field)
            ==> r,
{
    let key = field.key();
    if !selected(args, key.as_str()) {
        return false;
    }
    let user_set = is_user_pinned(provenance, &key, Ghost(field));
    if user_set && !args.override_user_edits {
        return false;
    }
    if !db_has_value {
        return true;
    }
    match args.mode {
        ApplyMode::ReplaceAll => true,
        ApplyMode::FillMissing => false,
    }
}

// ───────── preview classification ─────────

/// Why a candidate field would or would not be written; drives the
/// preview's per-row badge.
#[derive(Copy, Clone, Debug, PartialEq, Eq, Structural)]
pub enum DiffDecision {
    /// Empty locally; Apply writes it.
    WouldFill,
    /// Set by a non-user source and the mode replaces.
    WouldReplace,
    /// The proposed value is the current one.
    NoChange,
    /// A user pin blocks it.
    BlockedByUser,
    /// Filled locally and the mode only fills.
    SkippedFillMissingHasValue,
    /// The candidate has no value.
    NoIncomingValue,
}

pub open spec fn diff_decision_key(d: DiffDecision) -> Seq<char> {
    match d {
        DiffDecision::WouldFill => "would_fill"@,
        DiffDecision::WouldReplace => "would_replace"@,
        DiffDecision::NoChange => "no_change"@,
        DiffDecision::BlockedByUser => "blocked_by_user"@,
        DiffDecision::SkippedFillMissingHasValue => "skipped_fill_missing_has_value"@,
        DiffDecision::NoIncomingValue => "no_incoming_value"@,
    }
}

pub open spec fn changes(d: DiffDecision) -> bool {
    d is WouldFill || d is WouldReplace
}

impl DiffDecision {
    pub fn as_str(self) -> (r: &'static str)
        ensures
            r@ == diff_decision_key(self),
    {
        match self {
            DiffDecision::WouldFill => "would_fill",
            DiffDecision::WouldReplace => "would_replace",
            DiffDecision::NoChange => "no_change",
            DiffDecision::BlockedByUser => "blocked_by_user",
            DiffDecision::SkippedFillMissingHasValue => "skipped_fill_missing_has_value",
            DiffDecision::NoIncomingValue => "no_incoming_value",
        }
    }

    /// An actionable change the user can opt in to.
    pub fn would_change(self) -> (r: bool)
        ensures
            r == changes(self),
    {
        match self {
            DiffDecision::WouldFill => true,
            DiffDecision::WouldReplace => true,
            _ => false,
        }
    }
}

pub open spec fn classify_spec(
    current: Option<Seq<char>>,
    incoming: Option<Seq<char>>,
    prov: ProvenanceMap,
    f: MetadataField,
    args: ApplyArgs,
) -> DiffDecision {
    if !filled(incoming) {
        DiffDecision::NoIncomingValue
    } else if user_pinned(prov, f) && !args.override_user_edits {
        DiffDecision::BlockedByUser
    } else if !filled(current) {
        DiffDecision::WouldFill
    } else if trim(current.unwrap()) == trim(incoming.unwrap()) {
        DiffDecision::NoChange
    } else if args.mode == ApplyMode::ReplaceAll {
        DiffDecision::WouldReplace
    } else {
        DiffDecision::SkippedFillMissingHasValue
    }
}

/// A scalar preview predicts what an apply of the selected field does:
/// with no incoming text there is nothing to write; an unoverridden user
/// pin blocks; the same text after trimming is no change; and otherwise
/// the preview reports a change exactly when the apply matrix writes the
/// field, as a fill when the local value is empty and as a replacement
/// when it is not.
pub proof fn lemma_classify_matches_apply(
    current: Option<Seq<char>>,
    incoming: Option<Seq<char>>,
    prov: ProvenanceMap,
    f: MetadataField,
    args: ApplyArgs,
)
    requires
        key_selected(args, field_key(f)),
    ensures
        ({
            let dd = classify_spec(current, incoming, prov, f, args);
            let differs = !filled(current) || trim(current.unwrap()) != trim(incoming.unwrap());
            &&& (dd is NoIncomingValue) == !filled(incoming)
            &&& (dd is BlockedByUser) == (filled(incoming) && user_pinned(prov, f)
                && !args.override_user_edits)
            &&& (filled(incoming) && differs) ==> (changes(dd) == apply_decision(
                filled(current),
                prov,
                f,
                args,
            ))
            &&& (filled(incoming) && differs && changes(dd)) ==> ((dd is WouldFill) == !filled(
                current,
            ))
            &&& (filled(incoming) && !differs && !(user_pinned(prov, f)
                && !args.override_user_edits)) ==> dd is NoChange
        }),
{
}

/// The reason a write would or would not happen for one field, without
/// writing; values are compared after trimming.
pub fn classify_field(
    current_value: Option<&str>,
    incoming_value: Option<&str>,
    provenance: &ProvenanceMap,
    field: MetadataField,
    args: &ApplyArgs,
) -> (r: DiffDecision)
    ensures
        r == classify_spec(
            opt_str_view(current_value),
            opt_str_view(incoming_value),
            *provenance,
            field,
            *args,
        ),
{
    if !opt_str_filled(incoming_value) {
        return DiffDecision::NoIncomingValue;
    }
    let has_current = opt_str_filled(current_value);
    let key = field.key();
    let user_set = is_user_pinned(provenance, &key, Ghost(field));
    if user_set && !args.override_user_edits {
        return DiffDecision::BlockedByUser;
    }
    if !has_current {
        return DiffDecision::WouldFill;
    }
    let cur = trim_str(current_value.unwrap());
    let inc = trim_str(incoming_value.unwrap());
    if chars_eq(&cur, &inc) {
        return DiffDecision::NoChange;
    }
    match args.mode {
        ApplyMode::ReplaceAll => DiffDecision::WouldReplace,
        ApplyMode::FillMissing => DiffDecision::SkippedFillMissingHasValue,
    }
}

/// The preview agrees with the apply step. For a field the selection
/// lets through and a candidate value that is present: the preview shows
/// a change only where Apply writes, Apply writes wherever the preview
/// shows a change or the value is already the same, and the preview
/// blocks exactly the user pins that Apply keeps.
pub proof fn lemma_preview_matches_apply(
    current: Option<Seq<char>>,
    incoming: Option<Seq<char>>,
    prov: ProvenanceMap,
    f: MetadataField,
    args: ApplyArgs,
)
    requires
        filled(incoming),
        key_selected(args, field_key(f)),
    ensures
        changes(classify_spec(current, incoming, prov, f, args)) ==> apply_decision(
            filled(current),
            prov,
            f,
            args,
        ),
        apply_decision(filled(current), prov, f, args) ==> changes(
            classify_spec(current, incoming, prov, f, args),
        ) || classify_spec(current, incoming, prov, f, args) == DiffDecision::NoChange,
        (classify_spec(current, incoming, prov, f, args) == DiffDecision::BlockedByUser) <==> (
        user_pinned(prov, f) && !args.override_user_edits),
{
}


// ───────── provenance to stamp ─────────

/// The `set_by` and source external id a field's write is stamped with.
#[derive(Clone, Debug)]
pub struct ProvSource {
    pub set_by: SetBy,
    pub source_ext: Option<String>,
}

fn copy_prov(p: &ProvSource) -> (r: ProvSource)
    ensures
        r == *p,
{
    ProvSource { set_by: p.set_by, source_ext: clone_opt_string(&p.source_ext) }
}

/// Which provenance each field is stamped with: one source for every
/// field, or a per-field map (composite applies) with a fallback.
pub enum ProvResolver<'a> {
    Uniform(ProvSource),
    PerField { map: &'a Vec<(String, ProvSource)>, fallback: ProvSource },
}

impl<'a> ProvResolver<'a> {
    pub open spec fn resolved(&self, key: Seq<char>) -> ProvSource {
        match *self {
            ProvResolver::Uniform(p) => p,
            ProvResolver::PerField { map, fallback } => match first_match(map@, key) {
                Some(p) => p,
                None => fallback,
            },
        }
    }

    pub open spec fn primary_source(&self) -> ProvSource {
        match *self {
            ProvResolver::Uniform(p) => p,
            ProvResolver::PerField { map, fallback } => fallback,
        }
    }

    /// The provenance for the field `field_key`.
    pub fn resolve(&self, field_key: &str) -> (r: ProvSource)
        ensures
            r == self.resolved(field_key@),
    {
        match self {
            ProvResolver::Uniform(p) => copy_prov(p),
            ProvResolver::PerField { map, fallback } => match find_key(*map, field_key) {
                Some(i) => copy_prov(&map[i].1),
                None => copy_prov(fallback),
            },
        }
    }

    pub fn set_by(&self, field_key: &str) -> (r: SetBy)
        ensures
            r == self.resolved(field_key@).set_by,
    {
        self.resolve(field_key).set_by
    }

    pub fn source_ext(&self, field_key: &str) -> (r: Option<String>)
        ensures
            r == self.resolved(field_key@).source_ext,
    {
        self.resolve(field_key).source_ext
    }

    /// The provenance of writes not keyed by one field (the external-id
    /// batch): the single source, or the fallback of a per-field map. A
    /// uniform resolver stamps every field with it.
    pub fn primary(&self) -> (r: ProvSource)
        ensures
            r == self.primary_source(),
            self is Uniform ==> forall|k: Seq<char>| #[trigger] self.resolved(k) == r,
    {
        match self {
            ProvResolver::Uniform(p) => copy_prov(p),
            ProvResolver::PerField { fallback, .. } => copy_prov(fallback),
        }
    }
}

// ───────── outcome ─────────

#[derive(Clone, Debug)]
pub struct ExternalIdAdded {
    pub source: String,
    pub external_id: String,
}

#[derive(Clone, Debug)]
pub struct ExternalIdSkipped {
    pub source: String,
    pub external_id: String,
    pub reason: String,
}

/// What one apply did.
#[derive(Clone, Debug)]
pub struct ApplyOutcome {
    pub applied_fields: Vec<String>,
    pub skipped_fields: Vec<String>,
    pub external_ids_added: Vec<ExternalIdAdded>,
    pub external_ids_skipped: Vec<ExternalIdSkipped>,
    pub junctions_touched: Vec<String>,
    pub cover_replaced: bool,
    pub cover_skipped_reason: Option<String>,
    /// The apply queued a sidecar rewrite in place of direct row writes.
    pub enqueued_rewrite: bool,
    /// Field keys where the user's pinned value was kept over the offer.
    pub suppressed_user_pins: Vec<String>,
    /// Issue sidecars rewritten by a series-scope apply.
    pub composed_sidecars: u32,
    /// Per-issue reasons a series-scope sidecar rewrite skipped an issue.
    pub sidecar_skip_reasons: Vec<String>,
    /// Variant cover rows stored.
    pub variants_written: u32,
}

impl Default for ApplyOutcome {
    fn default() -> (r: Self)
        ensures
            r.applied_fields@.len() == 0,
            r.skipped_fields@.len() == 0,
            r.external_ids_added@.len() == 0,
            r.external_ids_skipped@.len() == 0,
            r.junctions_touched@.len() == 0,
            !r.cover_replaced,
            r.cover_skipped_reason is None,
            !r.enqueued_rewrite,
            r.suppressed_user_pins@.len() == 0,
            r.composed_sidecars == 0,
            r.sidecar_skip_reasons@.len() == 0,
            r.variants_written == 0,
    {
        ApplyOutcome {
            applied_fields: Vec::new(),
            skipped_fields: Vec::new(),
            external_ids_added: Vec::new(),
            external_ids_skipped: Vec::new(),
            junctions_touched: Vec::new(),
            cover_replaced: false,
            cover_skipped_reason: None,
            enqueued_rewrite: false,
            suppressed_user_pins: Vec::new(),
            composed_sidecars: 0,
            sidecar_skip_reasons: Vec::new(),
            variants_written: 0,
        }
    }
}

/// Counters left out of a serialised outcome when they are zero.
pub fn is_zero_u32(n: &u32) -> (r: bool)
    ensures
        r == (*n == 0),
{
    *n == 0
}

/// The outcome changed as recording `key` as applied (or skipped)
/// changes it, and in no other way.
pub open spec fn recorded(old: ApplyOutcome, new: ApplyOutcome, key: Seq<char>, applied: bool) -> bool {
    &&& string_views(new.applied_fields@) == (if applied {
        string_views(old.applied_fields@).push(key)
    } else {
        string_views(old.applied_fields@)
    })
    &&& string_views(new.skipped_fields@) == (if applied {
        string_views(old.skipped_fields@)
    } else {
        string_views(old.skipped_fields@).push(key)
    })
    &&& new.external_ids_added == old.external_ids_added
    &&& new.external_ids_skipped == old.external_ids_skipped
    &&& new.junctions_touched == old.junctions_touched
    &&& new.cover_replaced == old.cover_replaced
    &&& new.cover_skipped_reason == old.cover_skipped_reason
    &&& new.enqueued_rewrite == old.enqueued_rewrite
    &&& new.suppressed_user_pins == old.suppressed_user_pins
    &&& new.composed_sidecars == old.composed_sidecars
    &&& new.sidecar_skip_reasons == old.sidecar_skip_reasons
    &&& new.variants_written == old.variants_written
}

fn push_key(v: &mut Vec<String>, key: String)
    ensures
        string_views(final(v)@) == string_views(old(v)@).push(key@),
{
    let ghost before = string_views(v@);
    v.push(key);
    assert(string_views(v@) =~= before.push(key@));
}

/// Decide one field and record it as applied or skipped; the caller
/// writes the value when `true` comes back.
pub fn decide_scalar(
    db_has: bool,
    provenance: &ProvenanceMap,
    field: MetadataField,
    args: &ApplyArgs,
    outcome: &mut ApplyOutcome,
) -> (r: bool)
    ensures
        r == apply_decision(db_has, *provenance, field, *args),
        recorded(*old(outcome), *final(outcome), field_key(field), r),
{
    let r = should_apply(db_has, provenance, field, args);
    if r {
        push_key(&mut outcome.applied_fields, field.key());
    } else {
        push_key(&mut outcome.skipped_fields, field.key());
    }
    r
}

/// A text field: nothing happens when the candidate's value is absent or
/// blank; otherwise the field is decided against whether the local value
/// is filled, and the candidate's value comes back when it is to be
/// written.
pub fn decide_str(
    current: &Option<String>,
    incoming: &Option<String>,
    field: MetadataField,
    provenance: &ProvenanceMap,
    args: &ApplyArgs,
    outcome: &mut ApplyOutcome,
) -> (r: Option<String>)
    ensures
        !filled(opt_view(*incoming)) ==> r is None && *final(outcome) == *old(outcome),
        filled(opt_view(*incoming)) ==> recorded(
            *old(outcome),
            *final(outcome),
            field_key(field),
            apply_decision(filled(opt_view(*current)), *provenance, field, *args),
        ),
        r == (if filled(opt_view(*incoming)) && apply_decision(
            filled(opt_view(*current)),
            *provenance,
            field,
            *args,
        ) {
            *incoming
        } else {
            None
        }),
{
    if !opt_filled(incoming) {
        return None;
    }
    let has = opt_filled(current);
    if decide_scalar(has, provenance, field, args, outcome) {
        clone_opt_string(incoming)
    } else {
        None
    }
}

/// A value field (number, date, price): nothing happens when the
/// candidate has none; otherwise it is decided against whether the local
/// value is present.
pub fn decide_value<T: Copy>(
    current: Option<T>,
    incoming: Option<T>,
    field: MetadataField,
    provenance: &ProvenanceMap,
    args: &ApplyArgs,
    outcome: &mut ApplyOutcome,
) -> (r: Option<T>)
    ensures
        incoming is None ==> r is None && *final(outcome) == *old(outcome),
        incoming is Some ==> recorded(
            *old(outcome),
            *final(outcome),
            field_key(field),
            apply_decision(current is Some, *provenance, field, *args),
        ),
        r == (if incoming is Some && apply_decision(current is Some, *provenance, field, *args) {
            incoming
        } else {
            None
        }),
{
    match incoming {
        None => None,
        Some(v) => {
            if decide_scalar(current.is_some(), provenance, field, args, outcome) {
                Some(v)
            } else {
                None
            }
        },
    }
}


// ───────── plans ─────────

/// One field of a plan: the field, whether the candidate offers a value,
/// and whether the local value is present.
pub type Step = (MetadataField, bool, bool);

pub open spec fn step_applies(st: Step, prov: ProvenanceMap, args: ApplyArgs) -> bool {
    st.1 && apply_decision(st.2, prov, st.0, args)
}

pub open spec fn step_skips(st: Step, prov: ProvenanceMap, args: ApplyArgs) -> bool {
    st.1 && !apply_decision(st.2, prov, st.0, args)
}

/// The keys of the steps that write, in order.
pub open spec fn applied_keys(steps: Seq<Step>, prov: ProvenanceMap, args: ApplyArgs) -> Seq<
    Seq<char>,
>
    decreases steps.len(),
{
    if steps.len() == 0 {
        Seq::empty()
    } else {
        applied_keys(steps.drop_last(), prov, args) + if step_applies(steps.last(), prov, args) {
            seq![field_key(steps.last().0)]
        } else {
            Seq::empty()
        }
    }
}

/// The keys of the steps that are offered a value and skip it, in order.
pub open spec fn skipped_keys(steps: Seq<Step>, prov: ProvenanceMap, args: ApplyArgs) -> Seq<
    Seq<char>,
>
    decreases steps.len(),
{
    if steps.len() == 0 {
        Seq::empty()
    } else {
        skipped_keys(steps.drop_last(), prov, args) + if step_skips(steps.last(), prov, args) {
            seq![field_key(steps.last().0)]
        } else {
            Seq::empty()
        }
    }
}

/// The outcome after a plan ran: the written keys appended to the applied
/// list (and, for junctions, to the touched list), the declined ones to
/// the skipped list, everything else as it was.
pub open spec fn planned(
    old: ApplyOutcome,
    new: ApplyOutcome,
    steps: Seq<Step>,
    prov: ProvenanceMap,
    args: ApplyArgs,
    touch: bool,
) -> bool {
    &&& string_views(new.applied_fields@) == string_views(old.applied_fields@) + applied_keys(
        steps,
        prov,
        args,
    )
    &&& string_views(new.skipped_fields@) == string_views(old.skipped_fields@) + skipped_keys(
        steps,
        prov,
        args,
    )
    &&& (if touch {
        string_views(new.junctions_touched@) == string_views(old.junctions_touched@)
            + applied_keys(steps, prov, args)
    } else {
        new.junctions_touched == old.junctions_touched
    })
    &&& new.external_ids_added == old.external_ids_added
    &&& new.external_ids_skipped == old.external_ids_skipped
    &&& new.cover_replaced == old.cover_replaced
    &&& new.cover_skipped_reason == old.cover_skipped_reason
    &&& new.enqueued_rewrite == old.enqueued_rewrite
    &&& new.suppressed_user_pins == old.suppressed_user_pins
    &&& new.composed_sidecars == old.composed_sidecars
    &&& new.sidecar_skip_reasons == old.sidecar_skip_reasons
    &&& new.variants_written == old.variants_written
}

proof fn lemma_keys_step(steps: Seq<Step>, k: int, prov: ProvenanceMap, args: ApplyArgs)
    requires
        0 <= k < steps.len(),
    ensures
        applied_keys(steps.take(k + 1), prov, args) == applied_keys(steps.take(k), prov, args) + if step_applies(
            steps[k],
            prov,
            args,
        ) {
            seq![field_key(steps[k].0)]
        } else {
            Seq::empty()
        },
        skipped_keys(steps.take(k + 1), prov, args) == skipped_keys(steps.take(k), prov, args) + if step_skips(
            steps[k],
            prov,
            args,
        ) {
            seq![field_key(steps[k].0)]
        } else {
            Seq::empty()
        },
{
    assert(steps.take(k + 1).drop_last() =~= steps.take(k));
    assert(steps.take(k + 1).last() == steps[k]);
}

/// Decide every step in order, recording each offered field as applied
/// or skipped (and, with `touch`, each written one as a touched
/// junction); the decision of each step comes back.
pub fn run_steps(
    steps: &Vec<Step>,
    provenance: &ProvenanceMap,
    args: &ApplyArgs,
    touch: bool,
    outcome: &mut ApplyOutcome,
) -> (r: Vec<bool>)
    ensures
        r@.len() == steps@.len(),
        forall|i: int| 0 <= i < steps@.len() ==> r@[i] == step_applies(steps@[i], *provenance, *args),
        planned(*old(outcome), *final(outcome), steps@, *provenance, *args, touch),
{
    let ghost o0 = *outcome;
    let mut r: Vec<bool> = Vec::new();
    let mut i: usize = 0;
    assert(steps@.take(0) =~= Seq::<Step>::empty());
    assert(string_views(o0.applied_fields@) + Seq::<Seq<char>>::empty() =~= string_views(
        o0.applied_fields@,
    ));
    assert(string_views(o0.skipped_fields@) + Seq::<Seq<char>>::empty() =~= string_views(
        o0.skipped_fields@,
    ));
    assert(string_views(o0.junctions_touched@) + Seq::<Seq<char>>::empty() =~= string_views(
        o0.junctions_touched@,
    ));
    while i < steps.len()
        invariant
            i <= steps@.len(),
            r@.len() == i,
            forall|j: int| 0 <= j < i ==> r@[j] == step_applies(steps@[j], *provenance, *args),
            planned(o0, *outcome, steps@.take(i as int), *provenance, *args, touch),
        decreases steps@.len() - i,
    {
        let st = steps[i];
        let ghost before = *outcome;
        proof {
            lemma_keys_step(steps@, i as int, *provenance, *args);
        }
        if st.1 {
            let d = decide_scalar(st.2, provenance, st.0, args, outcome);
            if d && touch {
                push_key(&mut outcome.junctions_touched, st.0.key());
            }
            r.push(d);
            let ghost k = field_key(st.0);
            assert(string_views(outcome.applied_fields@) =~= string_views(o0.applied_fields@)
                + applied_keys(steps@.take(i + 1), *provenance, *args));
            assert(string_views(outcome.skipped_fields@) =~= string_views(o0.skipped_fields@)
                + skipped_keys(steps@.take(i + 1), *provenance, *args));
            if touch {
                assert(string_views(outcome.junctions_touched@) =~= string_views(
                    o0.junctions_touched@,
                ) + applied_keys(steps@.take(i + 1), *provenance, *args));
            }
        } else {
            r.push(false);
            assert(applied_keys(steps@.take(i + 1), *provenance, *args) =~= applied_keys(
                steps@.take(i as int),
                *provenance,
                *args,
            ));
            assert(skipped_keys(steps@.take(i + 1), *provenance, *args) =~= skipped_keys(
                steps@.take(i as int),
                *provenance,
                *args,
            ));
        }
        i = i + 1;
    }
    assert(steps@.take(steps@.len() as int) =~= steps@);
    r
}


// ───────── series ─────────

/// The local series values the apply step reads. `aliases` is the JSON
/// array of the row, `None` when the column holds anything else.
#[derive(Clone, Debug)]
pub struct SeriesRow {
    pub name: String,
    pub sort_name: Option<String>,
    pub series_type: Option<String>,
    pub year: Option<i32>,
    pub year_end: Option<i32>,
    pub volume: Option<i32>,
    pub publisher: Option<String>,
    pub imprint: Option<String>,
    pub deck: Option<String>,
    pub summary: Option<String>,
    pub aliases: Option<Vec<String>>,
}

/// The series columns an apply writes; `None` leaves a column alone.
#[derive(Clone, Debug)]
pub struct SeriesUpdates {
    pub name: Option<String>,
    pub sort_name: Option<String>,
    pub series_type: Option<String>,
    pub year: Option<i32>,
    pub year_end: Option<i32>,
    pub volume: Option<i32>,
    pub publisher: Option<String>,
    pub imprint: Option<String>,
    pub deck: Option<String>,
    pub summary: Option<String>,
    pub aliases: Option<Vec<String>>,
}

impl SeriesUpdates {
    pub fn is_noop(&self) -> (r: bool)
        ensures
            r == (self.name is None && self.sort_name is None && self.series_type is None
                && self.year is None && self.year_end is None && self.volume is None
                && self.publisher is None && self.imprint is None && self.deck is None
                && self.summary is None && self.aliases is None),
    {
        self.name.is_none() && self.sort_name.is_none() && self.series_type.is_none()
            && self.year.is_none() && self.year_end.is_none() && self.volume.is_none()
            && self.publisher.is_none() && self.imprint.is_none() && self.deck.is_none()
            && self.summary.is_none() && self.aliases.is_none()
    }
}

pub open spec fn aliases_present(a: Option<Vec<String>>) -> bool {
    match a {
        Some(v) => v@.len() > 0,
        None => false,
    }
}

/// Steps from a field list and, per field, whether the candidate offers a
/// value and whether the local one is present.
pub open spec fn zip_steps(fields: Seq<MetadataField>, offered: Seq<bool>, present: Seq<bool>) -> Seq<
    Step,
> {
    Seq::new(fields.len(), |i: int| (fields[i], offered[i], present[i]))
}

fn zip_steps_of(fields: Vec<MetadataField>, offered: Vec<bool>, present: Vec<bool>) -> (r: Vec<Step>)
    requires
        offered@.len() == fields@.len(),
        present@.len() == fields@.len(),
    ensures
        r@ == zip_steps(fields@, offered@, present@),
{
    let mut r: Vec<Step> = Vec::new();
    let mut i: usize = 0;
    while i < fields.len()
        invariant
            i <= fields@.len(),
            offered@.len() == fields@.len(),
            present@.len() == fields@.len(),
            r@ == zip_steps(fields@, offered@, present@).take(i as int),
        decreases fields@.len() - i,
    {
        r.push((fields[i], offered[i], present[i]));
        i = i + 1;
        assert(r@ =~= zip_steps(fields@, offered@, present@).take(i as int));
    }
    assert(zip_steps(fields@, offered@, present@).take(fields@.len() as int) =~= zip_steps(
        fields@,
        offered@,
        present@,
    ));
    r
}

/// The series fields in the order the apply step walks them.
pub open spec fn series_fields() -> Seq<MetadataField> {
    seq![
        MetadataField::Title,
        MetadataField::SortName,
        MetadataField::SeriesType,
        MetadataField::YearBegan,
        MetadataField::YearEnd,
        MetadataField::Volume,
        MetadataField::Publisher,
        MetadataField::Imprint,
        MetadataField::Deck,
        MetadataField::Description,
        MetadataField::Aliases,
    ]
}

/// Per series field, the candidate offers a value (text that is not blank,
/// a number, a non-empty alias list).
pub open spec fn series_offered(d: GenericMetadata) -> Seq<bool> {
    seq![
        has_text(d.series_name),
        has_text(d.series_sort_name),
        has_text(d.series_type),
        d.year_began is Some,
        d.year_end is Some,
        d.volume is Some,
        has_text(d.publisher),
        has_text(d.imprint),
        has_text(d.deck),
        has_text(d.description),
        d.aliases@.len() > 0,
    ]
}

/// Per series field, the local row holds a value.
pub open spec fn series_present(row: SeriesRow) -> Seq<bool> {
    seq![
        nonblank(row.name@),
        has_text(row.sort_name),
        has_text(row.series_type),
        row.year is Some,
        row.year_end is Some,
        row.volume is Some,
        has_text(row.publisher),
        has_text(row.imprint),
        has_text(row.deck),
        has_text(row.summary),
        aliases_present(row.aliases),
    ]
}

pub open spec fn series_steps(row: SeriesRow, d: GenericMetadata) -> Seq<Step> {
    zip_steps(series_fields(), series_offered(d), series_present(row))
}

fn series_fields_of() -> (r: Vec<MetadataField>)
    ensures
        r@ == series_fields(),
{
    let r = vec![
        MetadataField::Title,
        MetadataField::SortName,
        MetadataField::SeriesType,
        MetadataField::YearBegan,
        MetadataField::YearEnd,
        MetadataField::Volume,
        MetadataField::Publisher,
        MetadataField::Imprint,
        MetadataField::Deck,
        MetadataField::Description,
        MetadataField::Aliases,
    ];
    assert(r@ =~= series_fields());
    r
}

fn series_offered_of(d: &GenericMetadata) -> (r: Vec<bool>)
    ensures
        r@ == series_offered(*d),
{
    let r = vec![
        text_present(&d.series_name),
        text_present(&d.series_sort_name),
        text_present(&d.series_type),
        d.year_began.is_some(),
        d.year_end.is_some(),
        d.volume.is_some(),
        text_present(&d.publisher),
        text_present(&d.imprint),
        text_present(&d.deck),
        text_present(&d.description),
        d.aliases.len() > 0,
    ];
    assert(r@ =~= series_offered(*d));
    r
}

fn series_present_of(row: &SeriesRow) -> (r: Vec<bool>)
    ensures
        r@ == series_present(*row),
{
    let h10 = match &row.aliases {
        Some(a) => a.len() > 0,
        None => false,
    };
    let r = vec![
        str_nonblank(row.name.as_str()),
        text_present(&row.sort_name),
        text_present(&row.series_type),
        row.year.is_some(),
        row.year_end.is_some(),
        row.volume.is_some(),
        text_present(&row.publisher),
        text_present(&row.imprint),
        text_present(&row.deck),
        text_present(&row.summary),
        h10,
    ];
    assert(r@ =~= series_present(*row));
    r
}

fn series_steps_of(row: &SeriesRow, detail: &GenericMetadata) -> (r: Vec<Step>)
    ensures
        r@ == series_steps(*row, *detail),
        r@.len() == 11,
{
    let f = series_fields_of();
    let o = series_offered_of(detail);
    let p = series_present_of(row);
    zip_steps_of(f, o, p)
}

/// The candidate's value when its step writes.
fn pick(on: bool, v: &Option<String>) -> (p: Option<String>)
    ensures
        p == (if on { *v } else { None }),
{
    if on {
        clone_opt_string(v)
    } else {
        None
    }
}

/// What a single-candidate or composite apply writes to a series: each
/// offered field is decided by the matrix in walk order and recorded in
/// the outcome; the chosen values come back as updates.
#[verifier::spinoff_prover]
pub fn plan_series_updates(
    row: &SeriesRow,
    detail: &GenericMetadata,
    provenance: &ProvenanceMap,
    args: &ApplyArgs,
    outcome: &mut ApplyOutcome,
) -> (r: SeriesUpdates)
    ensures
        planned(*old(outcome), *final(outcome), series_steps(*row, *detail), *provenance, *args, false),
        ({
            let st = series_steps(*row, *detail);
            let on = |i: int| step_applies(st[i], *provenance, *args);
            &&& r.name == (if on(0) { detail.series_name } else { None })
            &&& r.sort_name == (if on(1) { detail.series_sort_name } else { None })
            &&& r.series_type == (if on(2) { detail.series_type } else { None })
            &&& r.year == (if on(3) { detail.year_began } else { None })
            &&& r.year_end == (if on(4) { detail.year_end } else { None })
            &&& r.volume == (if on(5) { detail.volume } else { None })
            &&& r.publisher == (if on(6) { detail.publisher } else { None })
            &&& r.imprint == (if on(7) { detail.imprint } else { None })
            &&& r.deck == (if on(8) { detail.deck } else { None })
            &&& r.summary == (if on(9) { detail.description } else { None })
            &&& (if on(10) { r.aliases matches Some(a) && a@ == detail.aliases@ } else { r.aliases is None })
        }),
{
    let steps = series_steps_of(row, detail);
    let d = run_steps(&steps, provenance, args, false, outcome);
    let name = pick(d[0], &detail.series_name);
    let sort_name = pick(d[1], &detail.series_sort_name);
    let series_type = pick(d[2], &detail.series_type);
    let year = if d[3] { detail.year_began } else { None };
    let year_end = if d[4] { detail.year_end } else { None };
    let volume = if d[5] { detail.volume } else { None };
    let publisher = pick(d[6], &detail.publisher);
    let imprint = pick(d[7], &detail.imprint);
    let deck = pick(d[8], &detail.deck);
    let summary = pick(d[9], &detail.description);
    let aliases = if d[10] { Some(clone_strings(&detail.aliases)) } else { None };
    SeriesUpdates {
        name,
        sort_name,
        series_type,
        year,
        year_end,
        volume,
        publisher,
        imprint,
        deck,
        summary,
        aliases,
    }
}


/// A field may be written at all: it is selected and no user pin holds
/// it (or user pins are overridden).
pub open spec fn may_write(prov: ProvenanceMap, f: MetadataField, args: ApplyArgs) -> bool {
    key_selected(args, field_key(f)) && !(user_pinned(prov, f) && !args.override_user_edits)
}

/// Fill-missing on a series writes a column exactly when the local column
/// is empty, the provider offers a value and the field may be written; a
/// column that holds a value is never overwritten. Each step is the field
/// it writes, read against the local column of that same field.
pub proof fn lemma_series_fill_missing(
    row: SeriesRow,
    d: GenericMetadata,
    prov: ProvenanceMap,
    args: ApplyArgs,
)
    requires
        args.mode == ApplyMode::FillMissing,
    ensures
        ({
            let st = series_steps(row, d);
            let w = |i: int| step_applies(st[i], prov, args);
            &&& st.len() == 11
            &&& w(0) == (!nonblank(row.name@) && has_text(d.series_name) && may_write(
                prov,
                MetadataField::Title,
                args,
            ))
            &&& w(1) == (!has_text(row.sort_name) && has_text(d.series_sort_name) && may_write(
                prov,
                MetadataField::SortName,
                args,
            ))
            &&& w(2) == (!has_text(row.series_type) && has_text(d.series_type) && may_write(
                prov,
                MetadataField::SeriesType,
                args,
            ))
            &&& w(3) == (row.year is None && d.year_began is Some && may_write(
                prov,
                MetadataField::YearBegan,
                args,
            ))
            &&& w(4) == (row.year_end is None && d.year_end is Some && may_write(
                prov,
                MetadataField::YearEnd,
                args,
            ))
            &&& w(5) == (row.volume is None && d.volume is Some && may_write(
                prov,
                MetadataField::Volume,
                args,
            ))
            &&& w(6) == (!has_text(row.publisher) && has_text(d.publisher) && may_write(
                prov,
                MetadataField::Publisher,
                args,
            ))
            &&& w(7) == (!has_text(row.imprint) && has_text(d.imprint) && may_write(
                prov,
                MetadataField::Imprint,
                args,
            ))
            &&& w(8) == (!has_text(row.deck) && has_text(d.deck) && may_write(
                prov,
                MetadataField::Deck,
                args,
            ))
            &&& w(9) == (!has_text(row.summary) && has_text(d.description) && may_write(
                prov,
                MetadataField::Description,
                args,
            ))
            &&& w(10) == (!aliases_present(row.aliases) && d.aliases@.len() > 0 && may_write(
                prov,
                MetadataField::Aliases,
                args,
            ))
        }),
{
}

/// Replace-all on a series writes every column the provider offers a
/// value for and that may be written, whatever the local column holds.
pub proof fn lemma_series_replace_all(
    row: SeriesRow,
    d: GenericMetadata,
    prov: ProvenanceMap,
    args: ApplyArgs,
)
    requires
        args.mode == ApplyMode::ReplaceAll,
    ensures
        ({
            let st = series_steps(row, d);
            let w = |i: int| step_applies(st[i], prov, args);
            &&& w(0) == (has_text(d.series_name) && may_write(prov, MetadataField::Title, args))
            &&& w(1) == (has_text(d.series_sort_name) && may_write(prov, MetadataField::SortName, args))
            &&& w(2) == (has_text(d.series_type) && may_write(prov, MetadataField::SeriesType, args))
            &&& w(3) == (d.year_began is Some && may_write(prov, MetadataField::YearBegan, args))
            &&& w(4) == (d.year_end is Some && may_write(prov, MetadataField::YearEnd, args))
            &&& w(5) == (d.volume is Some && may_write(prov, MetadataField::Volume, args))
            &&& w(6) == (has_text(d.publisher) && may_write(prov, MetadataField::Publisher, args))
            &&& w(7) == (has_text(d.imprint) && may_write(prov, MetadataField::Imprint, args))
            &&& w(8) == (has_text(d.deck) && may_write(prov, MetadataField::Deck, args))
            &&& w(9) == (has_text(d.description) && may_write(prov, MetadataField::Description, args))
            &&& w(10) == (d.aliases@.len() > 0 && may_write(prov, MetadataField::Aliases, args))
        }),
{
}

// ───────── issues ─────────

/// The local issue values the apply step reads. The price is the bit
/// pattern of its `f64`.
#[derive(Clone, Debug)]
pub struct IssueRow {
    pub title: Option<String>,
    pub number_raw: Option<String>,
    pub year: Option<i32>,
    pub month: Option<i32>,
    pub day: Option<i32>,
    pub store_date: Option<CalendarDate>,
    pub foc_date: Option<CalendarDate>,
    pub deck: Option<String>,
    pub summary: Option<String>,
    pub age_rating: Option<String>,
    pub page_count: Option<i32>,
    pub sku: Option<String>,
    pub price_bits: Option<u64>,
    pub writer: Option<String>,
    pub penciller: Option<String>,
    pub inker: Option<String>,
    pub colorist: Option<String>,
    pub letterer: Option<String>,
    pub cover_artist: Option<String>,
    pub editor: Option<String>,
    pub translator: Option<String>,
    pub characters: Option<String>,
    pub teams: Option<String>,
    pub locations: Option<String>,
    pub story_arc: Option<String>,
    pub tags: Option<String>,
    pub genre: Option<String>,
}

/// The issue columns an apply writes; `None` leaves a column alone.
#[derive(Clone, Debug)]
pub struct IssueUpdates {
    pub title: Option<String>,
    pub number_raw: Option<String>,
    pub cover_date: Option<CalendarDate>,
    pub store_date: Option<CalendarDate>,
    pub foc_date: Option<CalendarDate>,
    pub deck: Option<String>,
    pub summary: Option<String>,
    pub age_rating: Option<String>,
    pub page_count: Option<i32>,
    pub sku: Option<String>,
    pub price_bits: Option<u64>,
}

impl IssueUpdates {
    pub fn is_noop(&self) -> (r: bool)
        ensures
            r == (self.title is None && self.number_raw is None && self.cover_date is None
                && self.store_date is None && self.foc_date is None && self.deck is None
                && self.summary is None && self.age_rating is None && self.page_count is None
                && self.sku is None && self.price_bits is None),
    {
        self.title.is_none() && self.number_raw.is_none() && self.cover_date.is_none()
            && self.store_date.is_none() && self.foc_date.is_none() && self.deck.is_none()
            && self.summary.is_none() && self.age_rating.is_none() && self.page_count.is_none()
            && self.sku.is_none() && self.price_bits.is_none()
    }
}

/// Any of the eight per-role credit columns holds text.
pub open spec fn has_credits(row: IssueRow) -> bool {
    has_text(row.writer) || has_text(row.penciller) || has_text(row.inker) || has_text(
        row.colorist,
    ) || has_text(row.letterer) || has_text(row.cover_artist) || has_text(row.editor) || has_text(
        row.translator,
    )
}

pub fn issue_row_has_credits(row: &IssueRow) -> (r: bool)
    ensures
        r == has_credits(*row),
{
    text_present(&row.writer) || text_present(&row.penciller) || text_present(&row.inker)
        || text_present(&row.colorist) || text_present(&row.letterer) || text_present(
        &row.cover_artist,
    ) || text_present(&row.editor) || text_present(&row.translator)
}

/// The row's year, month and day make a calendar date.
pub open spec fn row_has_cover_date(row: IssueRow) -> bool {
    match (row.year, row.month, row.day) {
        (Some(y), Some(m), Some(d)) => 1 <= m && 1 <= d && valid_ymd(y, m as u32, d as u32),
        _ => false,
    }
}

fn cover_date_present(row: &IssueRow) -> (r: bool)
    ensures
        r == row_has_cover_date(*row),
{
    match (row.year, row.month, row.day) {
        (Some(y), Some(m), Some(d)) => {
            if m >= 1 && d >= 1 {
                date_exists(y, m as u32, d as u32)
            } else {
                false
            }
        },
        _ => false,
    }
}

pub open spec fn issue_fields() -> Seq<MetadataField> {
    seq![
        MetadataField::Title,
        MetadataField::Format,
        MetadataField::CoverDate,
        MetadataField::StoreDate,
        MetadataField::FocDate,
        MetadataField::Deck,
        MetadataField::Description,
        MetadataField::AgeRating,
        MetadataField::PageCount,
        MetadataField::Sku,
        MetadataField::Price,
    ]
}

pub open spec fn issue_offered(d: GenericMetadata) -> Seq<bool> {
    seq![
        has_text(d.title),
        has_text(d.issue_number),
        d.cover_date is Some,
        d.store_date is Some,
        d.foc_date is Some,
        has_text(d.deck),
        has_text(d.description),
        has_text(d.age_rating),
        d.page_count is Some,
        has_text(d.sku),
        d.price_bits is Some,
    ]
}

pub open spec fn issue_present(row: IssueRow) -> Seq<bool> {
    seq![
        has_text(row.title),
        has_text(row.number_raw),
        row_has_cover_date(row),
        row.store_date is Some,
        row.foc_date is Some,
        has_text(row.deck),
        has_text(row.summary),
        has_text(row.age_rating),
        row.page_count is Some,
        has_text(row.sku),
        row.price_bits is Some,
    ]
}

/// Fill-missing on an issue writes a column exactly when the local column
/// is empty (for the cover date: no valid year, month and day), the
/// provider offers a value and the field may be written; the issue number
/// is decided under the format key.
pub proof fn lemma_issue_fill_missing(
    row: IssueRow,
    d: GenericMetadata,
    prov: ProvenanceMap,
    args: ApplyArgs,
)
    requires
        args.mode == ApplyMode::FillMissing,
    ensures
        ({
            let st = issue_steps(row, d);
            let w = |i: int| step_applies(st[i], prov, args);
            &&& st.len() == 11
            &&& w(0) == (!has_text(row.title) && has_text(d.title) && may_write(
                prov,
                MetadataField::Title,
                args,
            ))
            &&& w(1) == (!has_text(row.number_raw) && has_text(d.issue_number) && may_write(
                prov,
                MetadataField::Format,
                args,
            ))
            &&& w(2) == (!row_has_cover_date(row) && d.cover_date is Some && may_write(
                prov,
                MetadataField::CoverDate,
                args,
            ))
            &&& w(3) == (row.store_date is None && d.store_date is Some && may_write(
                prov,
                MetadataField::StoreDate,
                args,
            ))
            &&& w(4) == (row.foc_date is None && d.foc_date is Some && may_write(
                prov,
                MetadataField::FocDate,
                args,
            ))
            &&& w(5) == (!has_text(row.deck) && has_text(d.deck) && may_write(
                prov,
                MetadataField::Deck,
                args,
            ))
            &&& w(6) == (!has_text(row.summary) && has_text(d.description) && may_write(
                prov,
                MetadataField::Description,
                args,
            ))
            &&& w(7) == (!has_text(row.age_rating) && has_text(d.age_rating) && may_write(
                prov,
                MetadataField::AgeRating,
                args,
            ))
            &&& w(8) == (row.page_count is None && d.page_count is Some && may_write(
                prov,
                MetadataField::PageCount,
                args,
            ))
            &&& w(9) == (!has_text(row.sku) && has_text(d.sku) && may_write(
                prov,
                MetadataField::Sku,
                args,
            ))
            &&& w(10) == (row.price_bits is None && d.price_bits is Some && may_write(
                prov,
                MetadataField::Price,
                args,
            ))
        }),
{
}

/// Replace-all on an issue writes every column the provider offers a
/// value for and that may be written, whatever the local column holds.
pub proof fn lemma_issue_replace_all(
    row: IssueRow,
    d: GenericMetadata,
    prov: ProvenanceMap,
    args: ApplyArgs,
)
    requires
        args.mode == ApplyMode::ReplaceAll,
    ensures
        ({
            let st = issue_steps(row, d);
            let w = |i: int| step_applies(st[i], prov, args);
            &&& w(0) == (has_text(d.title) && may_write(prov, MetadataField::Title, args))
            &&& w(1) == (has_text(d.issue_number) && may_write(prov, MetadataField::Format, args))
            &&& w(2) == (d.cover_date is Some && may_write(prov, MetadataField::CoverDate, args))
            &&& w(3) == (d.store_date is Some && may_write(prov, MetadataField::StoreDate, args))
            &&& w(4) == (d.foc_date is Some && may_write(prov, MetadataField::FocDate, args))
            &&& w(5) == (has_text(d.deck) && may_write(prov, MetadataField::Deck, args))
            &&& w(6) == (has_text(d.description) && may_write(prov, MetadataField::Description, args))
            &&& w(7) == (has_text(d.age_rating) && may_write(prov, MetadataField::AgeRating, args))
            &&& w(8) == (d.page_count is Some && may_write(prov, MetadataField::PageCount, args))
            &&& w(9) == (has_text(d.sku) && may_write(prov, MetadataField::Sku, args))
            &&& w(10) == (d.price_bits is Some && may_write(prov, MetadataField::Price, args))
        }),
{
}

/// The issue scalar fields in the order the apply step walks them.
pub open spec fn issue_steps(row: IssueRow, d: GenericMetadata) -> Seq<Step> {
    zip_steps(issue_fields(), issue_offered(d), issue_present(row))
}

fn issue_fields_of() -> (r: Vec<MetadataField>)
    ensures
        r@ == issue_fields(),
{
    let f = vec![
        MetadataField::Title,
        MetadataField::Format,
        MetadataField::CoverDate,
        MetadataField::StoreDate,
        MetadataField::FocDate,
        MetadataField::Deck,
        MetadataField::Description,
        MetadataField::AgeRating,
        MetadataField::PageCount,
        MetadataField::Sku,
        MetadataField::Price,
    ];
    assert(f@ =~= issue_fields());
    f
}

fn issue_offered_of(d: &GenericMetadata) -> (r: Vec<bool>)
    ensures
        r@ == issue_offered(*d),
{
    let o = vec![
        text_present(&d.title),
        text_present(&d.issue_number),
        d.cover_date.is_some(),
        d.store_date.is_some(),
        d.foc_date.is_some(),
        text_present(&d.deck),
        text_present(&d.description),
        text_present(&d.age_rating),
        d.page_count.is_some(),
        text_present(&d.sku),
        d.price_bits.is_some(),
    ];
    assert(o@ =~= issue_offered(*d));
    o
}

fn issue_present_of(row: &IssueRow) -> (r: Vec<bool>)
    ensures
        r@ == issue_present(*row),
{
    let cd = cover_date_present(row);
    let p = vec![
        text_present(&row.title),
        text_present(&row.number_raw),
        cd,
        row.store_date.is_some(),
        row.foc_date.is_some(),
        text_present(&row.deck),
        text_present(&row.summary),
        text_present(&row.age_rating),
        row.page_count.is_some(),
        text_present(&row.sku),
        row.price_bits.is_some(),
    ];
    assert(p@ =~= issue_present(*row));
    p
}

fn issue_steps_of(row: &IssueRow, d: &GenericMetadata) -> (r: Vec<Step>)
    ensures
        r@ == issue_steps(*row, *d),
        r@.len() == 11,
{
    let f = issue_fields_of();
    let o = issue_offered_of(d);
    let p = issue_present_of(row);
    zip_steps_of(f, o, p)
}

/// What an apply writes to an issue's own columns: each offered field
/// decided by the matrix in walk order and recorded in the outcome; the
/// chosen values come back as updates.
#[verifier::spinoff_prover]
pub fn plan_issue_updates(
    row: &IssueRow,
    detail: &GenericMetadata,
    provenance: &ProvenanceMap,
    args: &ApplyArgs,
    outcome: &mut ApplyOutcome,
) -> (r: IssueUpdates)
    ensures
        planned(*old(outcome), *final(outcome), issue_steps(*row, *detail), *provenance, *args, false),
        ({
            let st = issue_steps(*row, *detail);
            let on = |i: int| step_applies(st[i], *provenance, *args);
            &&& r.title == (if on(0) { detail.title } else { None })
            &&& r.number_raw == (if on(1) { detail.issue_number } else { None })
            &&& r.cover_date == (if on(2) { detail.cover_date } else { None })
            &&& r.store_date == (if on(3) { detail.store_date } else { None })
            &&& r.foc_date == (if on(4) { detail.foc_date } else { None })
            &&& r.deck == (if on(5) { detail.deck } else { None })
            &&& r.summary == (if on(6) { detail.description } else { None })
            &&& r.age_rating == (if on(7) { detail.age_rating } else { None })
            &&& r.page_count == (if on(8) { detail.page_count } else { None })
            &&& r.sku == (if on(9) { detail.sku } else { None })
            &&& r.price_bits == (if on(10) { detail.price_bits } else { None })
        }),
{
    let steps = issue_steps_of(row, detail);
    let d = run_steps(&steps, provenance, args, false, outcome);
    let title = pick(d[0], &detail.title);
    let number_raw = pick(d[1], &detail.issue_number);
    let cover_date = if d[2] { detail.cover_date } else { None };
    let store_date = if d[3] { detail.store_date } else { None };
    let foc_date = if d[4] { detail.foc_date } else { None };
    let deck = pick(d[5], &detail.deck);
    let summary = pick(d[6], &detail.description);
    let age_rating = pick(d[7], &detail.age_rating);
    let page_count = if d[8] { detail.page_count } else { None };
    let sku = pick(d[9], &detail.sku);
    let price_bits = if d[10] { detail.price_bits } else { None };
    IssueUpdates {
        title,
        number_raw,
        cover_date,
        store_date,
        foc_date,
        deck,
        summary,
        age_rating,
        page_count,
        sku,
        price_bits,
    }
}

// ───────── junctions ─────────

pub open spec fn junction_fields() -> Seq<MetadataField> {
    seq![
        MetadataField::Credits,
        MetadataField::Characters,
        MetadataField::Teams,
        MetadataField::Locations,
        MetadataField::StoryArcs,
    ]
}

pub open spec fn junction_offered(d: GenericMetadata) -> Seq<bool> {
    seq![
        d.credits@.len() > 0,
        d.characters@.len() > 0,
        d.teams@.len() > 0,
        d.locations@.len() > 0,
        d.story_arcs@.len() > 0,
    ]
}

pub open spec fn junction_present(row: IssueRow) -> Seq<bool> {
    seq![
        has_credits(row),
        has_text(row.characters),
        has_text(row.teams),
        has_text(row.locations),
        has_text(row.story_arc),
    ]
}

/// The junction sets in the order the apply step walks them.
pub open spec fn junction_steps(row: IssueRow, d: GenericMetadata) -> Seq<Step> {
    zip_steps(junction_fields(), junction_offered(d), junction_present(row))
}

/// The fields of the steps that write, in order.
pub open spec fn written_fields(steps: Seq<Step>, prov: ProvenanceMap, args: ApplyArgs) -> Seq<
    MetadataField,
>
    decreases steps.len(),
{
    if steps.len() == 0 {
        Seq::empty()
    } else {
        written_fields(steps.drop_last(), prov, args) + if step_applies(steps.last(), prov, args) {
            seq![steps.last().0]
        } else {
            Seq::empty()
        }
    }
}

/// Fill-missing rewrites a junction set of an issue exactly when the
/// issue's own column for that set is empty (for credits: every per-role
/// column), the provider offers at least one item and the field may be
/// written.
pub proof fn lemma_junction_fill_missing(
    row: IssueRow,
    d: GenericMetadata,
    prov: ProvenanceMap,
    args: ApplyArgs,
)
    requires
        args.mode == ApplyMode::FillMissing,
    ensures
        ({
            let st = junction_steps(row, d);
            let w = |i: int| step_applies(st[i], prov, args);
            &&& st.len() == 5
            &&& w(0) == (!has_credits(row) && d.credits@.len() > 0 && may_write(
                prov,
                MetadataField::Credits,
                args,
            ))
            &&& w(1) == (!has_text(row.characters) && d.characters@.len() > 0 && may_write(
                prov,
                MetadataField::Characters,
                args,
            ))
            &&& w(2) == (!has_text(row.teams) && d.teams@.len() > 0 && may_write(
                prov,
                MetadataField::Teams,
                args,
            ))
            &&& w(3) == (!has_text(row.locations) && d.locations@.len() > 0 && may_write(
                prov,
                MetadataField::Locations,
                args,
            ))
            &&& w(4) == (!has_text(row.story_arc) && d.story_arcs@.len() > 0 && may_write(
                prov,
                MetadataField::StoryArcs,
                args,
            ))
        }),
{
}

/// The junction sets an apply rewrites for an issue, in walk order; the
/// outcome records each offered set as applied (and touched) or skipped.
pub fn plan_issue_junctions(
    row: &IssueRow,
    detail: &GenericMetadata,
    provenance: &ProvenanceMap,
    args: &ApplyArgs,
    outcome: &mut ApplyOutcome,
) -> (r: Vec<MetadataField>)
    ensures
        planned(*old(outcome), *final(outcome), junction_steps(*row, *detail), *provenance, *args, true),
        r@ == written_fields(junction_steps(*row, *detail), *provenance, *args),
{
    let f = vec![
        MetadataField::Credits,
        MetadataField::Characters,
        MetadataField::Teams,
        MetadataField::Locations,
        MetadataField::StoryArcs,
    ];
    assert(f@ =~= junction_fields());
    let o = vec![
        detail.credits.len() > 0,
        detail.characters.len() > 0,
        detail.teams.len() > 0,
        detail.locations.len() > 0,
        detail.story_arcs.len() > 0,
    ];
    assert(o@ =~= junction_offered(*detail));
    let p = vec![
        issue_row_has_credits(row),
        text_present(&row.characters),
        text_present(&row.teams),
        text_present(&row.locations),
        text_present(&row.story_arc),
    ];
    assert(p@ =~= junction_present(*row));
    let steps = zip_steps_of(f, o, p);
    let d = run_steps(&steps, provenance, args, true, outcome);
    let mut r: Vec<MetadataField> = Vec::new();
    let mut i: usize = 0;
    assert(steps@.take(0) =~= Seq::<Step>::empty());
    while i < steps.len()
        invariant
            i <= steps@.len(),
            d@.len() == steps@.len(),
            forall|j: int| 0 <= j < steps@.len() ==> d@[j] == step_applies(steps@[j], *provenance, *args),
            r@ == written_fields(steps@.take(i as int), *provenance, *args),
        decreases steps@.len() - i,
    {
        assert(steps@.take(i + 1).drop_last() =~= steps@.take(i as int));
        assert(steps@.take(i + 1).last() == steps@[i as int]);
        if d[i] {
            r.push(steps[i].0);
        }
        i = i + 1;
        assert(r@ =~= written_fields(steps@.take(i as int), *provenance, *args));
    }
    assert(steps@.take(steps@.len() as int) =~= steps@);
    r
}

// ───────── covers ─────────

/// The image extension of a cover URL, by its (lower-cased) ending.
pub open spec fn cover_ext_of(lower: Seq<char>) -> Option<Seq<char>> {
    if ends_with(lower, ".jpg"@) || ends_with(lower, ".jpeg"@) {
        Some("jpg"@)
    } else if ends_with(lower, ".png"@) {
        Some("png"@)
    } else if ends_with(lower, ".webp"@) {
        Some("webp"@)
    } else if ends_with(lower, ".gif"@) {
        Some("gif"@)
    } else {
        None
    }
}

pub fn cover_ext_from_url(url: &str) -> (r: Option<&'static str>)
    ensures
        opt_str_view(r) == cover_ext_of(lowercase_of(url@)),
        is_ascii_text(url@) ==> opt_str_view(r) == cover_ext_of(crate::text::ascii_lower(url@)),
{
    let lower = to_lowercase(url);
    let v = chars_of(lower.as_str());
    if chars_ends_with(&v, ".jpg") || chars_ends_with(&v, ".jpeg") {
        Some("jpg")
    } else if chars_ends_with(&v, ".png") {
        Some("png")
    } else if chars_ends_with(&v, ".webp") {
        Some("webp")
    } else if chars_ends_with(&v, ".gif") {
        Some("gif")
    } else {
        None
    }
}

/// The cover URL an apply fetches: the candidate's primary cover, when
/// covers are part of the request and the selection lets `cover.primary`
/// through.
pub fn cover_to_fetch(args: &ApplyArgs, detail: &GenericMetadata) -> (r: Option<String>)
    ensures
        r == (if args.apply_cover && key_selected(*args, field_key(MetadataField::CoverPrimary)) {
            detail.cover_image_url
        } else {
            None
        }),
{
    let key = MetadataField::CoverPrimary.key();
    if args.apply_cover && selected(args, key.as_str()) {
        clone_opt_string(&detail.cover_image_url)
    } else {
        None
    }
}

/// The first identifier from `source`.
pub fn identifier_for(ids: &Vec<Identifier>, source: Source) -> (r: Option<Identifier>)
    ensures
        match r {
            Some(id) => exists|i: int|
                0 <= i < ids@.len() && ids@[i] == id && id.source == source && forall|j: int|
                    0 <= j < i ==> ids@[j].source != source,
            None => forall|j: int| 0 <= j < ids@.len() ==> ids@[j].source != source,
        },
{
    let mut i: usize = 0;
    while i < ids.len()
        invariant
            i <= ids@.len(),
            forall|j: int| 0 <= j < i ==> ids@[j].source != source,
        decreases ids@.len() - i,
    {
        if ids[i].source == source {
            let id = Identifier {
                source: ids[i].source,
                id: ids[i].id.clone(),
                url: clone_opt_string(&ids[i].url),
            };
            assert(ids@[i as int] == id);
            return Some(id);
        }
        i = i + 1;
    }
    None
}

/// How the primary-cover step of an apply ended.
pub enum CoverAttempt {
    /// The cover row and file were written.
    Written,
    /// The overwrite policy kept the existing cover.
    PolicyDenied,
    /// Writing failed, with the error's text.
    WriteFailed(String),
    /// Fetching the image failed, with the error's text.
    FetchFailed(String),
}

/// The outcome after the cover step: a written cover is recorded as
/// applied, any other end as the reason it was skipped.
pub open spec fn cover_recorded(old: ApplyOutcome, new: ApplyOutcome, a: CoverAttempt) -> bool {
    &&& match a {
        CoverAttempt::Written => {
            &&& new.cover_replaced
            &&& string_views(new.applied_fields@) == string_views(old.applied_fields@).push(
                field_key(MetadataField::CoverPrimary),
            )
            &&& new.cover_skipped_reason == old.cover_skipped_reason
        },
        CoverAttempt::PolicyDenied => {
            &&& new.cover_replaced == old.cover_replaced
            &&& new.applied_fields == old.applied_fields
            &&& opt_view(new.cover_skipped_reason) == Some("policy_denied"@)
        },
        CoverAttempt::WriteFailed(e) => {
            &&& new.cover_replaced == old.cover_replaced
            &&& new.applied_fields == old.applied_fields
            &&& opt_view(new.cover_skipped_reason) == Some("write_failed: "@ + e@)
        },
        CoverAttempt::FetchFailed(e) => {
            &&& new.cover_replaced == old.cover_replaced
            &&& new.applied_fields == old.applied_fields
            &&& opt_view(new.cover_skipped_reason) == Some("fetch_failed: "@ + e@)
        },
    }
    &&& new.skipped_fields == old.skipped_fields
    &&& new.external_ids_added == old.external_ids_added
    &&& new.external_ids_skipped == old.external_ids_skipped
    &&& new.junctions_touched == old.junctions_touched
    &&& new.enqueued_rewrite == old.enqueued_rewrite
    &&& new.suppressed_user_pins == old.suppressed_user_pins
    &&& new.composed_sidecars == old.composed_sidecars
    &&& new.sidecar_skip_reasons == old.sidecar_skip_reasons
    &&& new.variants_written == old.variants_written
}

pub fn record_cover_attempt(outcome: &mut ApplyOutcome, attempt: CoverAttempt)
    ensures
        cover_recorded(*old(outcome), *final(outcome), attempt),
{
    match attempt {
        CoverAttempt::Written => {
            outcome.cover_replaced = true;
            push_key(&mut outcome.applied_fields, MetadataField::CoverPrimary.key());
        },
        CoverAttempt::PolicyDenied => {
            outcome.cover_skipped_reason = Some(String::from_str("policy_denied"));
        },
        CoverAttempt::WriteFailed(e) => {
            outcome.cover_skipped_reason = Some(concat2("write_failed: ", e.as_str()));
        },
        CoverAttempt::FetchFailed(e) => {
            outcome.cover_skipped_reason = Some(concat2("fetch_failed: ", e.as_str()));
        },
    }
}

/// Variant covers are written when the candidate has some and the
/// decision matrix lets `cover.variants` through, as for every other
/// field: selected, not pinned by the user unless the override is on,
/// and, when the issue already has variant covers
/// (`has_variants`), only under replace-all.
pub fn variants_to_write(
    args: &ApplyArgs,
    detail: &GenericMetadata,
    provenance: &ProvenanceMap,
    has_variants: bool,
) -> (r: bool)
    ensures
        r == step_applies(
            (MetadataField::CoverVariants, detail.variants@.len() > 0, has_variants),
            *provenance,
            *args,
        ),
{
    detail.variants.len() > 0 && should_apply(has_variants, provenance, MetadataField::CoverVariants, args)
}

// ───────── external ids ─────────

/// How writing one external id ended.
pub enum ExternalIdWrite {
    Written,
    /// Another item already holds the id; `owner` names it.
    SkippedConflict { owner: String },
    /// The write failed, with the error's text.
    Failed(String),
}

pub open spec fn external_id_recorded(
    old: ApplyOutcome,
    new: ApplyOutcome,
    id: Identifier,
    w: ExternalIdWrite,
) -> bool {
    &&& match w {
        ExternalIdWrite::Written => {
            &&& new.external_ids_added@.len() == old.external_ids_added@.len() + 1
            &&& new.external_ids_added@.drop_last() == old.external_ids_added@
            &&& new.external_ids_added@.last().source@ == source_key(id.source)
            &&& new.external_ids_added@.last().external_id@ == id.id@
            &&& new.external_ids_skipped == old.external_ids_skipped
        },
        ExternalIdWrite::SkippedConflict { owner } => {
            &&& new.external_ids_skipped@.len() == old.external_ids_skipped@.len() + 1
            &&& new.external_ids_skipped@.drop_last() == old.external_ids_skipped@
            &&& new.external_ids_skipped@.last().source@ == source_key(id.source)
            &&& new.external_ids_skipped@.last().external_id@ == id.id@
            &&& new.external_ids_skipped@.last().reason@ == "already assigned to another item ("@
                + owner@ + ")"@
            &&& new.external_ids_added == old.external_ids_added
        },
        ExternalIdWrite::Failed(e) => {
            &&& new.external_ids_skipped@.len() == old.external_ids_skipped@.len() + 1
            &&& new.external_ids_skipped@.drop_last() == old.external_ids_skipped@
            &&& new.external_ids_skipped@.last().source@ == source_key(id.source)
            &&& new.external_ids_skipped@.last().external_id@ == id.id@
            &&& new.external_ids_skipped@.last().reason@ == e@
            &&& new.external_ids_added == old.external_ids_added
        },
    }
    &&& new.applied_fields == old.applied_fields
    &&& new.skipped_fields == old.skipped_fields
    &&& new.junctions_touched == old.junctions_touched
    &&& new.cover_replaced == old.cover_replaced
    &&& new.cover_skipped_reason == old.cover_skipped_reason
    &&& new.enqueued_rewrite == old.enqueued_rewrite
    &&& new.suppressed_user_pins == old.suppressed_user_pins
    &&& new.composed_sidecars == old.composed_sidecars
    &&& new.sidecar_skip_reasons == old.sidecar_skip_reasons
    &&& new.variants_written == old.variants_written
}

/// Record how writing one of the candidate's external ids ended.
pub fn record_external_id(outcome: &mut ApplyOutcome, id: &Identifier, result: ExternalIdWrite)
    ensures
        external_id_recorded(*old(outcome), *final(outcome), *id, result),
{
    let ghost before = *outcome;
    let source = String::from_str(id.source.as_str());
    match result {
        ExternalIdWrite::Written => {
            outcome.external_ids_added.push(ExternalIdAdded { source, external_id: id.id.clone() });
            assert(outcome.external_ids_added@.drop_last() =~= before.external_ids_added@);
        },
        ExternalIdWrite::SkippedConflict { owner } => {
            let reason = concat3("already assigned to another item (", owner.as_str(), ")");
            outcome.external_ids_skipped.push(
                ExternalIdSkipped { source, external_id: id.id.clone(), reason },
            );
            assert(outcome.external_ids_skipped@.drop_last() =~= before.external_ids_skipped@);
        },
        ExternalIdWrite::Failed(e) => {
            outcome.external_ids_skipped.push(
                ExternalIdSkipped { source, external_id: id.id.clone(), reason: e },
            );
            assert(outcome.external_ids_skipped@.drop_last() =~= before.external_ids_skipped@);
        },
    }
}

// ───────── run counters ─────────

impl ApplyOutcome {
    /// The apply counts as applied: a field, the cover, an external id,
    /// a queued sidecar rewrite or a variant cover landed.
    pub open spec fn wrote_anything(&self) -> bool {
        self.applied_fields@.len() > 0 || self.cover_replaced || self.external_ids_added@.len() > 0
            || self.enqueued_rewrite || self.variants_written > 0
    }

    pub fn any_write(&self) -> (r: bool)
        ensures
            r == self.wrote_anything(),
    {
        self.applied_fields.len() > 0 || self.cover_replaced || self.external_ids_added.len() > 0
            || self.enqueued_rewrite || self.variants_written > 0
    }
}

/// The run's `(items_applied, items_skipped)` after one apply: one more
/// applied when it wrote anything, else one more skipped.
pub fn bump_run_counts(items_applied: i32, items_skipped: i32, outcome: &ApplyOutcome) -> (r: (
    i32,
    i32,
))
    requires
        items_applied < i32::MAX,
        items_skipped < i32::MAX,
    ensures
        outcome.wrote_anything() ==> r.0 == items_applied + 1 && r.1 == items_skipped,
        !outcome.wrote_anything() ==> r.0 == items_applied && r.1 == items_skipped + 1,
{
    if outcome.any_write() {
        (items_applied + 1, items_skipped)
    } else {
        (items_applied, items_skipped + 1)
    }
}


// ───────── provenance rows ─────────

/// Whether an applied key gets a provenance row from the apply step: a
/// known field that is neither a junction, a cover nor an external id
/// (their writers stamp their own rows).
pub open spec fn stamps_row(key: Seq<char>) -> bool {
    match parse_field(key) {
        Some(f) => !is_junction_field(f) && !is_cover_field(f) && !(f is ExternalId),
        None => false,
    }
}

/// The applied keys that get a provenance row, with their field, in
/// order.
pub open spec fn provenance_targets(applied: Seq<Seq<char>>) -> Seq<(MetadataField, Seq<char>)>
    decreases applied.len(),
{
    if applied.len() == 0 {
        Seq::empty()
    } else {
        let k = applied.last();
        provenance_targets(applied.drop_last()) + if stamps_row(k) {
            seq![(parse_field(k).unwrap(), k)]
        } else {
            Seq::empty()
        }
    }
}

/// Provenance rows go to scalar fields only, each under its own key: every
/// target is a field that is neither a junction, a cover nor an external
/// id, named by exactly its key, and the targets are at most the applied
/// keys.
pub proof fn lemma_provenance_targets(applied: Seq<Seq<char>>)
    ensures
        provenance_targets(applied).len() <= applied.len(),
        forall|i: int|
            0 <= i < provenance_targets(applied).len() ==> {
                let t = #[trigger] provenance_targets(applied)[i];
                &&& field_key(t.0) == t.1
                &&& !is_junction_field(t.0)
                &&& !is_cover_field(t.0)
                &&& !(t.0 is ExternalId)
            },
    decreases applied.len(),
{
    if applied.len() > 0 {
        let init = applied.drop_last();
        lemma_provenance_targets(init);
        let k = applied.last();
        let t0 = provenance_targets(init);
        if stamps_row(k) {
            crate::field::lemma_field_parse_only_keys(k);
            let t = t0 + seq![(parse_field(k).unwrap(), k)];
            assert forall|i: int| 0 <= i < t.len() implies {
                let x = #[trigger] t[i];
                &&& field_key(x.0) == x.1
                &&& !is_junction_field(x.0)
                &&& !is_cover_field(x.0)
                &&& !(x.0 is ExternalId)
            } by {
                if i < t0.len() {
                    assert(t[i] == t0[i]);
                }
            }
        } else {
            assert(provenance_targets(applied) =~= t0);
        }
    }
}

/// The provenance rows to write after an apply: one per stamped applied
/// key, each with the provenance the resolver gives that key.
#[verifier::spinoff_prover]
pub fn provenance_writes(applied: &Vec<String>, resolver: &ProvResolver) -> (r: Vec<
    (MetadataField, ProvSource),
>)
    ensures
        ({
            let t = provenance_targets(string_views(applied@));
            &&& r@.len() == t.len()
            &&& forall|i: int|
                0 <= i < t.len() ==> #[trigger] r@[i].0 == t[i].0 && r@[i].1 == resolver.resolved(
                    t[i].1,
                )
        }),
{
    let ghost keys = string_views(applied@);
    let mut r: Vec<(MetadataField, ProvSource)> = Vec::new();
    let mut i: usize = 0;
    assert(keys.take(0) =~= Seq::<Seq<char>>::empty());
    while i < applied.len()
        invariant
            i <= applied@.len(),
            keys == string_views(applied@),
            ({
                let t = provenance_targets(keys.take(i as int));
                &&& r@.len() == t.len()
                &&& forall|j: int|
                    0 <= j < t.len() ==> #[trigger] r@[j].0 == t[j].0 && r@[j].1
                        == resolver.resolved(t[j].1)
            }),
        decreases applied@.len() - i,
    {
        let ghost prev = provenance_targets(keys.take(i as int));
        let ghost rb = r@;
        assert(keys.take(i + 1).drop_last() =~= keys.take(i as int));
        assert(keys.take(i + 1).last() == applied@[i as int]@);
        match MetadataField::from_str(applied[i].as_str()) {
            Ok(f) => {
                if !f.is_junction() && !f.is_cover() && !matches!(f, MetadataField::ExternalId(_)) {
                    let p = resolver.resolve(applied[i].as_str());
                    r.push((f, p));
                    let ghost t = provenance_targets(keys.take(i + 1));
                    assert(t =~= prev.push((f, applied@[i as int]@)));
                    assert forall|j: int| 0 <= j < t.len() implies #[trigger] r@[j].0 == t[j].0
                        && r@[j].1 == resolver.resolved(t[j].1) by {
                        if j < prev.len() {
                            assert(r@[j] == rb[j]);
                            assert(t[j] == prev[j]);
                        }
                    }
                } else {
                    assert(!stamps_row(keys.take(i + 1).last()));
                    assert(provenance_targets(keys.take(i + 1)) =~= prev);
                }
            },
            Err(_) => {
                assert(!stamps_row(keys.take(i + 1).last()));
                assert(provenance_targets(keys.take(i + 1)) =~= prev);
            },
        }
        assert({
            let t = provenance_targets(keys.take(i + 1));
            &&& r@.len() == t.len()
            &&& forall|j: int|
                0 <= j < t.len() ==> #[trigger] r@[j].0 == t[j].0 && r@[j].1
                    == resolver.resolved(t[j].1)
        });
        i = i + 1;
    }
    assert(keys.take(applied@.len() as int) =~= keys);
    r
}

} // verus!

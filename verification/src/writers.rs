//! Who set a stored value, when a cover may be replaced, when an external
//! id may be overwritten and how the legacy id trio is written and read,
//! and the set of issues whose cached list columns are rebuilt at the end
//! of a transaction.
use vstd::prelude::*;
use vstd::string::*;
use crate::identifier::{Source, source_key, Identifier, canonical_url, canonical_url_spec};
use crate::text::{
    str_eq, opt_view, chars_of, i64_text, int_text, parse_int, dec_seq, dec_val, all_digits,
    digit_char, digit_val, is_digit,
};
use crate::sidecar_compose::parse_i64_chars;
use crate::diff::{ExistingExternalId, existing_for, is_conflict};

verus! {

/// Who set a row; stored as text through [`SetBy::as_str`].
#[derive(Copy, Clone, Debug, PartialEq, Eq, Hash, Structural)]
pub enum SetBy {
    User,
    ComicInfo,
    MetronInfo,
    Provider(Source),
    ScannerInference,
    ScannerFolderTag,
    CrossReference,
}

/// The text stored in the `set_by` column.
pub open spec fn set_by_key(s: SetBy) -> Seq<char> {
    match s {
        SetBy::User => "user"@,
        SetBy::ComicInfo => "comicinfo"@,
        SetBy::MetronInfo => "metroninfo"@,
        SetBy::Provider(src) => source_key(src),
        SetBy::ScannerInference => "scanner_inference"@,
        SetBy::ScannerFolderTag => "scanner_folder_tag"@,
        SetBy::CrossReference => "cross_reference"@,
    }
}

impl SetBy {
    pub fn as_str(self) -> (r: String)
        ensures
            r@ == set_by_key(self),
    {
        match self {
            SetBy::User => String::from_str("user"),
            SetBy::ComicInfo => String::from_str("comicinfo"),
            SetBy::MetronInfo => String::from_str("metroninfo"),
            SetBy::Provider(s) => String::from_str(s.as_str()),
            SetBy::ScannerInference => String::from_str("scanner_inference"),
            SetBy::ScannerFolderTag => String::from_str("scanner_folder_tag"),
            SetBy::CrossReference => String::from_str("cross_reference"),
        }
    }
}

/// When a provider cover may replace the active primary cover.
#[derive(Copy, Clone, Debug, PartialEq, Eq, Structural)]
pub enum CoverOverwritePolicy {
    Never,
    WhenMissing,
    Always,
}

/// The primary slot is `kind == "primary"` at ordinal 0; only there does
/// the policy apply. An existing active primary blocks the write under
/// `Never` and `WhenMissing`; variants are always additive.
pub open spec fn cover_write_allowed(
    kind: Seq<char>,
    ordinal: i32,
    has_active_primary: bool,
    policy: CoverOverwritePolicy,
) -> bool {
    let is_primary = kind == "primary"@ && ordinal == 0;
    !(is_primary && has_active_primary && policy != CoverOverwritePolicy::Always)
}

/// The overwrite gate of a cover write, decided before any bytes are
/// written: `false` means the write is skipped.
pub fn cover_slot_writable(
    kind: &str,
    ordinal: i32,
    has_active_primary: bool,
    policy: CoverOverwritePolicy,
) -> (r: bool)
    ensures
        r == cover_write_allowed(kind@, ordinal, has_active_primary, policy),
{
    let is_primary = str_eq(kind, "primary") && ordinal == 0;
    if is_primary && has_active_primary {
        match policy {
            CoverOverwritePolicy::Never => false,
            CoverOverwritePolicy::WhenMissing => false,
            CoverOverwritePolicy::Always => true,
        }
    } else {
        true
    }
}

// ───────── CSV rebuild batch ─────────

pub open spec fn string_views(v: Seq<String>) -> Seq<Seq<char>> {
    v.map_values(|s: String| s@)
}

/// Issue ids queued during one transaction, each at most once, so a
/// flurry of junction writes flushes one CSV rebuild per issue.
pub struct CsvRebuildBatch {
    issue_ids: Vec<String>,
}

impl CsvRebuildBatch {
    /// The set of queued issue ids.
    pub closed spec fn queued(&self) -> Set<Seq<char>> {
        string_views(self.issue_ids@).to_set()
    }

    /// No id is held twice.
    #[verifier::type_invariant]
    spec fn wf(&self) -> bool {
        string_views(self.issue_ids@).no_duplicates()
    }

    pub fn new() -> (r: Self)
        ensures
            r.queued() == Set::<Seq<char>>::empty(),
    {
        let r = CsvRebuildBatch { issue_ids: Vec::new() };
        assert(string_views(r.issue_ids@).to_set() =~= Set::<Seq<char>>::empty());
        r
    }

    pub fn queue(&mut self, issue_id: &str)
        ensures
            final(self).queued() == old(self).queued().insert(issue_id@),
    {
        proof {
            use_type_invariant(&*self);
        }
        let mut ids: Vec<String> = Vec::new();
        std::mem::swap(&mut ids, &mut self.issue_ids);
        let ghost before = string_views(ids@);
        let mut i: usize = 0;
        let mut found = false;
        while i < ids.len()
            invariant
                i <= ids@.len(),
                string_views(ids@) == before,
                found <==> exists|j: int| 0 <= j < i && before[j] == issue_id@,
            decreases ids@.len() - i,
        {
            let same = str_eq(ids[i].as_str(), issue_id);
            assert(before[i as int] == ids@[i as int]@);
            if same {
                found = true;
            }
            i = i + 1;
        }
        if found {
            let ghost j = choose|j: int| 0 <= j < before.len() && before[j] == issue_id@;
            assert(before.to_set().contains(before[j]));
            assert(before.to_set().insert(issue_id@) =~= before.to_set());
        } else {
            ids.push(String::from_str(issue_id));
            let ghost after = string_views(ids@);
            assert(after =~= before.push(issue_id@));
            assert(after.to_set() =~= before.to_set().insert(issue_id@)) by {
                assert forall|x: Seq<char>| after.to_set().contains(x) <==> before.to_set().insert(
                    issue_id@,
                ).contains(x) by {
                    if after.contains(x) && x != issue_id@ {
                        let k = choose|k: int| 0 <= k < after.len() && after[k] == x;
                        assert(before[k] == x);
                    }
                    if before.contains(x) {
                        let k = choose|k: int| 0 <= k < before.len() && before[k] == x;
                        assert(after[k] == x);
                    }
                    if x == issue_id@ {
                        assert(after[before.len() as int] == x);
                    }
                }
            }
            assert(after.no_duplicates()) by {
                assert forall|a: int, b: int| 0 <= a < after.len() && 0 <= b < after.len() && a
                    != b implies after[a] != after[b] by {
                    if a < before.len() && b < before.len() {
                    } else if a == before.len() {
                        assert(before[b] != issue_id@);
                    } else {
                        assert(before[a] != issue_id@);
                    }
                }
            }
        }
        self.issue_ids = ids;
    }

    /// Hand out every queued id, each once; the batch is empty after.
    pub fn drain(&mut self) -> (r: Vec<String>)
        ensures
            final(self).queued() == Set::<Seq<char>>::empty(),
            string_views(r@).to_set() == old(self).queued(),
            string_views(r@).no_duplicates(),
    {
        proof {
            use_type_invariant(&*self);
        }
        let mut out: Vec<String> = Vec::new();
        std::mem::swap(&mut out, &mut self.issue_ids);
        assert(string_views(self.issue_ids@).to_set() =~= Set::<Seq<char>>::empty());
        out
    }

    pub fn is_empty(&self) -> (r: bool)
        ensures
            r == (self.queued() == Set::<Seq<char>>::empty()),
    {
        let ghost s = string_views(self.issue_ids@);
        if self.issue_ids.len() == 0 {
            assert(s.to_set() =~= Set::<Seq<char>>::empty());
            true
        } else {
            assert(s.to_set().contains(s[0]));
            false
        }
    }
}

impl Default for CsvRebuildBatch {
    fn default() -> (r: Self)
        ensures
            r.queued() == Set::<Seq<char>>::empty(),
    {
        CsvRebuildBatch::new()
    }
}

// ───────── external ids ─────────

/// Whether a write of `incoming` by `writer` goes through, given the row
/// already stored for the same entity and provider (`(value, set_by)`):
/// a user-set row is never overwritten by a writer other than the user,
/// whatever the value.
pub open spec fn external_id_write_allowed(
    existing: Option<(Seq<char>, Seq<char>)>,
    incoming: Seq<char>,
    writer: SetBy,
) -> bool {
    match existing {
        Some((value, set_by)) => !(set_by == "user"@ && writer != SetBy::User),
        None => true,
    }
}

pub open spec fn stored_view(e: Option<ExistingExternalId>) -> Option<(Seq<char>, Seq<char>)> {
    match e {
        Some(r) => Some((r.external_id@, r.set_by@)),
        None => None,
    }
}

/// The precedence gate of an external-id write: `false` means the write is
/// skipped and the stored row stays as it is.
pub fn external_id_writable(existing: &Option<ExistingExternalId>, incoming: &str, writer: SetBy) -> (r: bool)
    ensures
        r == external_id_write_allowed(stored_view(*existing), incoming@, writer),
{
    match existing {
        Some(row) => {
            let user_set = str_eq(row.set_by.as_str(), "user");
            let by_user = match writer {
                SetBy::User => true,
                _ => false,
            };
            !(user_set && !by_user)
        },
        None => true,
    }
}

/// A user-set external id is never overwritten by a write that is not the
/// user's, whatever value that write carries.
pub proof fn lemma_user_external_id_kept(value: Seq<char>, incoming: Seq<char>, writer: SetBy)
    requires
        writer != SetBy::User,
    ensures
        !external_id_write_allowed(Some((value, "user"@)), incoming, writer),
{
}

/// Every candidate id the preview lists as a conflict is one whose write,
/// by any writer but the user, the precedence gate skips.
pub proof fn lemma_conflict_write_skipped(existing: Seq<ExistingExternalId>, id: Identifier, writer: SetBy)
    requires
        writer != SetBy::User,
        is_conflict(existing, id),
    ensures
        !external_id_write_allowed(
            stored_view(existing_for(existing, source_key(id.source))),
            id.id@,
            writer,
        ),
{
}

/// The cover gate: a slot other than the primary one (a variant, or any
/// ordinal but 0) is always written, so is an empty primary slot, and
/// under `Always` every slot; an occupied primary slot is kept under
/// `Never` and `WhenMissing`.
pub proof fn lemma_cover_gate(kind: Seq<char>, ordinal: i32, has_active_primary: bool, policy: CoverOverwritePolicy)
    ensures
        (kind != "primary"@ || ordinal != 0) ==> cover_write_allowed(kind, ordinal, has_active_primary, policy),
        !has_active_primary ==> cover_write_allowed(kind, ordinal, has_active_primary, policy),
        policy == CoverOverwritePolicy::Always ==> cover_write_allowed(kind, ordinal, has_active_primary, policy),
        (policy != CoverOverwritePolicy::Always && has_active_primary) ==> !cover_write_allowed(
            "primary"@,
            0,
            has_active_primary,
            policy,
        ),
{
}

/// The external-id gate: with no stored row every write goes through, the
/// user's writes always go through, and a row no user set may be
/// overwritten by anyone.
pub proof fn lemma_external_id_gate(value: Seq<char>, set_by: Seq<char>, incoming: Seq<char>, writer: SetBy)
    ensures
        external_id_write_allowed(None, incoming, writer),
        writer == SetBy::User ==> external_id_write_allowed(Some((value, set_by)), incoming, writer),
        set_by != "user"@ ==> external_id_write_allowed(Some((value, set_by)), incoming, writer),
{
}

/// The URL stored with an external id: the one the identifier carries,
/// else the provider's canonical page for `entity_type`.
pub fn external_id_url(identifier: &Identifier, entity_type: &str) -> (r: Option<String>)
    ensures
        opt_view(r) == match identifier.url {
            Some(u) => Some(u@),
            None => canonical_url_spec(identifier.source, entity_type@, identifier.id@),
        },
{
    match &identifier.url {
        Some(u) => Some(u.clone()),
        None => canonical_url(identifier.source, entity_type, identifier.id.as_str()),
    }
}

/// The `(provider key, value)` rows the legacy comicvine / metron / gtin
/// trio stands for: one per given id, a blank GTIN left out.
pub open spec fn trio_rows(comicvine: Option<i64>, metron: Option<i64>, gtin: Option<Seq<char>>) -> Seq<(Seq<char>, Seq<char>)> {
    (match comicvine {
        Some(n) => seq![(source_key(Source::ComicVine), int_text(n as int))],
        None => Seq::empty(),
    }) + (match metron {
        Some(n) => seq![(source_key(Source::Metron), int_text(n as int))],
        None => Seq::empty(),
    }) + (match gtin {
        Some(g) => if g.len() > 0 {
            seq![(source_key(Source::Gtin), g)]
        } else {
            Seq::empty()
        },
        None => Seq::empty(),
    })
}

pub open spec fn identifier_rows(ids: Seq<Identifier>) -> Seq<(Seq<char>, Seq<char>)> {
    ids.map_values(|i: Identifier| (source_key(i.source), i.id@))
}

/// The identifiers the legacy trio is written as, in order comicvine,
/// metron, gtin, none with a URL of its own.
pub fn legacy_trio_identifiers(comicvine: Option<i64>, metron: Option<i64>, gtin: Option<&str>) -> (r: Vec<Identifier>)
    ensures
        identifier_rows(r@) == trio_rows(comicvine, metron, match gtin {
            Some(g) => Some(g@),
            None => None,
        }),
        forall|i: int| 0 <= i < r@.len() ==> (#[trigger] r@[i]).url is None,
{
    let mut out: Vec<Identifier> = Vec::new();
    if let Some(cv) = comicvine {
        let t = i64_text(cv);
        out.push(Identifier::new(Source::ComicVine, t.as_str()));
    }
    let ghost a = out@;
    if let Some(m) = metron {
        let t = i64_text(m);
        out.push(Identifier::new(Source::Metron, t.as_str()));
    }
    let ghost b = out@;
    if let Some(g) = gtin {
        if g.unicode_len() > 0 {
            out.push(Identifier::new(Source::Gtin, g));
        }
    }
    proof {
        let g2 = match gtin {
            Some(g) => Some(g@),
            None => None,
        };
        let ca: Seq<(Seq<char>, Seq<char>)> = match comicvine {
            Some(n) => seq![(source_key(Source::ComicVine), int_text(n as int))],
            None => Seq::empty(),
        };
        let mb: Seq<(Seq<char>, Seq<char>)> = match metron {
            Some(n) => seq![(source_key(Source::Metron), int_text(n as int))],
            None => Seq::empty(),
        };
        assert(identifier_rows(a) =~= ca);
        assert(identifier_rows(b) =~= ca + mb);
        assert(identifier_rows(out@) =~= trio_rows(comicvine, metron, g2));
    }
    out
}

/// The value of the last row stored under `key`.
pub open spec fn last_value(rows: Seq<(Seq<char>, Seq<char>)>, key: Seq<char>) -> Option<Seq<char>>
    decreases rows.len(),
{
    if rows.len() == 0 {
        None
    } else if rows.last().0 == key {
        Some(rows.last().1)
    } else {
        last_value(rows.drop_last(), key)
    }
}

/// `str::parse::<i64>()`.
pub open spec fn parse_i64_text(s: Seq<char>) -> Option<i64> {
    match parse_int(s) {
        Some(n) => if i64::MIN <= n && n <= i64::MAX {
            Some(n as i64)
        } else {
            None
        },
        None => None,
    }
}

/// The legacy trio read back from stored rows: the last comicvine and
/// metron values parsed as integers (`None` when the last one does not
/// parse), and the last gtin value.
pub open spec fn trio_read(rows: Seq<(Seq<char>, Seq<char>)>) -> (Option<i64>, Option<i64>, Option<Seq<char>>) {
    (
        match last_value(rows, "comicvine"@) {
            Some(v) => parse_i64_text(v),
            None => None,
        },
        match last_value(rows, "metron"@) {
            Some(v) => parse_i64_text(v),
            None => None,
        },
        last_value(rows, "gtin"@),
    )
}

pub open spec fn stored_rows(rows: Seq<ExistingExternalId>) -> Seq<(Seq<char>, Seq<char>)> {
    rows.map_values(|r: ExistingExternalId| (r.source@, r.external_id@))
}

/// The legacy comicvine / metron / gtin trio of an entity's stored
/// external ids.
pub fn legacy_trio_of(rows: &Vec<ExistingExternalId>) -> (r: (Option<i64>, Option<i64>, Option<String>))
    ensures
        r.0 == trio_read(stored_rows(rows@)).0,
        r.1 == trio_read(stored_rows(rows@)).1,
        opt_view(r.2) == trio_read(stored_rows(rows@)).2,
{
    let mut cv: Option<i64> = None;
    let mut metron: Option<i64> = None;
    let mut gtin: Option<String> = None;
    let mut i: usize = 0;
    while i < rows.len()
        invariant
            i <= rows@.len(),
            cv == trio_read(stored_rows(rows@.take(i as int))).0,
            metron == trio_read(stored_rows(rows@.take(i as int))).1,
            opt_view(gtin) == trio_read(stored_rows(rows@.take(i as int))).2,
        decreases rows@.len() - i,
    {
        let ghost pre = stored_rows(rows@.take(i as int));
        let ghost post = stored_rows(rows@.take(i + 1));
        assert(post.drop_last() =~= pre);
        assert(post.last() == (rows@[i as int].source@, rows@[i as int].external_id@));
        proof {
            reveal_strlit("comicvine");
            reveal_strlit("metron");
            reveal_strlit("gtin");
            assert("comicvine"@.len() == 9 && "metron"@.len() == 6 && "gtin"@.len() == 4);
        }
        let row = &rows[i];
        if str_eq(row.source.as_str(), "comicvine") {
            cv = parse_i64_chars(&chars_of(row.external_id.as_str()));
        } else if str_eq(row.source.as_str(), "metron") {
            metron = parse_i64_chars(&chars_of(row.external_id.as_str()));
        } else if str_eq(row.source.as_str(), "gtin") {
            gtin = Some(row.external_id.clone());
        }
        i = i + 1;
    }
    assert(rows@.take(rows@.len() as int) =~= rows@);
    (cv, metron, gtin)
}

proof fn lemma_dec_seq_reads_back(n: nat)
    ensures
        dec_seq(n).len() > 0,
        all_digits(dec_seq(n)),
        dec_val(dec_seq(n)) == n,
    decreases n,
{
    if n >= 10 {
        lemma_dec_seq_reads_back(n / 10);
        let d = (n % 10) as nat;
        assert(digit_val(digit_char(d)) == d);
        let s = dec_seq(n);
        assert(s.drop_last() =~= dec_seq(n / 10));
        assert(s.last() == digit_char(d));
        assert(dec_val(s) == dec_val(s.drop_last()) * 10 + digit_val(s.last()));
        assert((n / 10) * 10 + d == n);
        assert forall|i: int| 0 <= i < s.len() implies is_digit(#[trigger] s[i]) by {
            if i < s.len() - 1 {
                assert(s[i] == dec_seq(n / 10)[i]);
            }
        }
    } else {
        assert(digit_val(digit_char(n)) == n);
        let s = dec_seq(n);
        assert(s.drop_last() =~= Seq::<char>::empty());
        assert(dec_val(s.drop_last()) == 0);
        assert(dec_val(s) == dec_val(s.drop_last()) * 10 + digit_val(s.last()));
    }
}

/// Decimal text parses back to the integer it was written from.
pub proof fn lemma_int_text_parses_back(n: i64)
    ensures
        parse_i64_text(int_text(n as int)) == Some(n),
{
    if n < 0 {
        let m = (-(n as int)) as nat;
        lemma_dec_seq_reads_back(m);
        let s = int_text(n as int);
        assert(s.drop_first() =~= dec_seq(m));
    } else {
        lemma_dec_seq_reads_back(n as nat);
        let s = dec_seq(n as nat);
        assert(is_digit(s[0]));
    }
}

/// Reading the legacy trio back from the rows it is written as gives the
/// trio itself, a blank GTIN read as absent.
pub proof fn lemma_legacy_trio_round_trip(comicvine: Option<i64>, metron: Option<i64>, gtin: Option<Seq<char>>)
    ensures
        trio_read(trio_rows(comicvine, metron, gtin)) == (comicvine, metron, match gtin {
            Some(g) => if g.len() > 0 { Some(g) } else { None },
            None => None,
        }),
{
    reveal_strlit("comicvine");
    reveal_strlit("metron");
    reveal_strlit("gtin");
    if let Some(n) = comicvine {
        lemma_int_text_parses_back(n);
    }
    if let Some(n) = metron {
        lemma_int_text_parses_back(n);
    }
    let rows = trio_rows(comicvine, metron, gtin);
    let cv_rows: Seq<(Seq<char>, Seq<char>)> = match comicvine {
        Some(n) => seq![(source_key(Source::ComicVine), int_text(n as int))],
        None => Seq::empty(),
    };
    let m_rows: Seq<(Seq<char>, Seq<char>)> = match metron {
        Some(n) => seq![(source_key(Source::Metron), int_text(n as int))],
        None => Seq::empty(),
    };
    let g_rows = rows.skip((cv_rows.len() + m_rows.len()) as int);
    assert("comicvine"@.len() == 9 && "metron"@.len() == 6 && "gtin"@.len() == 4);
    assert(rows =~= cv_rows + m_rows + g_rows);
    assert(rows =~= cv_rows + (m_rows + g_rows));
    let e: Seq<(Seq<char>, Seq<char>)> = Seq::empty();
    assert(cv_rows =~= e + cv_rows);
    assert(m_rows =~= e + m_rows);
    assert(g_rows =~= e + g_rows);
    lemma_last_value_skip(cv_rows, m_rows + g_rows, "comicvine"@);
    lemma_last_value_skip(e, cv_rows, "comicvine"@);
    lemma_last_value_skip(cv_rows + m_rows, g_rows, "metron"@);
    lemma_last_value_skip(e, cv_rows, "metron"@);
    lemma_last_value_skip(e, m_rows, "metron"@);
    lemma_last_value_skip(e, cv_rows + m_rows, "gtin"@);
    lemma_last_value_skip(e, g_rows, "gtin"@);
    if m_rows.len() > 0 {
        assert((cv_rows + m_rows).drop_last() =~= cv_rows);
    }
    if g_rows.len() > 0 {
        assert(rows.drop_last() =~= cv_rows + m_rows);
    }
}

proof fn lemma_last_value_skip(a: Seq<(Seq<char>, Seq<char>)>, b: Seq<(Seq<char>, Seq<char>)>, key: Seq<char>)
    ensures
        (forall|j: int| 0 <= j < b.len() ==> (#[trigger] b[j]).0 != key) ==> last_value(a + b, key) == last_value(a, key),
    decreases b.len(),
{
    if b.len() > 0 && (forall|j: int| 0 <= j < b.len() ==> (#[trigger] b[j]).0 != key) {
        assert((a + b).drop_last() =~= a + b.drop_last());
        assert(b.drop_last().len() < b.len());
        assert forall|j: int| 0 <= j < b.drop_last().len() implies (#[trigger] b.drop_last()[j]).0 != key by {
            assert(b.drop_last()[j] == b[j]);
        }
        lemma_last_value_skip(a, b.drop_last(), key);
    } else if b.len() == 0 {
        assert(a + b =~= a);
    }
}

} // verus!

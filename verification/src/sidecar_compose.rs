//! Composing the ComicInfo and MetronInfo sidecar documents from a
//! provider's metadata and the issue's current state. A field the user
//! pinned keeps the stored value; otherwise the provider's value wins,
//! falling back to the stored one. ComicVine and Metron applies get an
//! attribution line in the notes.
use vstd::prelude::*;
use vstd::string::*;
use crate::text::{
    lemma_first_match_append,
    blank, trim, filled, opt_view, str_eq, str_is_blank, clone_opt_string, first_match, find_key,
    parse_int, chars_of, trim_chars, string_of, concat2, concat3, ascii_lower, ascii_lower_chars, chars_eq, nonblank,
};
use crate::identifier::{Source, source_label};
use crate::provider::{GenericMetadata, CreditCandidate, EntityCandidate, CalendarDate};
use crate::comicvine::{pieces, kept_trimmed, split_trimmed};
use crate::merge::join_comma;
use crate::writers::string_views;

verus! {

/// The issue columns the composers read.
#[derive(Clone, Debug, Default)]
pub struct ComposeIssue {
    pub title: Option<String>,
    pub number_raw: Option<String>,
    pub alternate_series: Option<String>,
    pub summary: Option<String>,
    pub notes: Option<String>,
    pub year: Option<i32>,
    pub month: Option<i32>,
    pub day: Option<i32>,
    pub page_count: Option<i32>,
    pub language_code: Option<String>,
    pub format: Option<String>,
    pub black_and_white: Option<bool>,
    pub manga: Option<String>,
    pub age_rating: Option<String>,
    pub review: Option<String>,
    pub scan_information: Option<String>,
    pub web_url: Option<String>,
    pub characters: Option<String>,
    pub teams: Option<String>,
    pub locations: Option<String>,
    pub tags: Option<String>,
    pub genre: Option<String>,
    pub story_arc: Option<String>,
    pub story_arc_number: Option<String>,
    pub writer: Option<String>,
    pub penciller: Option<String>,
    pub inker: Option<String>,
    pub colorist: Option<String>,
    pub letterer: Option<String>,
    pub cover_artist: Option<String>,
    pub editor: Option<String>,
    pub translator: Option<String>,
}

/// The series columns the composers read.
#[derive(Clone, Debug, Default)]
pub struct ComposeSeries {
    pub name: String,
    pub volume: Option<i32>,
    pub total_issues: Option<i32>,
    pub publisher: Option<String>,
    pub imprint: Option<String>,
    pub series_group: Option<String>,
}

/// Everything a composer reads. External ids are `(source, id)` pairs
/// read as a map (the first pair of a source counts); pins are the field
/// keys the user set by hand.
pub struct ComposeContext<'a> {
    pub provider: &'a GenericMetadata,
    pub issue: &'a ComposeIssue,
    pub series: &'a ComposeSeries,
    pub issue_external_ids: &'a Vec<(String, String)>,
    pub series_external_ids: &'a Vec<(String, String)>,
    pub issue_user_pins: &'a Vec<String>,
    pub series_user_pins: &'a Vec<String>,
}

// ───────── pins ─────────

/// `key` is among the pins.
pub open spec fn pinned(pins: Seq<String>, key: Seq<char>) -> bool {
    exists|i: int| 0 <= i < pins.len() && #[trigger] pins[i]@ == key
}

pub fn is_pinned(pins: &Vec<String>, key: &str) -> (r: bool)
    ensures
        r == pinned(pins@, key@),
{
    let mut i: usize = 0;
    while i < pins.len()
        invariant
            i <= pins@.len(),
            forall|j: int| 0 <= j < i ==> #[trigger] pins@[j]@ != key@,
        decreases pins@.len() - i,
    {
        if str_eq(pins[i].as_str(), key) {
            return true;
        }
        i = i + 1;
    }
    false
}

impl<'a> ComposeContext<'a> {
    pub open spec fn issue_pin(&self, key: Seq<char>) -> bool {
        pinned(self.issue_user_pins@, key)
    }

    pub open spec fn series_pin(&self, key: Seq<char>) -> bool {
        pinned(self.series_user_pins@, key)
    }

    pub fn is_issue_pinned(&self, key: &str) -> (r: bool)
        ensures
            r == self.issue_pin(key@),
    {
        is_pinned(self.issue_user_pins, key)
    }

    pub fn is_series_pinned(&self, key: &str) -> (r: bool)
        ensures
            r == self.series_pin(key@),
    {
        is_pinned(self.series_user_pins, key)
    }
}

// ───────── picking a value ─────────

/// Present and not blank, else nothing.
pub open spec fn keep_filled(v: Option<Seq<char>>) -> Option<Seq<char>> {
    if filled(v) {
        v
    } else {
        None
    }
}

/// A pinned field reads the stored value; otherwise the provider's value,
/// or the stored one when the provider has none. Blank text counts as
/// nothing.
pub open spec fn pick_text(
    user_pinned: bool,
    db: Option<Seq<char>>,
    provider: Option<Seq<char>>,
) -> Option<Seq<char>> {
    keep_filled(
        if user_pinned || provider is None {
            db
        } else {
            provider
        },
    )
}

/// As [`pick_text`], for the series name, which is always stored: a
/// blank provider value also falls back to it.
pub open spec fn pick_name(user_pinned: bool, db: Seq<char>, provider: Option<Seq<char>>) -> Option<
    Seq<char>,
> {
    if !user_pinned && filled(provider) {
        provider
    } else {
        keep_filled(Some(db))
    }
}

pub open spec fn pick_int(user_pinned: bool, db: Option<i32>, provider: Option<i32>) -> Option<i32> {
    if user_pinned || provider is None {
        db
    } else {
        provider
    }
}

fn keep_filled_string(v: Option<String>) -> (r: Option<String>)
    ensures
        opt_view(r) == keep_filled(opt_view(v)),
{
    match v {
        Some(s) => if str_is_blank(s.as_str()) {
            None
        } else {
            Some(s)
        },
        None => None,
    }
}

fn prefer_user_opt_str(user_pinned: bool, db: &Option<String>, provider: &Option<String>) -> (r:
    Option<String>)
    ensures
        opt_view(r) == pick_text(user_pinned, opt_view(*db), opt_view(*provider)),
{
    let pick = if user_pinned || provider.is_none() {
        clone_opt_string(db)
    } else {
        clone_opt_string(provider)
    };
    keep_filled_string(pick)
}

fn prefer_user_str(user_pinned: bool, db: &String, provider: &Option<String>) -> (r: Option<String>)
    ensures
        opt_view(r) == pick_name(user_pinned, db@, opt_view(*provider)),
{
    if !user_pinned {
        match provider {
            Some(p) => if !str_is_blank(p.as_str()) {
                return Some(p.clone());
            },
            None => {},
        }
    }
    keep_filled_string(Some(db.clone()))
}

fn prefer_user_int(user_pinned: bool, db: Option<i32>, provider: Option<i32>) -> (r: Option<i32>)
    ensures
        r == pick_int(user_pinned, db, provider),
{
    if user_pinned || provider.is_none() {
        db
    } else {
        provider
    }
}

// ───────── external ids ─────────

/// The id stored for `source`, read as an integer after trimming.
pub open spec fn external_int(ids: Seq<(String, String)>, source: Seq<char>) -> Option<i64> {
    match first_match(ids, source) {
        Some(v) => match parse_int(trim(v@)) {
            Some(n) => if i64::MIN <= n && n <= i64::MAX {
                Some(n as i64)
            } else {
                None
            },
            None => None,
        },
        None => None,
    }
}

/// The id stored for `source`, when not blank.
pub open spec fn external_text(ids: Seq<(String, String)>, source: Seq<char>) -> Option<Seq<char>> {
    match first_match(ids, source) {
        Some(v) => keep_filled(Some(v@)),
        None => None,
    }
}

fn external_id_i64(map: &Vec<(String, String)>, source: &str) -> (r: Option<i64>)
    ensures
        r == external_int(map@, source@),
{
    match find_key(map, source) {
        Some(i) => parse_i64_chars(&trim_chars(&chars_of(map[i].1.as_str()))),
        None => None,
    }
}

fn prefer_external_id_str(map: &Vec<(String, String)>, source: &str) -> (r: Option<String>)
    ensures
        opt_view(r) == external_text(map@, source@),
{
    match find_key(map, source) {
        Some(i) => keep_filled_string(Some(map[i].1.clone())),
        None => None,
    }
}

/// `str::parse::<i64>()` on characters.
pub fn parse_i64_chars(s: &Vec<char>) -> (r: Option<i64>)
    ensures
        r == (match parse_int(s@) {
            Some(n) => if i64::MIN <= n && n <= i64::MAX {
                Some(n as i64)
            } else {
                None
            },
            None => None,
        }),
{
    let n = s.len();
    if n == 0 {
        return None;
    }
    let neg = s[0] == '-';
    let start: usize = if s[0] == '+' || s[0] == '-' {
        1
    } else {
        0
    };
    if start >= n {
        return None;
    }
    let ghost d = s@.skip(start as int);
    let mut acc: i128 = 0;
    let mut i: usize = start;
    while i < n
        invariant
            n == s@.len(),
            start <= i <= n,
            start < n,
            d == s@.skip(start as int),
            start == 1 ==> d == s@.drop_first(),
            start == 0 ==> d == s@,
            (start == 1) == (s@[0] == '+' || s@[0] == '-'),
            start <= 1,
            neg == (s@[0] == '-'),
            crate::text::all_digits(d.take(i - start)),
            acc == crate::text::dec_val(d.take(i - start)),
            0 <= acc <= 9223372036854775808,
        decreases n - i,
    {
        let c = s[i];
        if !('0' <= c && c <= '9') {
            proof {
                assert(d[i - start] == c);
                assert(!crate::text::all_digits(d));
            }
            return None;
        }
        let dv = (c as u32 - '0' as u32) as i128;
        acc = acc * 10 + dv;
        i = i + 1;
        proof {
            let t = d.take(i - start);
            assert(t.drop_last() =~= d.take(i - 1 - start));
            assert(t.last() == c);
            assert forall|j: int| 0 <= j < t.len() implies crate::text::is_digit(#[trigger] t[j]) by {
                if j < t.len() - 1 {
                    assert(t[j] == d.take(i - 1 - start)[j]);
                }
            }
        }
        if acc > 9223372036854775808 {
            proof {
                if crate::text::all_digits(d) {
                    crate::text::lemma_dec_val_prefix(d, i - start);
                }
            }
            return None;
        }
    }
    proof {
        assert(d.take(n - start) =~= d);
        if start == 1 {
            assert(d =~= s@.drop_first());
        } else {
            assert(d =~= s@);
        }
    }
    if neg {
        Some((0 - acc) as i64)
    } else if acc > 9223372036854775807 {
        None
    } else {
        Some(acc as i64)
    }
}

// ───────── lists ─────────

/// The names of a list of entities.
pub open spec fn entity_names(es: Seq<EntityCandidate>) -> Seq<Seq<char>> {
    es.map_values(|e: EntityCandidate| e.name@)
}

/// A stored comma-separated list, split, trimmed, empty entries dropped.
pub open spec fn csv_items(csv: Option<Seq<char>>) -> Seq<Seq<char>> {
    match csv {
        Some(s) => kept_trimmed(pieces(s, ',', Seq::empty())),
        None => Seq::empty(),
    }
}

/// A ComicInfo list element: the stored list when pinned or when the
/// provider has no names, else the provider's names joined with `", "`.
pub open spec fn csv_field(user_pinned: bool, db: Option<Seq<char>>, names: Seq<Seq<char>>) -> Option<
    Seq<char>,
> {
    if user_pinned || names.len() == 0 {
        keep_filled(db)
    } else {
        Some(join_comma(names))
    }
}

/// A MetronInfo list: the same choice, as separate items.
pub open spec fn list_field(user_pinned: bool, db: Option<Seq<char>>, names: Seq<Seq<char>>) -> Seq<
    Seq<char>,
> {
    if user_pinned || names.len() == 0 {
        csv_items(db)
    } else {
        names
    }
}

fn split_csv(csv: &Option<String>) -> (r: Vec<String>)
    ensures
        string_views(r@) == csv_items(opt_view(*csv)),
{
    match csv {
        Some(s) => split_trimmed(s.as_str(), ','),
        None => {
            let v: Vec<String> = Vec::new();
            assert(string_views(v@) =~= Seq::<Seq<char>>::empty());
            v
        },
    }
}

/// The items joined with `", "`.
pub fn join_names(ws: &Vec<String>) -> (r: String)
    ensures
        r@ == join_comma(string_views(ws@)),
{
    let mut out = String::new();
    let mut i: usize = 0;
    assert(string_views(ws@.take(0)) =~= Seq::<Seq<char>>::empty());
    while i < ws.len()
        invariant
            i <= ws@.len(),
            out@ == join_comma(string_views(ws@.take(i as int))),
        decreases ws@.len() - i,
    {
        let ghost before = string_views(ws@.take(i as int));
        let ghost after = string_views(ws@.take(i + 1));
        assert(after =~= before.push(ws@[i as int]@));
        assert(after.drop_last() =~= before);
        if i > 0 {
            out.append(", ");
        }
        out.append(ws[i].as_str());
        i = i + 1;
        assert(out@ =~= join_comma(after));
    }
    assert(ws@.take(ws@.len() as int) =~= ws@);
    out
}

fn entity_name_list(es: &Vec<EntityCandidate>) -> (r: Vec<String>)
    ensures
        string_views(r@) == entity_names(es@),
{
    let mut out: Vec<String> = Vec::new();
    let mut i: usize = 0;
    while i < es.len()
        invariant
            i <= es@.len(),
            out@.len() == i,
            forall|j: int| 0 <= j < i ==> #[trigger] out@[j]@ == es@[j].name@,
        decreases es@.len() - i,
    {
        out.push(es[i].name.clone());
        i = i + 1;
    }
    assert(string_views(out@) =~= entity_names(es@));
    out
}

fn compose_csv_field(user_pinned: bool, db: &Option<String>, names: &Vec<String>) -> (r: Option<
    String,
>)
    ensures
        opt_view(r) == csv_field(user_pinned, opt_view(*db), string_views(names@)),
{
    if user_pinned || names.len() == 0 {
        keep_filled_string(clone_opt_string(db))
    } else {
        Some(join_names(names))
    }
}

fn compose_list(user_pinned: bool, db_csv: &Option<String>, names: Vec<String>) -> (r: Vec<String>)
    ensures
        string_views(r@) == list_field(user_pinned, opt_view(*db_csv), string_views(names@)),
{
    if user_pinned || names.len() == 0 {
        split_csv(db_csv)
    } else {
        names
    }
}

// ───────── credits ─────────

/// `a.eq_ignore_ascii_case(b)`.
pub open spec fn same_ignoring_ascii_case(a: Seq<char>, b: Seq<char>) -> bool {
    ascii_lower(a) == ascii_lower(b)
}

/// The names credited in `role` (ASCII case ignored), in order.
pub open spec fn role_names(cs: Seq<CreditCandidate>, role: Seq<char>) -> Seq<Seq<char>>
    decreases cs.len(),
{
    if cs.len() == 0 {
        Seq::empty()
    } else {
        role_names(cs.drop_last(), role) + if same_ignoring_ascii_case(cs.last().role@, role) {
            seq![cs.last().name@]
        } else {
            Seq::empty()
        }
    }
}

/// A ComicInfo credit column: the stored column when credits or this
/// role are pinned, or when the provider credits nobody in the role;
/// otherwise the provider's names for it joined with `", "`.
pub open spec fn role_field(
    ctx: ComposeContext,
    role_key: Seq<char>,
    role_label: Seq<char>,
    db: Option<Seq<char>>,
) -> Option<Seq<char>> {
    let names = role_names(ctx.provider.credits@, role_label);
    if ctx.issue_pin("credits"@) || ctx.issue_pin(role_key) || names.len() == 0 {
        keep_filled(db)
    } else {
        Some(join_comma(names))
    }
}

fn eq_ignore_ascii_case(a: &str, b: &str) -> (r: bool)
    ensures
        r == same_ignoring_ascii_case(a@, b@),
{
    let la = ascii_lower_chars(&chars_of(a));
    let lb = ascii_lower_chars(&chars_of(b));
    chars_eq(&la, &lb)
}

fn names_in_role(cs: &Vec<CreditCandidate>, role: &str) -> (r: Vec<String>)
    ensures
        string_views(r@) == role_names(cs@, role@),
{
    let mut out: Vec<String> = Vec::new();
    let mut i: usize = 0;
    assert(string_views(out@) =~= role_names(cs@.take(0), role@));
    while i < cs.len()
        invariant
            i <= cs@.len(),
            string_views(out@) == role_names(cs@.take(i as int), role@),
        decreases cs@.len() - i,
    {
        assert(cs@.take(i + 1).drop_last() =~= cs@.take(i as int));
        assert(cs@.take(i + 1).last() == cs@[i as int]);
        if eq_ignore_ascii_case(cs[i].role.as_str(), role) {
            out.push(cs[i].name.clone());
        }
        i = i + 1;
        assert(string_views(out@) =~= role_names(cs@.take(i as int), role@));
    }
    assert(cs@.take(cs@.len() as int) =~= cs@);
    out
}

fn compose_role(ctx: &ComposeContext, role_key: &str, role_label: &str, db: &Option<String>) -> (r:
    Option<String>)
    ensures
        opt_view(r) == role_field(*ctx, role_key@, role_label@, opt_view(*db)),
{
    let pinned = ctx.is_issue_pinned("credits") || ctx.is_issue_pinned(role_key);
    let names = names_in_role(&ctx.provider.credits, role_label);
    if pinned || names.len() == 0 {
        keep_filled_string(clone_opt_string(db))
    } else {
        Some(join_names(&names))
    }
}

// ───────── notes and attribution ─────────

/// `needle` occurs in `hay` (`str::contains`).
pub open spec fn contains_text(hay: Seq<char>, needle: Seq<char>) -> bool {
    exists|i: int|
        0 <= i && i + needle.len() <= hay.len() && #[trigger] hay.subrange(i, i + needle.len())
            == needle
}

pub fn str_contains(hay: &str, needle: &str) -> (r: bool)
    ensures
        r == contains_text(hay@, needle@),
{
    let h = chars_of(hay);
    let n = chars_of(needle);
    if n.len() == 0 {
        assert(h@.subrange(0, 0) =~= n@);
        assert(0 + n@.len() <= h@.len());
        assert(h@.subrange(0int, 0int + n@.len()) == n@);
        return true;
    }
    if n.len() > h.len() {
        return false;
    }
    let hl = h.len();
    let last = h.len() - n.len();
    let mut i: usize = 0;
    while i <= last
        invariant
            h@ == hay@,
            n@ == needle@,
            last + n@.len() == h@.len(),
            hl == h@.len(),
            n@.len() > 0,
            i <= last + 1,
            forall|k: int| 0 <= k < i ==> #[trigger] h@.subrange(k, k + n@.len()) != n@,
        decreases last + 1 - i,
    {
        let mut j: usize = 0;
        let mut same = true;
        while j < n.len()
            invariant
                h@ == hay@,
                n@ == needle@,
                i <= last,
                last + n@.len() == h@.len(),
                hl == h@.len(),
                j <= n@.len(),
                same == forall|m: int| 0 <= m < j ==> h@[i + m] == n@[m],
            decreases n@.len() - j,
        {
            if h[i + j] != n[j] {
                same = false;
            }
            j = j + 1;
        }
        if same {
            assert(h@.subrange(i as int, i + n@.len()) =~= n@);
            return true;
        }
        assert(h@.subrange(i as int, i + n@.len()) != n@) by {
            let m = choose|m: int| 0 <= m < n@.len() && h@[i + m] != n@[m];
            assert(h@.subrange(i as int, i + n@.len())[m] == h@[i + m]);
        }
        i = i + 1;
    }
    false
}

/// The id parts of the attribution line.
pub open spec fn attribution_parts(ids: Seq<(String, String)>) -> Seq<Seq<char>> {
    (match first_match(ids, "comicvine"@) {
        Some(id) => seq!["ComicVine (id="@ + id@ + ")"@],
        None => Seq::empty(),
    }) + (match first_match(ids, "metron"@) {
        Some(id) => seq!["Metron (id="@ + id@ + ")"@],
        None => Seq::empty(),
    })
}

/// The licence attribution for a ComicVine or Metron apply, naming the
/// issue's ids on those two providers (or, with neither, the provider).
pub open spec fn attribution(ctx: ComposeContext) -> Option<Seq<char>> {
    match ctx.provider.source_provider {
        Some(s) => if s == Source::ComicVine || s == Source::Metron {
            let parts = attribution_parts(ctx.issue_external_ids@);
            let ps = if parts.len() == 0 {
                seq![source_label(s)]
            } else {
                parts
            };
            Some("Sources: "@ + join_comma(ps) + " — CC-BY-NC-SA where applicable"@)
        } else {
            None
        },
        None => None,
    }
}

/// The notes element: the picked notes, followed (after a blank line)
/// by the attribution unless the notes already hold it; a pinned notes
/// field is left exactly as stored.
pub open spec fn notes_field(ctx: ComposeContext) -> Option<Seq<char>> {
    let p = ctx.issue_pin("notes"@);
    let base = pick_text(p, opt_view(ctx.issue.notes), opt_view(ctx.provider.notes));
    if p {
        base
    } else {
        match base {
            Some(b) => match attribution(ctx) {
                Some(l) => if contains_text(b, l) {
                    Some(b)
                } else {
                    Some(b + "\n\n"@ + l)
                },
                None => Some(b),
            },
            None => attribution(ctx),
        }
    }
}

fn attribution_line(ctx: &ComposeContext) -> (r: Option<String>)
    ensures
        opt_view(r) == attribution(*ctx),
{
    let source = match ctx.provider.source_provider {
        Some(s) => s,
        None => return None,
    };
    if !(source == Source::ComicVine || source == Source::Metron) {
        return None;
    }
    let ids = ctx.issue_external_ids;
    let mut parts: Vec<String> = Vec::new();
    match find_key(ids, "comicvine") {
        Some(i) => parts.push(concat3("ComicVine (id=", ids[i].1.as_str(), ")")),
        None => {},
    }
    match find_key(ids, "metron") {
        Some(i) => parts.push(concat3("Metron (id=", ids[i].1.as_str(), ")")),
        None => {},
    }
    assert(string_views(parts@) =~= attribution_parts(ids@));
    if parts.len() == 0 {
        parts.push(string_of(&chars_of(source.label())));
        assert(string_views(parts@) =~= seq![source_label(source)]);
    }
    let joined = join_names(&parts);
    Some(concat3("Sources: ", joined.as_str(), " — CC-BY-NC-SA where applicable"))
}

fn compose_notes(ctx: &ComposeContext) -> (r: Option<String>)
    ensures
        opt_view(r) == notes_field(*ctx),
{
    let user_pinned = ctx.is_issue_pinned("notes");
    let base = prefer_user_opt_str(user_pinned, &ctx.issue.notes, &ctx.provider.notes);
    if user_pinned {
        return base;
    }
    let line = attribution_line(ctx);
    match base {
        Some(b) => match line {
            Some(l) => if str_contains(b.as_str(), l.as_str()) {
                Some(b)
            } else {
                Some(concat3(b.as_str(), "\n\n", l.as_str()))
            },
            None => Some(b),
        },
        None => line,
    }
}

// ───────── ComicInfo ─────────

/// The ComicInfo elements the composer decides. Page metadata, the
/// community rating and passed-through vendor elements are carried over
/// by the caller from the stored document.
#[derive(Clone, Debug)]
pub struct ComicInfoFields {
    pub series: Option<String>,
    pub volume: Option<i32>,
    pub count: Option<i32>,
    pub publisher: Option<String>,
    pub imprint: Option<String>,
    pub series_group: Option<String>,
    pub title: Option<String>,
    pub number: Option<String>,
    pub alternate_series: Option<String>,
    pub summary: Option<String>,
    pub notes: Option<String>,
    pub year: Option<i32>,
    pub month: Option<i32>,
    pub day: Option<i32>,
    pub page_count: Option<i32>,
    pub language_iso: Option<String>,
    pub format: Option<String>,
    pub black_and_white: Option<bool>,
    pub manga: Option<String>,
    pub age_rating: Option<String>,
    pub review: Option<String>,
    pub gtin: Option<String>,
    pub scan_information: Option<String>,
    pub web: Option<String>,
    pub comicvine_id: Option<i64>,
    pub metron_id: Option<i64>,
    pub comicvine_series_id: Option<i64>,
    pub metron_series_id: Option<i64>,
    pub characters: Option<String>,
    pub teams: Option<String>,
    pub locations: Option<String>,
    pub tags: Option<String>,
    pub genre: Option<String>,
    pub story_arc: Option<String>,
    pub story_arc_number: Option<String>,
    pub writer: Option<String>,
    pub penciller: Option<String>,
    pub inker: Option<String>,
    pub colorist: Option<String>,
    pub letterer: Option<String>,
    pub cover_artist: Option<String>,
    pub editor: Option<String>,
    pub translator: Option<String>,
}

pub open spec fn date_year(d: Option<CalendarDate>) -> Option<i32> {
    match d {
        Some(x) => Some(x.year),
        None => None,
    }
}

pub open spec fn date_month(d: Option<CalendarDate>) -> Option<i32> {
    match d {
        Some(x) => Some(x.month as i32),
        None => None,
    }
}

pub open spec fn date_day(d: Option<CalendarDate>) -> Option<i32> {
    match d {
        Some(x) => Some(x.day as i32),
        None => None,
    }
}

fn cover_parts(d: Option<CalendarDate>) -> (r: (Option<i32>, Option<i32>, Option<i32>))
    ensures
        r.0 == date_year(d),
        r.1 == date_month(d),
        r.2 == date_day(d),
{
    match d {
        Some(x) => (Some(x.year), Some(x.month as i32), Some(x.day as i32)),
        None => (None, None, None),
    }
}

/// The ComicInfo document for an apply: series-level elements follow the
/// series pins, issue-level ones the issue pins (the number also follows
/// a pinned title, the summary a pinned description); the external ids
/// come from the stored ids, the web link from the provider's page.
pub fn compose_comicinfo(ctx: &ComposeContext) -> (r: ComicInfoFields)
    ensures
        opt_view(r.series) == pick_name(ctx.series_pin("title"@), ctx.series.name@, opt_view(ctx.provider.series_name)),
        r.volume == pick_int(ctx.series_pin("volume"@), ctx.series.volume, ctx.provider.volume),
        r.count == ctx.series.total_issues,
        opt_view(r.publisher) == pick_text(ctx.series_pin("publisher"@), opt_view(ctx.series.publisher), opt_view(ctx.provider.publisher)),
        opt_view(r.imprint) == pick_text(ctx.series_pin("imprint"@), opt_view(ctx.series.imprint), opt_view(ctx.provider.imprint)),
        r.series_group == ctx.series.series_group,
        opt_view(r.title) == pick_text(ctx.issue_pin("title"@), opt_view(ctx.issue.title), opt_view(ctx.provider.title)),
        opt_view(r.number) == pick_text(ctx.issue_pin("title"@) || ctx.issue_pin("number_raw"@), opt_view(ctx.issue.number_raw), opt_view(ctx.provider.issue_number)),
        r.alternate_series == ctx.issue.alternate_series,
        opt_view(r.summary) == pick_text(ctx.issue_pin("summary"@) || ctx.issue_pin("description"@), opt_view(ctx.issue.summary), opt_view(ctx.provider.description)),
        opt_view(r.notes) == notes_field(*ctx),
        r.year == pick_int(ctx.issue_pin("cover_date"@), ctx.issue.year, date_year(ctx.provider.cover_date)),
        r.month == pick_int(ctx.issue_pin("cover_date"@), ctx.issue.month, date_month(ctx.provider.cover_date)),
        r.day == pick_int(ctx.issue_pin("cover_date"@), ctx.issue.day, date_day(ctx.provider.cover_date)),
        r.page_count == pick_int(ctx.issue_pin("page_count"@), ctx.issue.page_count, ctx.provider.page_count),
        opt_view(r.language_iso) == pick_text(ctx.issue_pin("language_code"@), opt_view(ctx.issue.language_code), opt_view(ctx.provider.language_code)),
        opt_view(r.format) == pick_text(ctx.issue_pin("format"@), opt_view(ctx.issue.format), opt_view(ctx.provider.format)),
        r.black_and_white == ctx.issue.black_and_white,
        r.manga == ctx.issue.manga,
        opt_view(r.age_rating) == pick_text(ctx.issue_pin("age_rating"@), opt_view(ctx.issue.age_rating), opt_view(ctx.provider.age_rating)),
        r.review == ctx.issue.review,
        opt_view(r.gtin) == external_text(ctx.issue_external_ids@, "gtin"@),
        opt_view(r.scan_information) == pick_text(ctx.issue_pin("scan_information"@), opt_view(ctx.issue.scan_information), opt_view(ctx.provider.scan_information)),
        r.web == (if ctx.provider.source_url is Some { ctx.provider.source_url } else { ctx.issue.web_url }),
        r.comicvine_id == external_int(ctx.issue_external_ids@, "comicvine"@),
        r.metron_id == external_int(ctx.issue_external_ids@, "metron"@),
        r.comicvine_series_id == external_int(ctx.series_external_ids@, "comicvine"@),
        r.metron_series_id == external_int(ctx.series_external_ids@, "metron"@),
        opt_view(r.characters) == csv_field(ctx.issue_pin("characters"@), opt_view(ctx.issue.characters), entity_names(ctx.provider.characters@)),
        opt_view(r.teams) == csv_field(ctx.issue_pin("teams"@), opt_view(ctx.issue.teams), entity_names(ctx.provider.teams@)),
        opt_view(r.locations) == csv_field(ctx.issue_pin("locations"@), opt_view(ctx.issue.locations), entity_names(ctx.provider.locations@)),
        opt_view(r.tags) == csv_field(ctx.issue_pin("tags"@), opt_view(ctx.issue.tags), string_views(ctx.provider.tags@)),
        opt_view(r.genre) == csv_field(ctx.issue_pin("genres"@), opt_view(ctx.issue.genre), string_views(ctx.provider.genres@)),
        opt_view(r.story_arc) == csv_field(ctx.issue_pin("story_arcs"@), opt_view(ctx.issue.story_arc), entity_names(ctx.provider.story_arcs@)),
        r.story_arc_number == ctx.issue.story_arc_number,
        opt_view(r.writer) == role_field(*ctx, "writer"@, "Writer"@, opt_view(ctx.issue.writer)),
        opt_view(r.penciller) == role_field(*ctx, "penciller"@, "Penciller"@, opt_view(ctx.issue.penciller)),
        opt_view(r.inker) == role_field(*ctx, "inker"@, "Inker"@, opt_view(ctx.issue.inker)),
        opt_view(r.colorist) == role_field(*ctx, "colorist"@, "Colorist"@, opt_view(ctx.issue.colorist)),
        opt_view(r.letterer) == role_field(*ctx, "letterer"@, "Letterer"@, opt_view(ctx.issue.letterer)),
        opt_view(r.cover_artist) == role_field(*ctx, "coverartist"@, "CoverArtist"@, opt_view(ctx.issue.cover_artist)),
        opt_view(r.editor) == role_field(*ctx, "editor"@, "Editor"@, opt_view(ctx.issue.editor)),
        opt_view(r.translator) == role_field(*ctx, "translator"@, "Translator"@, opt_view(ctx.issue.translator)),
{
    let issue = ctx.issue;
    let series = ctx.series;
    let p = ctx.provider;
    let (year, month, day) = cover_parts(p.cover_date);
    let date_pin = ctx.is_issue_pinned("cover_date");
    let number_pin = ctx.is_issue_pinned("title") || ctx.is_issue_pinned("number_raw");
    let summary_pin = ctx.is_issue_pinned("summary") || ctx.is_issue_pinned("description");
    let web = match &p.source_url {
        Some(u) => Some(u.clone()),
        None => clone_opt_string(&issue.web_url),
    };
    ComicInfoFields {
        series: prefer_user_str(ctx.is_series_pinned("title"), &series.name, &p.series_name),
        volume: prefer_user_int(ctx.is_series_pinned("volume"), series.volume, p.volume),
        count: series.total_issues,
        publisher: prefer_user_opt_str(ctx.is_series_pinned("publisher"), &series.publisher, &p.publisher),
        imprint: prefer_user_opt_str(ctx.is_series_pinned("imprint"), &series.imprint, &p.imprint),
        series_group: clone_opt_string(&series.series_group),
        title: prefer_user_opt_str(ctx.is_issue_pinned("title"), &issue.title, &p.title),
        number: prefer_user_opt_str(number_pin, &issue.number_raw, &p.issue_number),
        alternate_series: clone_opt_string(&issue.alternate_series),
        summary: prefer_user_opt_str(summary_pin, &issue.summary, &p.description),
        notes: compose_notes(ctx),
        year: prefer_user_int(date_pin, issue.year, year),
        month: prefer_user_int(date_pin, issue.month, month),
        day: prefer_user_int(date_pin, issue.day, day),
        page_count: prefer_user_int(ctx.is_issue_pinned("page_count"), issue.page_count, p.page_count),
        language_iso: prefer_user_opt_str(ctx.is_issue_pinned("language_code"), &issue.language_code, &p.language_code),
        format: prefer_user_opt_str(ctx.is_issue_pinned("format"), &issue.format, &p.format),
        black_and_white: issue.black_and_white,
        manga: clone_opt_string(&issue.manga),
        age_rating: prefer_user_opt_str(ctx.is_issue_pinned("age_rating"), &issue.age_rating, &p.age_rating),
        review: clone_opt_string(&issue.review),
        gtin: prefer_external_id_str(ctx.issue_external_ids, "gtin"),
        scan_information: prefer_user_opt_str(ctx.is_issue_pinned("scan_information"), &issue.scan_information, &p.scan_information),
        web: web,
        comicvine_id: external_id_i64(ctx.issue_external_ids, "comicvine"),
        metron_id: external_id_i64(ctx.issue_external_ids, "metron"),
        comicvine_series_id: external_id_i64(ctx.series_external_ids, "comicvine"),
        metron_series_id: external_id_i64(ctx.series_external_ids, "metron"),
        characters: compose_csv_field(ctx.is_issue_pinned("characters"), &issue.characters, &entity_name_list(&p.characters)),
        teams: compose_csv_field(ctx.is_issue_pinned("teams"), &issue.teams, &entity_name_list(&p.teams)),
        locations: compose_csv_field(ctx.is_issue_pinned("locations"), &issue.locations, &entity_name_list(&p.locations)),
        tags: compose_csv_field(ctx.is_issue_pinned("tags"), &issue.tags, &p.tags),
        genre: compose_csv_field(ctx.is_issue_pinned("genres"), &issue.genre, &p.genres),
        story_arc: compose_csv_field(ctx.is_issue_pinned("story_arcs"), &issue.story_arc, &entity_name_list(&p.story_arcs)),
        story_arc_number: clone_opt_string(&issue.story_arc_number),
        writer: compose_role(ctx, "writer", "Writer", &issue.writer),
        penciller: compose_role(ctx, "penciller", "Penciller", &issue.penciller),
        inker: compose_role(ctx, "inker", "Inker", &issue.inker),
        colorist: compose_role(ctx, "colorist", "Colorist", &issue.colorist),
        letterer: compose_role(ctx, "letterer", "Letterer", &issue.letterer),
        cover_artist: compose_role(ctx, "coverartist", "CoverArtist", &issue.cover_artist),
        editor: compose_role(ctx, "editor", "Editor", &issue.editor),
        translator: compose_role(ctx, "translator", "Translator", &issue.translator),
    }
}

// ───────── MetronInfo ─────────

/// The MetronInfo elements the composer decides. `ids` and `credits`
/// are maps read as [`first_match`] does; `credits` maps a role to its
/// names.
#[derive(Clone, Debug)]
pub struct MetronInfoFields {
    pub title: Option<String>,
    pub series: Option<String>,
    pub publisher: Option<String>,
    pub imprint: Option<String>,
    pub number: Option<String>,
    pub volume: Option<i32>,
    pub year: Option<i32>,
    pub month: Option<i32>,
    pub day: Option<i32>,
    pub summary: Option<String>,
    pub notes: Option<String>,
    pub age_rating: Option<String>,
    pub language: Option<String>,
    pub manga: Option<String>,
    pub gtin: Option<String>,
    pub story_arcs: Vec<String>,
    pub characters: Vec<String>,
    pub teams: Vec<String>,
    pub locations: Vec<String>,
    pub tags: Vec<String>,
    pub genres: Vec<String>,
    pub ids: Vec<(String, String)>,
    pub credits: Vec<(String, Vec<String>)>,
}

/// A role with its names, as characters.
pub open spec fn groups_view(g: Seq<(String, Vec<String>)>) -> Seq<(Seq<char>, Seq<Seq<char>>)> {
    g.map_values(|p: (String, Vec<String>)| (p.0@, string_views(p.1@)))
}

/// The roles credited, each once, in order of first appearance.
pub open spec fn credit_roles(cs: Seq<CreditCandidate>) -> Seq<Seq<char>>
    decreases cs.len(),
{
    if cs.len() == 0 {
        Seq::empty()
    } else {
        let before = credit_roles(cs.drop_last());
        if before.contains(cs.last().role@) {
            before
        } else {
            before.push(cs.last().role@)
        }
    }
}

/// The names credited in exactly `role`, in order.
pub open spec fn names_for_role(cs: Seq<CreditCandidate>, role: Seq<char>) -> Seq<Seq<char>>
    decreases cs.len(),
{
    if cs.len() == 0 {
        Seq::empty()
    } else {
        names_for_role(cs.drop_last(), role) + if cs.last().role@ == role {
            seq![cs.last().name@]
        } else {
            Seq::empty()
        }
    }
}

/// The provider's credits grouped by role.
pub open spec fn grouped_credits(cs: Seq<CreditCandidate>) -> Seq<(Seq<char>, Seq<Seq<char>>)> {
    credit_roles(cs).map_values(|r: Seq<char>| (r, names_for_role(cs, r)))
}

/// A role and the names of a stored column, when there are any.
pub open spec fn column_group(label: Seq<char>, col: Option<String>) -> Seq<
    (Seq<char>, Seq<Seq<char>>),
> {
    if csv_items(opt_view(col)).len() > 0 {
        seq![(label, csv_items(opt_view(col)))]
    } else {
        Seq::empty()
    }
}

/// The stored per-role columns as credits.
pub open spec fn column_credits(i: ComposeIssue) -> Seq<(Seq<char>, Seq<Seq<char>>)> {
    column_group("Writer"@, i.writer) + column_group("Penciller"@, i.penciller) + column_group(
        "Inker"@,
        i.inker,
    ) + column_group("Colorist"@, i.colorist) + column_group("Letterer"@, i.letterer)
        + column_group("CoverArtist"@, i.cover_artist) + column_group("Editor"@, i.editor)
        + column_group("Translator"@, i.translator)
}

/// MetronInfo credits: the stored columns when credits are pinned, else
/// the provider's credits by role.
pub open spec fn metron_credits(ctx: ComposeContext) -> Seq<(Seq<char>, Seq<Seq<char>>)> {
    if ctx.issue_pin("credits"@) {
        column_credits(*ctx.issue)
    } else {
        grouped_credits(ctx.provider.credits@)
    }
}

/// The first series id stored under `key` once `_series` is appended to
/// its source.
pub open spec fn suffixed_match(m: Seq<(String, String)>, key: Seq<char>) -> Option<String>
    decreases m.len(),
{
    if m.len() == 0 {
        None
    } else if m[0].0@ + "_series"@ == key {
        Some(m[0].1)
    } else {
        suffixed_match(m.drop_first(), key)
    }
}

/// The MetronInfo ids: the issue's ids, then each series id under its
/// source with `_series` appended, unless that key is taken.
pub open spec fn merged_id(
    issue_ids: Seq<(String, String)>,
    series_ids: Seq<(String, String)>,
    key: Seq<char>,
) -> Option<String> {
    match first_match(issue_ids, key) {
        Some(v) => Some(v),
        None => suffixed_match(series_ids, key),
    }
}

proof fn lemma_suffixed_append(m: Seq<(String, String)>, p: (String, String), k: Seq<char>)
    ensures
        suffixed_match(m.push(p), k) == match suffixed_match(m, k) {
            Some(v) => Some(v),
            None => if p.0@ + "_series"@ == k {
                Some(p.1)
            } else {
                None
            },
        },
    decreases m.len(),
{
    let mp = m.push(p);
    if m.len() == 0 {
        assert(mp[0] == p);
        assert(mp.drop_first() =~= Seq::<(String, String)>::empty());
        assert(suffixed_match(mp.drop_first(), k) is None);
    } else {
        assert(mp[0] == m[0]);
        assert(mp.drop_first() =~= m.drop_first().push(p));
        if m[0].0@ + "_series"@ != k {
            lemma_suffixed_append(m.drop_first(), p, k);
            assert(suffixed_match(mp, k) == suffixed_match(mp.drop_first(), k));
        }
    }
}

fn clone_pairs(v: &Vec<(String, String)>) -> (r: Vec<(String, String)>)
    ensures
        r@ == v@,
{
    let mut out: Vec<(String, String)> = Vec::new();
    let mut i: usize = 0;
    while i < v.len()
        invariant
            i <= v@.len(),
            out@ == v@.take(i as int),
        decreases v@.len() - i,
    {
        out.push((v[i].0.clone(), v[i].1.clone()));
        i = i + 1;
        assert(out@ =~= v@.take(i as int));
    }
    assert(v@.take(v@.len() as int) =~= v@);
    out
}

fn merge_ids(issue_ids: &Vec<(String, String)>, series_ids: &Vec<(String, String)>) -> (r: Vec<
    (String, String),
>)
    ensures
        forall|k: Seq<char>| #[trigger] first_match(r@, k) == merged_id(issue_ids@, series_ids@, k),
{
    let mut out = clone_pairs(issue_ids);
    let mut i: usize = 0;
    assert forall|k: Seq<char>| #[trigger] first_match(out@, k) == merged_id(issue_ids@, series_ids@.take(0), k) by {
        assert(series_ids@.take(0) =~= Seq::<(String, String)>::empty());
    }
    while i < series_ids.len()
        invariant
            i <= series_ids@.len(),
            forall|k: Seq<char>| #[trigger]
                first_match(out@, k) == merged_id(issue_ids@, series_ids@.take(i as int), k),
        decreases series_ids@.len() - i,
    {
        let ghost pre = series_ids@.take(i as int);
        let ghost p = series_ids@[i as int];
        assert(series_ids@.take(i + 1) =~= pre.push(p));
        let key = concat2(series_ids[i].0.as_str(), "_series");
        let ghost kv = key@;
        assert forall|k: Seq<char>| #[trigger] suffixed_match(series_ids@.take(i + 1), k) == match suffixed_match(pre, k) {
            Some(v) => Some(v),
            None => if kv == k { Some(p.1) } else { None },
        } by {
            lemma_suffixed_append(pre, p, k);
        }
        match find_key(&out, key.as_str()) {
            Some(_) => {},
            None => {
                let ghost before = out@;
                let entry = (key, series_ids[i].1.clone());
                let ghost e = entry;
                out.push(entry);
                assert forall|k: Seq<char>| #[trigger]
                    first_match(out@, k) == merged_id(issue_ids@, series_ids@.take(i + 1), k) by {
                    lemma_first_match_append(before, e, k);
                }
            },
        }
        i = i + 1;
    }
    assert(series_ids@.take(series_ids@.len() as int) =~= series_ids@);
    out
}

proof fn lemma_names_for_absent_role(cs: Seq<CreditCandidate>, r: Seq<char>)
    requires
        !credit_roles(cs).contains(r),
    ensures
        names_for_role(cs, r) == Seq::<Seq<char>>::empty(),
    decreases cs.len(),
{
    if cs.len() > 0 {
        let before = credit_roles(cs.drop_last());
        if before.contains(r) {
            let j = choose|j: int| 0 <= j < before.len() && before[j] == r;
            if !before.contains(cs.last().role@) {
                assert(credit_roles(cs) == before.push(cs.last().role@));
            }
            assert(credit_roles(cs)[j] == r);
            assert(false);
        }
        lemma_names_for_absent_role(cs.drop_last(), r);
        if cs.last().role@ == r {
            if !before.contains(cs.last().role@) {
                assert(credit_roles(cs) == before.push(r));
                assert(credit_roles(cs)[before.len() as int] == r);
            }
        }
        assert(names_for_role(cs, r) =~= Seq::<Seq<char>>::empty());
    }
}

fn index_of(v: &Vec<String>, key: &str) -> (r: Option<usize>)
    ensures
        match r {
            Some(j) => j < v@.len() && v@[j as int]@ == key@,
            None => !string_views(v@).contains(key@),
        },
{
    let mut i: usize = 0;
    while i < v.len()
        invariant
            i <= v@.len(),
            forall|j: int| 0 <= j < i ==> #[trigger] v@[j]@ != key@,
        decreases v@.len() - i,
    {
        if str_eq(v[i].as_str(), key) {
            return Some(i);
        }
        i = i + 1;
    }
    proof {
        if string_views(v@).contains(key@) {
            let j = choose|j: int| 0 <= j < string_views(v@).len() && string_views(v@)[j] == key@;
            assert(v@[j]@ != key@);
        }
    }
    None
}

fn group_credits(cs: &Vec<CreditCandidate>) -> (r: Vec<(String, Vec<String>)>)
    ensures
        groups_view(r@) == grouped_credits(cs@),
{
    let mut roles: Vec<String> = Vec::new();
    let mut names: Vec<Vec<String>> = Vec::new();
    let mut i: usize = 0;
    assert(string_views(roles@) =~= credit_roles(cs@.take(0)));
    while i < cs.len()
        invariant
            i <= cs@.len(),
            roles@.len() == names@.len(),
            string_views(roles@) == credit_roles(cs@.take(i as int)),
            forall|a: int, b: int| 0 <= a < b < roles@.len() ==> roles@[a]@ != roles@[b]@,
            forall|k: int|
                0 <= k < roles@.len() ==> string_views(#[trigger] names@[k]@) == names_for_role(
                    cs@.take(i as int),
                    roles@[k]@,
                ),
        decreases cs@.len() - i,
    {
        let ghost pre = cs@.take(i as int);
        let ghost post = cs@.take(i + 1);
        let ghost c = cs@[i as int];
        assert(post.drop_last() =~= pre);
        assert(post.last() == c);
        let ghost roles0 = roles@;
        let ghost names0 = names@;
        match index_of(&roles, cs[i].role.as_str()) {
            Some(j) => {
                let mut v = crate::text::clone_strings(&names[j]);
                v.push(cs[i].name.clone());
                names.set(j, v);
                assert(credit_roles(pre).contains(c.role@)) by {
                    assert(string_views(roles0)[j as int] == c.role@);
                }
                assert(string_views(roles@) =~= credit_roles(post));
                assert forall|k: int| 0 <= k < roles@.len() implies string_views(
                    #[trigger] names@[k]@,
                ) == names_for_role(post, roles@[k]@) by {
                    if k == j {
                        assert(string_views(names@[k]@) =~= string_views(names0[k]@).push(c.name@));
                    } else {
                        assert(roles@[k]@ != c.role@);
                        assert(names_for_role(post, roles@[k]@) =~= names_for_role(pre, roles@[k]@));
                    }
                }
            },
            None => {
                roles.push(cs[i].role.clone());
                let mut v: Vec<String> = Vec::new();
                v.push(cs[i].name.clone());
                names.push(v);
                assert(string_views(roles@) =~= credit_roles(pre).push(c.role@));
                assert forall|a: int, b: int| 0 <= a < b < roles@.len() implies roles@[a]@
                    != roles@[b]@ by {
                    if b == roles0.len() {
                        assert(string_views(roles0)[a] == roles0[a]@);
                    }
                }
                assert forall|k: int| 0 <= k < roles@.len() implies string_views(
                    #[trigger] names@[k]@,
                ) == names_for_role(post, roles@[k]@) by {
                    if k == roles0.len() {
                        lemma_names_for_absent_role(pre, c.role@);
                        assert(string_views(names@[k]@) =~= seq![c.name@]);
                        assert(names_for_role(post, c.role@) =~= Seq::<Seq<char>>::empty() + seq![c.name@]);
                    } else {
                        assert(string_views(roles0)[k] == roles0[k]@);
                        assert(roles@[k]@ != c.role@);
                        assert(names_for_role(post, roles@[k]@) =~= names_for_role(pre, roles@[k]@));
                    }
                }
            },
        }
        i = i + 1;
    }
    assert(cs@.take(cs@.len() as int) =~= cs@);
    let mut out: Vec<(String, Vec<String>)> = Vec::new();
    let mut k: usize = 0;
    while k < roles.len()
        invariant
            k <= roles@.len(),
            roles@.len() == names@.len(),
            string_views(roles@) == credit_roles(cs@),
            forall|m: int|
                0 <= m < roles@.len() ==> string_views(#[trigger] names@[m]@) == names_for_role(
                    cs@,
                    roles@[m]@,
                ),
            out@.len() == k,
            forall|m: int| 0 <= m < k ==> #[trigger] out@[m].0@ == roles@[m]@ && string_views(out@[m].1@) == string_views(names@[m]@),
        decreases roles@.len() - k,
    {
        out.push((roles[k].clone(), crate::text::clone_strings(&names[k])));
        k = k + 1;
    }
    assert forall|m: int| 0 <= m < out@.len() implies #[trigger] groups_view(out@)[m] == grouped_credits(cs@)[m] by {
        assert(string_views(roles@)[m] == roles@[m]@);
    }
    assert(groups_view(out@) =~= grouped_credits(cs@));
    out
}

fn push_role_csv(out: &mut Vec<(String, Vec<String>)>, role: &str, csv: &Option<String>)
    ensures
        groups_view(final(out)@) == groups_view(old(out)@) + column_group(role@, *csv),
{
    let names = split_csv(csv);
    let ghost before = out@;
    if names.len() > 0 {
        let label = string_of(&chars_of(role));
        out.push((label, names));
        assert(groups_view(out@) =~= groups_view(before) + column_group(role@, *csv));
    } else {
        assert(groups_view(out@) =~= groups_view(before) + column_group(role@, *csv));
    }
}

fn compose_credits(ctx: &ComposeContext) -> (r: Vec<(String, Vec<String>)>)
    ensures
        groups_view(r@) == metron_credits(*ctx),
{
    if ctx.is_issue_pinned("credits") {
        let i = ctx.issue;
        let mut out: Vec<(String, Vec<String>)> = Vec::new();
        assert(groups_view(out@) =~= Seq::<(Seq<char>, Seq<Seq<char>>)>::empty());
        push_role_csv(&mut out, "Writer", &i.writer);
        push_role_csv(&mut out, "Penciller", &i.penciller);
        push_role_csv(&mut out, "Inker", &i.inker);
        push_role_csv(&mut out, "Colorist", &i.colorist);
        push_role_csv(&mut out, "Letterer", &i.letterer);
        push_role_csv(&mut out, "CoverArtist", &i.cover_artist);
        push_role_csv(&mut out, "Editor", &i.editor);
        push_role_csv(&mut out, "Translator", &i.translator);
        assert(groups_view(out@) =~= column_credits(*i));
        out
    } else {
        group_credits(&ctx.provider.credits)
    }
}

/// The MetronInfo document for an apply: the same picks as the
/// ComicInfo composer for the shared elements (the number follows only
/// its own pin here), lists as separate items, the ids merged from the
/// issue's and the series' ids, and the credits grouped by role.
pub fn compose_metroninfo(ctx: &ComposeContext) -> (r: MetronInfoFields)
    ensures
        opt_view(r.title) == pick_text(ctx.issue_pin("title"@), opt_view(ctx.issue.title), opt_view(ctx.provider.title)),
        opt_view(r.series) == pick_name(ctx.series_pin("title"@), ctx.series.name@, opt_view(ctx.provider.series_name)),
        opt_view(r.publisher) == pick_text(ctx.series_pin("publisher"@), opt_view(ctx.series.publisher), opt_view(ctx.provider.publisher)),
        opt_view(r.imprint) == pick_text(ctx.series_pin("imprint"@), opt_view(ctx.series.imprint), opt_view(ctx.provider.imprint)),
        opt_view(r.number) == pick_text(ctx.issue_pin("number_raw"@), opt_view(ctx.issue.number_raw), opt_view(ctx.provider.issue_number)),
        r.volume == pick_int(ctx.series_pin("volume"@), ctx.series.volume, ctx.provider.volume),
        r.year == pick_int(ctx.issue_pin("cover_date"@), ctx.issue.year, date_year(ctx.provider.cover_date)),
        r.month == pick_int(ctx.issue_pin("cover_date"@), ctx.issue.month, date_month(ctx.provider.cover_date)),
        r.day == pick_int(ctx.issue_pin("cover_date"@), ctx.issue.day, date_day(ctx.provider.cover_date)),
        opt_view(r.summary) == pick_text(ctx.issue_pin("summary"@) || ctx.issue_pin("description"@), opt_view(ctx.issue.summary), opt_view(ctx.provider.description)),
        opt_view(r.notes) == notes_field(*ctx),
        opt_view(r.age_rating) == pick_text(ctx.issue_pin("age_rating"@), opt_view(ctx.issue.age_rating), opt_view(ctx.provider.age_rating)),
        opt_view(r.language) == pick_text(ctx.issue_pin("language_code"@), opt_view(ctx.issue.language_code), opt_view(ctx.provider.language_code)),
        r.manga == ctx.issue.manga,
        opt_view(r.gtin) == external_text(ctx.issue_external_ids@, "gtin"@),
        string_views(r.story_arcs@) == list_field(ctx.issue_pin("story_arcs"@), opt_view(ctx.issue.story_arc), entity_names(ctx.provider.story_arcs@)),
        string_views(r.characters@) == list_field(ctx.issue_pin("characters"@), opt_view(ctx.issue.characters), entity_names(ctx.provider.characters@)),
        string_views(r.teams@) == list_field(ctx.issue_pin("teams"@), opt_view(ctx.issue.teams), entity_names(ctx.provider.teams@)),
        string_views(r.locations@) == list_field(ctx.issue_pin("locations"@), opt_view(ctx.issue.locations), entity_names(ctx.provider.locations@)),
        string_views(r.tags@) == list_field(ctx.issue_pin("tags"@), opt_view(ctx.issue.tags), string_views(ctx.provider.tags@)),
        string_views(r.genres@) == list_field(ctx.issue_pin("genres"@), opt_view(ctx.issue.genre), string_views(ctx.provider.genres@)),
        forall|k: Seq<char>| #[trigger] first_match(r.ids@, k) == merged_id(ctx.issue_external_ids@, ctx.series_external_ids@, k),
        groups_view(r.credits@) == metron_credits(*ctx),
{
    let issue = ctx.issue;
    let series = ctx.series;
    let p = ctx.provider;
    let (year, month, day) = cover_parts(p.cover_date);
    let date_pin = ctx.is_issue_pinned("cover_date");
    let summary_pin = ctx.is_issue_pinned("summary") || ctx.is_issue_pinned("description");
    MetronInfoFields {
        title: prefer_user_opt_str(ctx.is_issue_pinned("title"), &issue.title, &p.title),
        series: prefer_user_str(ctx.is_series_pinned("title"), &series.name, &p.series_name),
        publisher: prefer_user_opt_str(ctx.is_series_pinned("publisher"), &series.publisher, &p.publisher),
        imprint: prefer_user_opt_str(ctx.is_series_pinned("imprint"), &series.imprint, &p.imprint),
        number: prefer_user_opt_str(ctx.is_issue_pinned("number_raw"), &issue.number_raw, &p.issue_number),
        volume: prefer_user_int(ctx.is_series_pinned("volume"), series.volume, p.volume),
        year: prefer_user_int(date_pin, issue.year, year),
        month: prefer_user_int(date_pin, issue.month, month),
        day: prefer_user_int(date_pin, issue.day, day),
        summary: prefer_user_opt_str(summary_pin, &issue.summary, &p.description),
        notes: compose_notes(ctx),
        age_rating: prefer_user_opt_str(ctx.is_issue_pinned("age_rating"), &issue.age_rating, &p.age_rating),
        language: prefer_user_opt_str(ctx.is_issue_pinned("language_code"), &issue.language_code, &p.language_code),
        manga: clone_opt_string(&issue.manga),
        gtin: prefer_external_id_str(ctx.issue_external_ids, "gtin"),
        story_arcs: compose_list(ctx.is_issue_pinned("story_arcs"), &issue.story_arc, entity_name_list(&p.story_arcs)),
        characters: compose_list(ctx.is_issue_pinned("characters"), &issue.characters, entity_name_list(&p.characters)),
        teams: compose_list(ctx.is_issue_pinned("teams"), &issue.teams, entity_name_list(&p.teams)),
        locations: compose_list(ctx.is_issue_pinned("locations"), &issue.locations, entity_name_list(&p.locations)),
        tags: compose_list(ctx.is_issue_pinned("tags"), &issue.tags, crate::text::clone_strings(&p.tags)),
        genres: compose_list(ctx.is_issue_pinned("genres"), &issue.genre, crate::text::clone_strings(&p.genres)),
        ids: merge_ids(ctx.issue_external_ids, ctx.series_external_ids),
        credits: compose_credits(ctx),
    }
}

/// The issue-level keys whose composed value reads the stored one when
/// pinned.
pub open spec fn issue_pin_keys() -> Seq<Seq<char>> {
    seq![
        "title"@, "number_raw"@, "summary"@, "description"@, "notes"@, "cover_date"@,
        "page_count"@, "language_code"@, "format"@, "age_rating"@, "community_rating"@,
        "scan_information"@, "characters"@, "teams"@, "locations"@, "tags"@, "genres"@,
        "story_arcs"@, "credits"@, "writer"@, "penciller"@, "inker"@, "colorist"@,
        "letterer"@, "coverartist"@, "editor"@, "translator"@,
    ]
}

/// The series-level keys of the same kind.
pub open spec fn series_pin_keys() -> Seq<Seq<char>> {
    seq!["title"@, "volume"@, "publisher"@, "imprint"@]
}

/// The keys of `keys` that are among the pins, in order.
pub open spec fn pinned_keys(keys: Seq<Seq<char>>, pins: Seq<String>) -> Seq<Seq<char>>
    decreases keys.len(),
{
    if keys.len() == 0 {
        Seq::empty()
    } else {
        pinned_keys(keys.drop_last(), pins) + if pinned(pins, keys.last()) {
            seq![keys.last()]
        } else {
            Seq::empty()
        }
    }
}

fn push_pinned_keys(out: &mut Vec<String>, keys: &Vec<&str>, pins: &Vec<String>)
    ensures
        string_views(final(out)@) == string_views(old(out)@) + pinned_keys(
            keys@.map_values(|k: &str| k@),
            pins@,
        ),
{
    let ghost start = string_views(out@);
    let ghost ks = keys@.map_values(|k: &str| k@);
    let mut i: usize = 0;
    assert(ks.take(0) =~= Seq::<Seq<char>>::empty());
    assert(string_views(out@) =~= start + pinned_keys(ks.take(0), pins@));
    while i < keys.len()
        invariant
            i <= keys@.len(),
            ks == keys@.map_values(|k: &str| k@),
            string_views(out@) == start + pinned_keys(ks.take(i as int), pins@),
        decreases keys@.len() - i,
    {
        assert(ks.take(i + 1).drop_last() =~= ks.take(i as int));
        assert(ks.take(i + 1).last() == keys@[i as int]@);
        let ghost out0 = string_views(out@);
        if is_pinned(pins, keys[i]) {
            out.push(string_of(&chars_of(keys[i])));
            assert(string_views(out@) =~= out0.push(keys@[i as int]@));
        }
        i = i + 1;
        assert(string_views(out@) =~= start + pinned_keys(ks.take(i as int), pins@));
    }
    assert(ks.take(keys@.len() as int) =~= ks);
}

/// The pinned keys whose stored value the composers kept over the
/// provider's: first the issue-level keys, then the series-level ones.
pub fn enumerate_suppressed_pins(ctx: &ComposeContext) -> (r: Vec<String>)
    ensures
        string_views(r@) == pinned_keys(issue_pin_keys(), ctx.issue_user_pins@) + pinned_keys(
            series_pin_keys(),
            ctx.series_user_pins@,
        ),
{
    let issue_keys: Vec<&str> = vec![
        "title", "number_raw", "summary", "description", "notes", "cover_date", "page_count",
        "language_code", "format", "age_rating", "community_rating", "scan_information",
        "characters", "teams", "locations", "tags", "genres", "story_arcs", "credits", "writer",
        "penciller", "inker", "colorist", "letterer", "coverartist", "editor", "translator",
    ];
    let series_keys: Vec<&str> = vec!["title", "volume", "publisher", "imprint"];
    assert(issue_keys@.map_values(|k: &str| k@) =~= issue_pin_keys());
    assert(series_keys@.map_values(|k: &str| k@) =~= series_pin_keys());
    let mut out: Vec<String> = Vec::new();
    assert(string_views(out@) =~= Seq::<Seq<char>>::empty());
    push_pinned_keys(&mut out, &issue_keys, ctx.issue_user_pins);
    push_pinned_keys(&mut out, &series_keys, ctx.series_user_pins);
    assert(string_views(out@) =~= pinned_keys(issue_pin_keys(), ctx.issue_user_pins@) + pinned_keys(
        series_pin_keys(),
        ctx.series_user_pins@,
    ));
    out
}

/// A field the user pinned keeps its stored value, whatever the provider
/// offers; an unpinned field takes the provider's value when there is
/// one.
pub proof fn lemma_pin_keeps_stored(db: Option<Seq<char>>, provider: Option<Seq<char>>, db_int: Option<i32>, provider_int: Option<i32>)
    ensures
        pick_text(true, db, provider) == keep_filled(db),
        pick_int(true, db_int, provider_int) == db_int,
        provider is Some ==> pick_text(false, db, provider) == keep_filled(provider),
        provider_int is Some ==> pick_int(false, db_int, provider_int) == provider_int,
{
}

/// The series name of a composed sidecar: when the user pinned the series
/// title the stored name is kept (absent only when it is blank), whatever
/// the provider offers; otherwise the provider's name wins when it is not
/// blank, and the stored name stands in for a missing or blank one.
pub proof fn lemma_pinned_series_name_kept(db: Seq<char>, provider: Option<Seq<char>>)
    ensures
        pick_name(true, db, provider) == (if nonblank(db) { Some(db) } else { None }),
        filled(provider) ==> pick_name(false, db, provider) == provider,
        !filled(provider) ==> pick_name(false, db, provider) == (if nonblank(db) {
            Some(db)
        } else {
            None
        }),
{
}

proof fn lemma_role_names_members(cs: Seq<CreditCandidate>, role: Seq<char>)
    ensures
        role_names(cs, role).len() <= cs.len(),
        forall|n: Seq<char>|
            role_names(cs, role).contains(n) <==> exists|i: int|
                0 <= i < cs.len() && (#[trigger] cs[i]).name@ == n && ascii_lower(cs[i].role@)
                    == ascii_lower(role),
    decreases cs.len(),
{
    if cs.len() > 0 {
        let init = cs.drop_last();
        lemma_role_names_members(init, role);
        let r0 = role_names(init, role);
        let tail = if same_ignoring_ascii_case(cs.last().role@, role) {
            seq![cs.last().name@]
        } else {
            Seq::<Seq<char>>::empty()
        };
        assert(role_names(cs, role) == r0 + tail);
        assert forall|n: Seq<char>|
            role_names(cs, role).contains(n) <==> exists|i: int|
                0 <= i < cs.len() && (#[trigger] cs[i]).name@ == n && ascii_lower(cs[i].role@)
                    == ascii_lower(role) by {
            if (r0 + tail).contains(n) {
                let j = choose|j: int| 0 <= j < (r0 + tail).len() && (r0 + tail)[j] == n;
                if j < r0.len() {
                    assert(r0[j] == n);
                    assert(r0.contains(n));
                    let i = choose|i: int|
                        0 <= i < init.len() && (#[trigger] init[i]).name@ == n && ascii_lower(
                            init[i].role@,
                        ) == ascii_lower(role);
                    assert(cs[i] == init[i]);
                } else {
                    assert(cs[cs.len() - 1] == cs.last());
                }
            }
            if exists|i: int|
                0 <= i < cs.len() && (#[trigger] cs[i]).name@ == n && ascii_lower(cs[i].role@)
                    == ascii_lower(role) {
                let i = choose|i: int|
                    0 <= i < cs.len() && (#[trigger] cs[i]).name@ == n && ascii_lower(cs[i].role@)
                        == ascii_lower(role);
                if i < init.len() {
                    assert(init[i] == cs[i]);
                    assert(r0.contains(n));
                    let j = choose|j: int| 0 <= j < r0.len() && r0[j] == n;
                    assert((r0 + tail)[j] == n);
                } else {
                    assert((r0 + tail)[r0.len() as int] == n);
                }
            }
        }
    }
}

/// Lists and credit columns in a composed sidecar: a pinned list keeps
/// the stored value (absent when blank) whatever the provider offers; an
/// unpinned list takes the provider's names when there are any. A credit
/// column is pinned by the credits pin or its own role pin; the provider
/// names it takes are exactly those credited in that role, ASCII case
/// ignored.
pub proof fn lemma_pinned_lists_kept(
    ctx: ComposeContext,
    role_key: Seq<char>,
    role_label: Seq<char>,
    db: Option<Seq<char>>,
    names: Seq<Seq<char>>,
)
    ensures
        csv_field(true, db, names) == (if filled(db) { db } else { None }),
        names.len() > 0 ==> csv_field(false, db, names) == Some(join_comma(names)),
        names.len() == 0 ==> csv_field(false, db, names) == (if filled(db) { db } else { None }),
        list_field(true, db, names) == csv_items(db),
        names.len() > 0 ==> list_field(false, db, names) == names,
        (ctx.issue_pin("credits"@) || ctx.issue_pin(role_key)) ==> role_field(
            ctx,
            role_key,
            role_label,
            db,
        ) == (if filled(db) { db } else { None }),
        forall|n: Seq<char>|
            role_names(ctx.provider.credits@, role_label).contains(n) <==> exists|i: int|
                0 <= i < ctx.provider.credits@.len() && (#[trigger] ctx.provider.credits@[i]).name@
                    == n && ascii_lower(ctx.provider.credits@[i].role@) == ascii_lower(role_label),
{
    lemma_role_names_members(ctx.provider.credits@, role_label);
}

proof fn lemma_names_for_role_members(cs: Seq<CreditCandidate>, role: Seq<char>)
    ensures
        forall|n: Seq<char>|
            names_for_role(cs, role).contains(n) <==> exists|i: int|
                0 <= i < cs.len() && (#[trigger] cs[i]).name@ == n && cs[i].role@ == role,
    decreases cs.len(),
{
    if cs.len() > 0 {
        let init = cs.drop_last();
        lemma_names_for_role_members(init, role);
        let r0 = names_for_role(init, role);
        let tail = if cs.last().role@ == role {
            seq![cs.last().name@]
        } else {
            Seq::<Seq<char>>::empty()
        };
        assert(names_for_role(cs, role) == r0 + tail);
        assert forall|n: Seq<char>|
            names_for_role(cs, role).contains(n) <==> exists|i: int|
                0 <= i < cs.len() && (#[trigger] cs[i]).name@ == n && cs[i].role@ == role by {
            if (r0 + tail).contains(n) {
                let j = choose|j: int| 0 <= j < (r0 + tail).len() && (r0 + tail)[j] == n;
                if j < r0.len() {
                    assert(r0[j] == n);
                    assert(r0.contains(n));
                    let i = choose|i: int|
                        0 <= i < init.len() && (#[trigger] init[i]).name@ == n && init[i].role@ == role;
                    assert(cs[i] == init[i]);
                } else {
                    assert(cs[cs.len() - 1] == cs.last());
                }
            }
            if exists|i: int| 0 <= i < cs.len() && (#[trigger] cs[i]).name@ == n && cs[i].role@ == role {
                let i = choose|i: int|
                    0 <= i < cs.len() && (#[trigger] cs[i]).name@ == n && cs[i].role@ == role;
                if i < init.len() {
                    assert(init[i] == cs[i]);
                    assert(r0.contains(n));
                    let j = choose|j: int| 0 <= j < r0.len() && r0[j] == n;
                    assert((r0 + tail)[j] == n);
                } else {
                    assert((r0 + tail)[r0.len() as int] == n);
                }
            }
        }
    }
}

proof fn lemma_credit_roles_members(cs: Seq<CreditCandidate>)
    ensures
        forall|r: Seq<char>|
            credit_roles(cs).contains(r) <==> exists|i: int| 0 <= i < cs.len() && (#[trigger] cs[i]).role@ == r,
        forall|a: int, b: int| 0 <= a < b < credit_roles(cs).len() ==> credit_roles(cs)[a] != credit_roles(cs)[b],
    decreases cs.len(),
{
    if cs.len() > 0 {
        let init = cs.drop_last();
        lemma_credit_roles_members(init);
        let before = credit_roles(init);
        let lr = cs.last().role@;
        assert forall|r: Seq<char>|
            credit_roles(cs).contains(r) <==> exists|i: int| 0 <= i < cs.len() && (#[trigger] cs[i]).role@ == r by {
            if exists|i: int| 0 <= i < cs.len() && (#[trigger] cs[i]).role@ == r {
                let i = choose|i: int| 0 <= i < cs.len() && (#[trigger] cs[i]).role@ == r;
                if i < init.len() {
                    assert(init[i] == cs[i]);
                    assert(before.contains(r));
                    let j = choose|j: int| 0 <= j < before.len() && before[j] == r;
                    if !before.contains(lr) {
                        assert(before.push(lr)[j] == r);
                    }
                } else {
                    assert(cs[i] == cs.last());
                    if !before.contains(lr) {
                        assert(before.push(lr)[before.len() as int] == r);
                    }
                }
            }
            if credit_roles(cs).contains(r) {
                if before.contains(r) {
                    let i = choose|i: int| 0 <= i < init.len() && (#[trigger] init[i]).role@ == r;
                    assert(cs[i] == init[i]);
                } else {
                    let j = choose|j: int| 0 <= j < before.push(lr).len() && before.push(lr)[j] == r;
                    if j < before.len() {
                        assert(before.push(lr)[j] == before[j]);
                    }
                    assert(cs[cs.len() - 1] == cs.last());
                }
            }
        }
        if !before.contains(lr) {
            assert forall|a: int, b: int| 0 <= a < b < before.push(lr).len() implies before.push(lr)[a]
                != before.push(lr)[b] by {
                assert(before.push(lr)[a] == before[a]);
                if b < before.len() {
                    assert(before.push(lr)[b] == before[b]);
                }
            }
        }
    }
}

/// The provider's credits grouped by role: each role credited appears in
/// exactly one group, no other role appears, and a group holds exactly
/// the names credited in that role.
pub proof fn lemma_grouped_credits(cs: Seq<CreditCandidate>, role: Seq<char>, n: Seq<char>)
    ensures
        (exists|g: int| 0 <= g < grouped_credits(cs).len() && (#[trigger] grouped_credits(cs)[g]).0 == role)
            == (exists|i: int| 0 <= i < cs.len() && (#[trigger] cs[i]).role@ == role),
        forall|a: int, b: int|
            0 <= a < b < grouped_credits(cs).len() ==> grouped_credits(cs)[a].0 != grouped_credits(cs)[b].0,
        forall|g: int|
            0 <= g < grouped_credits(cs).len() ==> ((#[trigger] grouped_credits(cs)[g]).1.contains(n)
                == exists|i: int|
                0 <= i < cs.len() && (#[trigger] cs[i]).name@ == n && cs[i].role@ == grouped_credits(cs)[g].0),
{
    lemma_credit_roles_members(cs);
    let gs = grouped_credits(cs);
    let rs = credit_roles(cs);
    assert(gs.len() == rs.len());
    assert forall|g: int| 0 <= g < gs.len() implies (#[trigger] gs[g]).0 == rs[g] && gs[g].1 == names_for_role(cs, rs[g]) by {
    }
    if exists|g: int| 0 <= g < gs.len() && (#[trigger] gs[g]).0 == role {
        let g = choose|g: int| 0 <= g < gs.len() && (#[trigger] gs[g]).0 == role;
        assert(rs[g] == role);
        assert(rs.contains(role));
    }
    if exists|i: int| 0 <= i < cs.len() && (#[trigger] cs[i]).role@ == role {
        assert(rs.contains(role));
        let g = choose|g: int| 0 <= g < rs.len() && rs[g] == role;
        assert(gs[g].0 == role);
    }
    assert forall|g: int| 0 <= g < gs.len() implies ((#[trigger] gs[g]).1.contains(n) == exists|i: int|
        0 <= i < cs.len() && (#[trigger] cs[i]).name@ == n && cs[i].role@ == gs[g].0) by {
        lemma_names_for_role_members(cs, rs[g]);
    }
}

/// The pins a sidecar reports as suppressing provider values: exactly the
/// known keys that are pinned, each where it stands among the keys.
pub proof fn lemma_pinned_keys_members(keys: Seq<Seq<char>>, pins: Seq<String>, k: Seq<char>)
    ensures
        pinned_keys(keys, pins).contains(k) == (keys.contains(k) && pinned(pins, k)),
        pinned_keys(keys, pins).len() <= keys.len(),
    decreases keys.len(),
{
    if keys.len() > 0 {
        let init = keys.drop_last();
        lemma_pinned_keys_members(init, pins, k);
        let r0 = pinned_keys(init, pins);
        let tail = if pinned(pins, keys.last()) {
            seq![keys.last()]
        } else {
            Seq::<Seq<char>>::empty()
        };
        assert(pinned_keys(keys, pins) == r0 + tail);
        if (r0 + tail).contains(k) {
            let j = choose|j: int| 0 <= j < (r0 + tail).len() && (r0 + tail)[j] == k;
            if j < r0.len() {
                assert(r0[j] == k);
                assert(r0.contains(k));
                let i = choose|i: int| 0 <= i < init.len() && init[i] == k;
                assert(keys[i] == k);
            } else {
                assert(keys[keys.len() - 1] == k);
            }
        }
        if keys.contains(k) && pinned(pins, k) {
            let i = choose|i: int| 0 <= i < keys.len() && keys[i] == k;
            if i < init.len() {
                assert(init[i] == k);
                assert(init.contains(k));
                let j = choose|j: int| 0 <= j < r0.len() && r0[j] == k;
                assert((r0 + tail)[j] == k);
            } else {
                assert((r0 + tail)[r0.len() as int] == k);
            }
        }
    }
}

/// The notes carry the attribution at most once: notes that already
/// hold it are left as they are.
pub proof fn lemma_attribution_once(ctx: ComposeContext)
    ensures
        ({
            let base = pick_text(false, opt_view(ctx.issue.notes), opt_view(ctx.provider.notes));
            (!ctx.issue_pin("notes"@) && base is Some && attribution(ctx) is Some
                && contains_text(base.unwrap(), attribution(ctx).unwrap())) ==> notes_field(ctx) == base
        }),
        ctx.issue_pin("notes"@) ==> notes_field(ctx) == keep_filled(opt_view(ctx.issue.notes)),
{
}

} // verus!

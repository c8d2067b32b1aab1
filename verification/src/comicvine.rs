//! ComicVine's response shapes and how they map onto the
//! provider-neutral candidates and detail records.
use vstd::prelude::*;
use vstd::string::*;
use crate::identifier::{Source, Identifier, canonical_url, canonical_url_spec};
use crate::provider::{
    ProviderError,
    SeriesCandidate, IssueCandidate, GenericMetadata, EntityCandidate, CreditCandidate,
    CalendarDate, valid_ymd, idents_view, canonical_ident, id_idents, entities_view, named_entities,
    push_named_entity, id_identifiers, credits_view, credit_view, now_ms,
};
use crate::text::{
    trim, blank, chars_of, trim_chars, string_of, parse_i32, parse_i32_chars, int_text, i64_text,
    opt_view, clone_opt_string, is_blank, str_is_blank, filled, is_ws, trim_start, trim_end,
    lemma_trim_start_len, lemma_trim_end_len,
};
use crate::writers::string_views;
use crate::unicode::{to_lowercase, lowercase_of};
use chrono::Datelike;

verus! {

// ───────── response shapes ─────────

/// The image sizes ComicVine offers for one picture.
#[derive(Clone, Debug)]
pub struct CvImage {
    pub icon_url: Option<String>,
    pub medium_url: Option<String>,
    pub screen_url: Option<String>,
    pub super_url: Option<String>,
    pub original_url: Option<String>,
    pub thumb_url: Option<String>,
}

/// A reference to another ComicVine record.
#[derive(Clone, Debug)]
pub struct CvNamedRef {
    pub id: Option<i64>,
    pub name: Option<String>,
    pub site_detail_url: Option<String>,
}

/// A ComicVine volume (a series).
#[derive(Clone, Debug)]
pub struct CvVolume {
    pub id: Option<i64>,
    pub name: Option<String>,
    pub start_year: Option<String>,
    pub publisher: Option<CvNamedRef>,
    pub deck: Option<String>,
    pub description: Option<String>,
    pub image: Option<CvImage>,
    pub count_of_issues: Option<i32>,
    pub site_detail_url: Option<String>,
    pub date_last_updated: Option<String>,
    pub aliases: Option<String>,
}

/// A credited person on a ComicVine issue; `role` may join several roles
/// with commas.
#[derive(Clone, Debug)]
pub struct CvPersonCredit {
    pub id: Option<i64>,
    pub name: Option<String>,
    pub role: Option<String>,
    pub site_detail_url: Option<String>,
}

/// A ComicVine issue.
#[derive(Clone, Debug)]
pub struct CvIssue {
    pub id: Option<i64>,
    pub name: Option<String>,
    pub issue_number: Option<String>,
    pub cover_date: Option<String>,
    pub store_date: Option<String>,
    pub deck: Option<String>,
    pub description: Option<String>,
    pub image: Option<CvImage>,
    pub person_credits: Option<Vec<CvPersonCredit>>,
    pub character_credits: Option<Vec<CvNamedRef>>,
    pub team_credits: Option<Vec<CvNamedRef>>,
    pub location_credits: Option<Vec<CvNamedRef>>,
    pub concept_credits: Option<Vec<CvNamedRef>>,
    pub object_credits: Option<Vec<CvNamedRef>>,
    pub story_arc_credits: Option<Vec<CvNamedRef>>,
    pub volume: Option<CvVolume>,
    pub site_detail_url: Option<String>,
    pub date_last_updated: Option<String>,
    pub aliases: Option<String>,
}

// ───────── aliases ─────────

/// The pieces of `s` between occurrences of `sep`, scanning from the
/// front with the piece `cur` open (`str::split` with a char).
pub open spec fn pieces(s: Seq<char>, sep: char, cur: Seq<char>) -> Seq<Seq<char>>
    decreases s.len(),
{
    if s.len() == 0 {
        seq![cur]
    } else if s[0] == sep {
        seq![cur] + pieces(s.drop_first(), sep, Seq::empty())
    } else {
        pieces(s.drop_first(), sep, cur.push(s[0]))
    }
}

/// Pieces joined back with `sep` between them.
pub open spec fn join_with(ps: Seq<Seq<char>>, sep: char) -> Seq<char>
    decreases ps.len(),
{
    if ps.len() == 0 {
        Seq::empty()
    } else if ps.len() == 1 {
        ps[0]
    } else {
        ps[0] + seq![sep] + join_with(ps.drop_first(), sep)
    }
}

/// Splitting is undone by joining: the pieces of a text, joined back with
/// the separator, give the text (after the open piece); there is always at
/// least one piece, and no piece holds the separator when the open piece
/// does not.
pub proof fn lemma_pieces_join(s: Seq<char>, sep: char, cur: Seq<char>)
    ensures
        pieces(s, sep, cur).len() >= 1,
        join_with(pieces(s, sep, cur), sep) == cur + s,
        !cur.contains(sep) ==> forall|i: int|
            0 <= i < pieces(s, sep, cur).len() ==> !(#[trigger] pieces(s, sep, cur)[i]).contains(sep),
    decreases s.len(),
{
    if s.len() == 0 {
        assert(cur + s =~= cur);
    } else if s[0] == sep {
        let rest = pieces(s.drop_first(), sep, Seq::empty());
        lemma_pieces_join(s.drop_first(), sep, Seq::empty());
        let ps = seq![cur] + rest;
        assert(ps.drop_first() =~= rest);
        assert(ps[0] == cur);
        assert(Seq::<char>::empty() + s.drop_first() =~= s.drop_first());
        assert(cur + seq![sep] + s.drop_first() =~= cur + s);
        if !cur.contains(sep) {
            assert(!Seq::<char>::empty().contains(sep));
            assert forall|i: int| 0 <= i < ps.len() implies !(#[trigger] ps[i]).contains(sep) by {
                if i > 0 {
                    assert(ps[i] == rest[i - 1]);
                }
            }
        }
    } else {
        lemma_pieces_join(s.drop_first(), sep, cur.push(s[0]));
        assert(cur.push(s[0]) + s.drop_first() =~= cur + s);
        if !cur.contains(sep) {
            assert(!cur.push(s[0]).contains(sep)) by {
                if cur.push(s[0]).contains(sep) {
                    let k = choose|k: int| 0 <= k < cur.push(s[0]).len() && cur.push(s[0])[k] == sep;
                    if k < cur.len() {
                        assert(cur[k] == sep);
                    }
                }
            }
        }
    }
}

/// The trimmed pieces that are not empty, in order.
pub open spec fn kept_trimmed(ps: Seq<Seq<char>>) -> Seq<Seq<char>>
    decreases ps.len(),
{
    if ps.len() == 0 {
        Seq::empty()
    } else {
        (if trim(ps[0]).len() > 0 {
            seq![trim(ps[0])]
        } else {
            Seq::empty()
        }) + kept_trimmed(ps.drop_first())
    }
}

/// ComicVine's newline-separated alias list, each alias trimmed, blank
/// lines dropped.
pub open spec fn alias_list(raw: Option<Seq<char>>) -> Seq<Seq<char>> {
    match raw {
        Some(s) => kept_trimmed(pieces(s, '\n', Seq::empty())),
        None => Seq::empty(),
    }
}

proof fn lemma_kept_trimmed_concat(a: Seq<Seq<char>>, b: Seq<Seq<char>>)
    ensures
        kept_trimmed(a + b) == kept_trimmed(a) + kept_trimmed(b),
    decreases a.len(),
{
    if a.len() == 0 {
        assert(a + b =~= b);
        assert(kept_trimmed(a) + kept_trimmed(b) =~= kept_trimmed(b));
    } else {
        assert((a + b).drop_first() =~= a.drop_first() + b);
        assert((a + b)[0] == a[0]);
        lemma_kept_trimmed_concat(a.drop_first(), b);
        assert(kept_trimmed(a + b) =~= kept_trimmed(a) + kept_trimmed(b));
    }
}

proof fn lemma_kept_trimmed_one(p: Seq<char>)
    ensures
        kept_trimmed(seq![p]) == if trim(p).len() > 0 {
            seq![trim(p)]
        } else {
            Seq::<Seq<char>>::empty()
        },
{
    reveal_with_fuel(kept_trimmed, 2);
    assert(seq![p].drop_first() =~= Seq::<Seq<char>>::empty());
    assert(kept_trimmed(seq![p]) =~= (if trim(p).len() > 0 {
        seq![trim(p)]
    } else {
        Seq::<Seq<char>>::empty()
    }) + Seq::<Seq<char>>::empty());
}

fn push_piece(out: &mut Vec<String>, cur: &Vec<char>)
    ensures
        string_views(final(out)@) == string_views(old(out)@) + kept_trimmed(seq![cur@]),
{
    proof {
        lemma_kept_trimmed_one(cur@);
    }
    let t = trim_chars(cur);
    let ghost before = string_views(out@);
    if t.len() > 0 {
        out.push(string_of(&t));
        assert(string_views(out@) =~= before + seq![trim(cur@)]);
    } else {
        assert(string_views(out@) =~= before + Seq::<Seq<char>>::empty());
    }
}

/// `s.split(sep).map(str::trim).filter(|p| !p.is_empty())`, collected.
pub fn split_trimmed(s: &str, sep: char) -> (r: Vec<String>)
    ensures
        string_views(r@) == kept_trimmed(pieces(s@, sep, Seq::empty())),
{
    let mut out: Vec<String> = Vec::new();
    let v = chars_of(s);
    let mut cur: Vec<char> = Vec::new();
    let mut i: usize = 0;
    assert(v@.skip(0) =~= v@);
    assert(string_views(out@) =~= Seq::<Seq<char>>::empty());
    assert(kept_trimmed(pieces(v@, sep, Seq::empty())) =~= Seq::<Seq<char>>::empty()
        + kept_trimmed(pieces(v@.skip(0), sep, cur@)));
    while i < v.len()
        invariant
            i <= v@.len(),
            v@ == s@,
            kept_trimmed(pieces(v@, sep, Seq::empty())) == string_views(out@)
                + kept_trimmed(pieces(v@.skip(i as int), sep, cur@)),
        decreases v@.len() - i,
    {
        assert(v@.skip(i as int)[0] == v@[i as int]);
        assert(v@.skip(i as int).drop_first() =~= v@.skip(i + 1));
        if v[i] == sep {
            let ghost before = string_views(out@);
            let ghost c0 = cur@;
            let ghost rest = pieces(v@.skip(i + 1), sep, Seq::empty());
            proof {
                lemma_kept_trimmed_concat(seq![c0], rest);
            }
            push_piece(&mut out, &cur);
            cur = Vec::new();
            assert(string_views(out@) + kept_trimmed(rest) =~= before + kept_trimmed(
                seq![c0] + rest,
            ));
        } else {
            cur.push(v[i]);
        }
        i = i + 1;
    }
    assert(v@.skip(i as int) =~= Seq::<char>::empty());
    push_piece(&mut out, &cur);
    out
}

/// Split ComicVine's newline-delimited alias field.
pub fn split_aliases(raw: &Option<String>) -> (r: Vec<String>)
    ensures
        string_views(r@) == alias_list(opt_view(*raw)),
{
    match raw {
        None => {
            let out: Vec<String> = Vec::new();
            assert(string_views(out@) =~= Seq::<Seq<char>>::empty());
            out
        },
        Some(s) => split_trimmed(s.as_str(), '\n'),
    }
}

proof fn lemma_trim_inside(p: Seq<char>, c: char)
    requires
        !p.contains(c),
    ensures
        !trim(p).contains(c),
        trim(p).len() > 0 ==> !is_ws(trim(p)[0]) && !is_ws(trim(p).last()),
{
    lemma_trim_start_len(p);
    let ts = trim_start(p);
    lemma_trim_end_len(ts);
    let t = trim_end(ts);
    if ts.len() > 0 {
        assert(!ts.contains(c)) by {
            if ts.contains(c) {
                let k = choose|k: int| 0 <= k < ts.len() && ts[k] == c;
                assert(ts[k] == p[p.len() - ts.len() + k]);
            }
        }
    } else {
        assert(!ts.contains(c));
    }
    if t.contains(c) {
        let k = choose|k: int| 0 <= k < t.len() && t[k] == c;
        assert(t[k] == ts[k]);
    }
    if t.len() > 0 {
        assert(t[0] == ts[0]);
    }
}

proof fn lemma_kept_trimmed_shape(ps: Seq<Seq<char>>, c: char)
    requires
        forall|i: int| 0 <= i < ps.len() ==> !(#[trigger] ps[i]).contains(c),
    ensures
        forall|i: int|
            0 <= i < kept_trimmed(ps).len() ==> {
                let a = #[trigger] kept_trimmed(ps)[i];
                a.len() > 0 && !is_ws(a[0]) && !is_ws(a.last()) && !a.contains(c)
            },
    decreases ps.len(),
{
    if ps.len() > 0 {
        let rest = ps.drop_first();
        assert forall|i: int| 0 <= i < rest.len() implies !(#[trigger] rest[i]).contains(c) by {
            assert(rest[i] == ps[i + 1]);
        }
        lemma_kept_trimmed_shape(rest, c);
        lemma_trim_inside(ps[0], c);
        let head = if trim(ps[0]).len() > 0 {
            seq![trim(ps[0])]
        } else {
            Seq::<Seq<char>>::empty()
        };
        let k = head + kept_trimmed(rest);
        assert(kept_trimmed(ps) == k);
        assert forall|i: int| 0 <= i < k.len() implies {
            let a = #[trigger] k[i];
            a.len() > 0 && !is_ws(a[0]) && !is_ws(a.last()) && !a.contains(c)
        } by {
            if i >= head.len() {
                assert(k[i] == kept_trimmed(rest)[i - head.len()]);
            }
        }
    }
}

/// Every alias read from ComicVine's list is one line of it, trimmed and
/// not empty: it neither starts nor ends with whitespace and holds no line
/// break.
pub proof fn lemma_alias_list_shape(raw: Option<Seq<char>>)
    ensures
        forall|i: int|
            0 <= i < alias_list(raw).len() ==> {
                let a = #[trigger] alias_list(raw)[i];
                a.len() > 0 && !is_ws(a[0]) && !is_ws(a.last()) && !a.contains('\n')
            },
{
    if let Some(s) = raw {
        lemma_pieces_join(s, '\n', Seq::empty());
        assert(!Seq::<char>::empty().contains('\n'));
        lemma_kept_trimmed_shape(pieces(s, '\n', Seq::empty()), '\n');
    }
}

// ───────── years and dates ─────────

/// A year field: trimmed, then read as an `i32`.
pub open spec fn year_of(raw: Option<Seq<char>>) -> Option<i32> {
    match raw {
        Some(s) => parse_i32(trim(s)),
        None => None,
    }
}

pub fn parse_year(raw: &Option<String>) -> (r: Option<i32>)
    ensures
        r == year_of(opt_view(*raw)),
{
    match raw {
        Some(s) => parse_i32_chars(&trim_chars(&chars_of(s.as_str()))),
        None => None,
    }
}

/// The date `chrono::NaiveDate::parse_from_str(s, "%Y-%m-%d")` reads from
/// `s`.
pub uninterp spec fn iso_date_of(s: Seq<char>) -> Option<CalendarDate>;

/// `chrono::NaiveDate::parse_from_str` with the format `%Y-%m-%d`, as a
/// calendar date; the date it returns is a real one within chrono's
/// range.
#[verifier::external_body]
fn parse_iso_date(s: &str) -> (r: Option<CalendarDate>)
    ensures
        r == iso_date_of(s@),
        r matches Some(d) ==> valid_ymd(d.year, d.month, d.day),
{
    chrono::NaiveDate::parse_from_str(s, "%Y-%m-%d").ok().map(
        |d| CalendarDate { year: d.year(), month: d.month(), day: d.day() },
    )
}

/// A date field: trimmed; empty means none.
pub open spec fn date_of(raw: Option<Seq<char>>) -> Option<CalendarDate> {
    match raw {
        Some(s) => if trim(s).len() == 0 {
            None
        } else {
            iso_date_of(trim(s))
        },
        None => None,
    }
}

pub fn parse_date(raw: &Option<String>) -> (r: Option<CalendarDate>)
    ensures
        r == date_of(opt_view(*raw)),
{
    match raw {
        Some(s) => {
            let t = trim_chars(&chars_of(s.as_str()));
            if t.len() == 0 {
                None
            } else {
                let ts = string_of(&t);
                parse_iso_date(ts.as_str())
            }
        },
        None => None,
    }
}

/// The instant, in Unix milliseconds, that
/// `chrono::NaiveDateTime::parse_from_str(s, "%Y-%m-%d %H:%M:%S")` reads
/// from `s`, taken as UTC.
pub uninterp spec fn cv_timestamp_of(s: Seq<char>) -> Option<i64>;

/// `chrono::NaiveDateTime::parse_from_str` with ComicVine's
/// `%Y-%m-%d %H:%M:%S`, read as UTC, in Unix milliseconds.
#[verifier::external_body]
fn parse_cv_instant(s: &str) -> (r: Option<i64>)
    ensures
        r == cv_timestamp_of(s@),
{
    chrono::NaiveDateTime::parse_from_str(s, "%Y-%m-%d %H:%M:%S").ok().map(
        |ndt| ndt.and_utc().timestamp_millis(),
    )
}

/// A timestamp field: trimmed; empty means none.
pub open spec fn timestamp_of(raw: Option<Seq<char>>) -> Option<i64> {
    match raw {
        Some(s) => if trim(s).len() == 0 {
            None
        } else {
            cv_timestamp_of(trim(s))
        },
        None => None,
    }
}

pub fn parse_cv_timestamp(raw: &Option<String>) -> (r: Option<i64>)
    ensures
        r == timestamp_of(opt_view(*raw)),
{
    match raw {
        Some(s) => {
            let t = trim_chars(&chars_of(s.as_str()));
            if t.len() == 0 {
                None
            } else {
                let ts = string_of(&t);
                parse_cv_instant(ts.as_str())
            }
        },
        None => None,
    }
}

// ───────── images ─────────

/// The image sizes from largest to smallest.
pub open spec fn image_slots(img: CvImage) -> Seq<Option<String>> {
    seq![img.super_url, img.original_url, img.screen_url, img.medium_url, img.icon_url, img.thumb_url]
}

/// The non-empty URLs among `slots`, in order.
pub open spec fn present_urls(slots: Seq<Option<String>>) -> Seq<Seq<char>>
    decreases slots.len(),
{
    if slots.len() == 0 {
        Seq::empty()
    } else {
        present_urls(slots.drop_last()) + match slots.last() {
            Some(u) => if u@.len() > 0 {
                seq![u@]
            } else {
                Seq::empty()
            },
            None => Seq::empty(),
        }
    }
}

pub open spec fn image_urls(image: Option<CvImage>) -> Seq<Seq<char>> {
    match image {
        Some(img) => present_urls(image_slots(img)),
        None => Seq::empty(),
    }
}

/// The URL a slot contributes: its text when present and not empty.
pub open spec fn slot_url(slot: Option<String>) -> Seq<Seq<char>> {
    match slot {
        Some(u) => if u@.len() > 0 {
            seq![u@]
        } else {
            Seq::empty()
        },
        None => Seq::empty(),
    }
}

proof fn lemma_present_urls_cons(slots: Seq<Option<String>>)
    requires
        slots.len() > 0,
    ensures
        present_urls(slots) == slot_url(slots[0]) + present_urls(slots.drop_first()),
    decreases slots.len(),
{
    if slots.len() == 1 {
        assert(slots.drop_first() =~= Seq::<Option<String>>::empty());
        assert(slots.drop_last() =~= Seq::<Option<String>>::empty());
        assert(present_urls(slots.drop_last()) =~= Seq::<Seq<char>>::empty());
        assert(slots.last() == slots[0]);
        assert(present_urls(slots) == present_urls(slots.drop_last()) + slot_url(slots.last()));
        assert(present_urls(slots) =~= slot_url(slots[0]));
    } else {
        let init = slots.drop_last();
        lemma_present_urls_cons(init);
        assert(init.drop_first() =~= slots.drop_first().drop_last());
        assert(slots.drop_first().last() == slots.last());
        assert(present_urls(slots) == present_urls(init) + slot_url(slots.last()));
        assert(present_urls(slots.drop_first()) == present_urls(slots.drop_first().drop_last()) + slot_url(
            slots.last(),
        ));
        assert(present_urls(slots) =~= slot_url(slots[0]) + present_urls(slots.drop_first()));
    }
}

/// The image URLs run from the largest size to the smallest, empty ones
/// left out: the super size leads when it is there, else the original,
/// and so on.
#[verifier::spinoff_prover]
pub proof fn lemma_image_urls_largest_first(img: CvImage)
    ensures
        image_urls(Some(img)) == slot_url(img.super_url) + (slot_url(img.original_url) + (slot_url(
            img.screen_url,
        ) + (slot_url(img.medium_url) + (slot_url(img.icon_url) + slot_url(img.thumb_url))))),
        image_urls(None).len() == 0,
{
    let s0 = image_slots(img);
    let s1 = s0.drop_first();
    let s2 = s1.drop_first();
    let s3 = s2.drop_first();
    let s4 = s3.drop_first();
    let s5 = s4.drop_first();
    assert(s0[0] == img.super_url);
    assert(s1[0] == img.original_url);
    assert(s2[0] == img.screen_url);
    assert(s3[0] == img.medium_url);
    assert(s4[0] == img.icon_url);
    assert(s5[0] == img.thumb_url);
    assert(s5.len() == 1);
    lemma_present_urls_cons(s5);
    assert(s5.drop_first() =~= Seq::<Option<String>>::empty());
    assert(present_urls(s5.drop_first()) =~= Seq::<Seq<char>>::empty());
    assert(present_urls(s5) =~= slot_url(img.thumb_url));
    lemma_present_urls_cons(s4);
    lemma_present_urls_cons(s3);
    lemma_present_urls_cons(s2);
    lemma_present_urls_cons(s1);
    lemma_present_urls_cons(s0);
}

/// The largest image ComicVine offers, and the other sizes in order from
/// large to small; empty URLs count as absent.
pub fn best_image_url(image: &Option<CvImage>) -> (r: (Option<String>, Vec<String>))
    ensures
        ({
            let urls = image_urls(*image);
            &&& urls.len() == 0 ==> r.0 is None && r.1@.len() == 0
            &&& urls.len() > 0 ==> (r.0 matches Some(c) && c@ == urls[0]) && string_views(r.1@)
                == urls.drop_first()
        }),
{
    match image {
        None => (None, Vec::new()),
        Some(img) => {
            let slots: Vec<&Option<String>> = vec![
                &img.super_url,
                &img.original_url,
                &img.screen_url,
                &img.medium_url,
                &img.icon_url,
                &img.thumb_url,
            ];
            let ghost want = image_slots(*img);
            assert(slots@.map_values(|o: &Option<String>| *o) =~= want);
            let mut all: Vec<String> = Vec::new();
            let mut i: usize = 0;
            assert(want.take(0) =~= Seq::<Option<String>>::empty());
            assert(string_views(all@) =~= Seq::<Seq<char>>::empty());
            while i < slots.len()
                invariant
                    i <= slots@.len(),
                    slots@.map_values(|o: &Option<String>| *o) == want,
                    slots@.len() == want.len(),
                    string_views(all@) == present_urls(want.take(i as int)),
                decreases slots@.len() - i,
            {
                let ghost before = string_views(all@);
                assert(want.take(i + 1).drop_last() =~= want.take(i as int));
                assert(want.take(i + 1).last() == want[i as int]);
                assert(*slots@[i as int] == want[i as int]);
                match slots[i] {
                    Some(u) => {
                        if u.as_str().unicode_len() > 0 {
                            all.push(u.clone());
                            assert(string_views(all@) =~= before.push(u@));
                        }
                    },
                    None => {},
                }
                i = i + 1;
                assert(string_views(all@) =~= present_urls(want.take(i as int)));
            }
            assert(want.take(6) =~= want);
            if all.len() == 0 {
                (None, all)
            } else {
                let chosen = all.remove(0);
                assert(string_views(all@) =~= present_urls(want).drop_first());
                (Some(chosen), all)
            }
        },
    }
}

// ───────── candidates ─────────

/// The page URL of a record: the one ComicVine gives, else the canonical
/// one for the entity type.
pub open spec fn page_url(given: Option<Seq<char>>, entity_type: Seq<char>, id: Seq<char>) -> Option<
    Seq<char>,
> {
    match given {
        Some(u) => Some(u),
        None => canonical_url_spec(Source::ComicVine, entity_type, id),
    }
}

fn page_url_of(given: &Option<String>, entity_type: &str, id: &str) -> (r: Option<String>)
    ensures
        opt_view(r) == page_url(opt_view(*given), entity_type@, id@),
{
    match given {
        Some(u) => Some(u.clone()),
        None => canonical_url(Source::ComicVine, entity_type, id),
    }
}

fn ref_name(r: &Option<CvNamedRef>) -> (n: Option<String>)
    ensures
        n == (match *r {
            Some(p) => p.name,
            None => None,
        }),
{
    match r {
        Some(p) => clone_opt_string(&p.name),
        None => None,
    }
}

fn name_or_empty(n: &Option<String>) -> (r: String)
    ensures
        r@ == (match *n {
            Some(s) => s@,
            None => Seq::empty(),
        }),
{
    match n {
        Some(s) => s.clone(),
        None => String::new(),
    }
}

/// A volume as a series search hit; `None` when it has no id.
pub fn cv_volume_to_candidate(v: &CvVolume) -> (r: Option<SeriesCandidate>)
    ensures
        v.id is None <==> r is None,
        r matches Some(c) ==> {
            let ext = int_text(v.id.unwrap() as int);
            let urls = image_urls(v.image);
            &&& c.source == Source::ComicVine
            &&& c.external_id@ == ext
            &&& opt_view(c.external_url) == page_url(opt_view(v.site_detail_url), "series"@, ext)
            &&& c.name@ == (match v.name {
                Some(s) => s@,
                None => Seq::empty(),
            })
            &&& c.year == year_of(opt_view(v.start_year))
            &&& c.publisher == (match v.publisher {
                Some(p) => p.name,
                None => None,
            })
            &&& c.issue_count == v.count_of_issues
            &&& (if urls.len() > 0 {
                c.cover_image_url matches Some(u) && u@ == urls[0]
            } else {
                c.cover_image_url is None
            })
            &&& c.deck == v.deck
            &&& c.alternate_cover_urls@.len() == 0
        },
{
    let id = match v.id {
        Some(id) => id,
        None => return None,
    };
    let external_id = i64_text(id);
    let url = page_url_of(&v.site_detail_url, "series", external_id.as_str());
    let (cover, _) = best_image_url(&v.image);
    Some(
        SeriesCandidate {
            source: Source::ComicVine,
            external_id,
            external_url: url,
            name: name_or_empty(&v.name),
            year: parse_year(&v.start_year),
            publisher: ref_name(&v.publisher),
            issue_count: v.count_of_issues,
            cover_image_url: cover,
            deck: clone_opt_string(&v.deck),
            alternate_cover_urls: Vec::new(),
        },
    )
}

/// An issue as an issue search hit; `None` when it has no id.
pub fn cv_issue_to_candidate(issue: &CvIssue) -> (r: Option<IssueCandidate>)
    ensures
        issue.id is None <==> r is None,
        r matches Some(c) ==> {
            let ext = int_text(issue.id.unwrap() as int);
            let urls = image_urls(issue.image);
            &&& c.source == Source::ComicVine
            &&& c.external_id@ == ext
            &&& opt_view(c.external_url) == page_url(opt_view(issue.site_detail_url), "issue"@, ext)
            &&& c.issue_number == issue.issue_number
            &&& c.name == issue.name
            &&& c.cover_date == date_of(opt_view(issue.cover_date))
            &&& c.series_name == (match issue.volume {
                Some(vol) => vol.name,
                None => None,
            })
            &&& c.series_year == (match issue.volume {
                Some(vol) => year_of(opt_view(vol.start_year)),
                None => None,
            })
            &&& opt_view(c.series_external_id) == (match issue.volume {
                Some(vol) => match vol.id {
                    Some(n) => Some(int_text(n as int)),
                    None => None,
                },
                None => None,
            })
            &&& (if urls.len() > 0 {
                c.cover_image_url matches Some(u) && u@ == urls[0]
            } else {
                c.cover_image_url is None
            })
            &&& c.alternate_cover_urls@.len() == 0
        },
{
    let id = match issue.id {
        Some(id) => id,
        None => return None,
    };
    let external_id = i64_text(id);
    let url = page_url_of(&issue.site_detail_url, "issue", external_id.as_str());
    let (cover, _) = best_image_url(&issue.image);
    let (series_name, series_year, series_external_id) = match &issue.volume {
        Some(vol) => (
            clone_opt_string(&vol.name),
            parse_year(&vol.start_year),
            match vol.id {
                Some(n) => Some(i64_text(n)),
                None => None,
            },
        ),
        None => (None, None, None),
    };
    Some(
        IssueCandidate {
            source: Source::ComicVine,
            external_id,
            external_url: url,
            issue_number: clone_opt_string(&issue.issue_number),
            name: clone_opt_string(&issue.name),
            cover_date: parse_date(&issue.cover_date),
            series_name,
            series_year,
            series_external_id,
            cover_image_url: cover,
            alternate_cover_urls: Vec::new(),
        },
    )
}

// ───────── detail records ─────────

/// A raw separated list split at every separator, nothing dropped.
pub fn split_pieces(s: &str, sep: char) -> (r: Vec<String>)
    ensures
        string_views(r@) == pieces(s@, sep, Seq::empty()),
{
    let mut out: Vec<String> = Vec::new();
    let v = chars_of(s);
    let mut cur: Vec<char> = Vec::new();
    let mut i: usize = 0;
    assert(v@.skip(0) =~= v@);
    assert(pieces(v@, sep, Seq::empty()) =~= string_views(out@) + pieces(v@.skip(0), sep, cur@));
    while i < v.len()
        invariant
            i <= v@.len(),
            v@ == s@,
            pieces(v@, sep, Seq::empty()) == string_views(out@) + pieces(v@.skip(i as int), sep, cur@),
        decreases v@.len() - i,
    {
        assert(v@.skip(i as int)[0] == v@[i as int]);
        assert(v@.skip(i as int).drop_first() =~= v@.skip(i + 1));
        if v[i] == sep {
            let ghost before = string_views(out@);
            let ghost c0 = cur@;
            out.push(string_of(&cur));
            cur = Vec::new();
            assert(string_views(out@) =~= before.push(c0));
            assert(string_views(out@) + pieces(v@.skip(i + 1), sep, cur@) =~= before + (seq![c0]
                + pieces(v@.skip(i + 1), sep, Seq::empty())));
        } else {
            cur.push(v[i]);
        }
        i = i + 1;
    }
    assert(v@.skip(i as int) =~= Seq::<char>::empty());
    let ghost before = string_views(out@);
    out.push(string_of(&cur));
    assert(string_views(out@) =~= before + seq![cur@]);
    out
}

/// The references of a list as `(name, id)` pairs.
pub open spec fn ref_pairs(refs: Option<Vec<CvNamedRef>>) -> Seq<(Option<String>, Option<i64>)> {
    match refs {
        Some(v) => v@.map_values(|n: CvNamedRef| (n.name, n.id)),
        None => Seq::empty(),
    }
}

/// The entities of a ComicVine reference list.
pub fn cv_entities(refs: &Option<Vec<CvNamedRef>>, entity_type: &str) -> (r: Vec<EntityCandidate>)
    ensures
        entities_view(r@) == named_entities(ref_pairs(*refs), Source::ComicVine, entity_type@),
{
    let mut out: Vec<EntityCandidate> = Vec::new();
    match refs {
        None => {
            assert(entities_view(out@) =~= named_entities(ref_pairs(*refs), Source::ComicVine, entity_type@));
        },
        Some(v) => {
            let ghost ps = ref_pairs(*refs);
            let mut i: usize = 0;
            assert(ps.take(0) =~= Seq::<(Option<String>, Option<i64>)>::empty());
            assert(entities_view(out@) =~= named_entities(ps.take(0), Source::ComicVine, entity_type@));
            while i < v.len()
                invariant
                    i <= v@.len(),
                    ps == v@.map_values(|n: CvNamedRef| (n.name, n.id)),
                    entities_view(out@) == named_entities(ps.take(i as int), Source::ComicVine, entity_type@),
                decreases v@.len() - i,
            {
                assert(ps.take(i + 1).drop_last() =~= ps.take(i as int));
                assert(ps.take(i + 1).last() == (v@[i as int].name, v@[i as int].id));
                push_named_entity(&mut out, &v[i].name, v[i].id, Source::ComicVine, entity_type);
                i = i + 1;
            }
            assert(ps.take(v@.len() as int) =~= ps);
        },
    }
    out
}

/// The credits of one ComicVine person: none without a name; one per
/// comma-separated role, trimmed and lower-cased; `unknown` when the role
/// is empty.
pub open spec fn person_credits(c: CvPersonCredit) -> Seq<
    (Seq<char>, Seq<char>, Option<i32>, Seq<(Source, Seq<char>, Option<Seq<char>>)>),
> {
    if filled(opt_view(c.name)) {
        let name = c.name.unwrap()@;
        let ids = id_idents(Source::ComicVine, c.id, "person"@);
        let role = match c.role {
            Some(r) => r@,
            None => Seq::empty(),
        };
        if role.len() == 0 {
            seq![(name, "unknown"@, None, ids)]
        } else {
            pieces(role, ',', Seq::empty()).map_values(
                |p: Seq<char>| (name, lowercase_of(trim(p)), None::<i32>, ids),
            )
        }
    } else {
        Seq::empty()
    }
}

/// The credits of an issue's people, in order.
pub open spec fn issue_credits(cs: Seq<CvPersonCredit>) -> Seq<
    (Seq<char>, Seq<char>, Option<i32>, Seq<(Source, Seq<char>, Option<Seq<char>>)>),
>
    decreases cs.len(),
{
    if cs.len() == 0 {
        Seq::empty()
    } else {
        issue_credits(cs.drop_last()) + person_credits(cs.last())
    }
}

fn push_person_credits(out: &mut Vec<CreditCandidate>, c: &CvPersonCredit)
    ensures
        credits_view(final(out)@) == credits_view(old(out)@) + person_credits(*c),
{
    let ghost before = credits_view(out@);
    let name = match &c.name {
        Some(n) => if str_is_blank(n.as_str()) {
            assert(credits_view(out@) =~= before + person_credits(*c));
            return;
        } else {
            n
        },
        None => {
            assert(credits_view(out@) =~= before + person_credits(*c));
            return;
        },
    };
    let role_empty = match &c.role {
        Some(r) => r.as_str().unicode_len() == 0,
        None => true,
    };
    if role_empty {
        let ids = id_identifiers(Source::ComicVine, c.id, "person");
        out.push(CreditCandidate { name: name.clone(), role: string_of(&chars_of("unknown")), ordinal: None, identifiers: ids });
        assert(credits_view(out@) =~= before + person_credits(*c));
        return;
    }
    let role = match &c.role {
        Some(r) => r,
        None => {
            return;
        },
    };
    let parts = split_pieces(role.as_str(), ',');
    let ghost want = person_credits(*c);
    assert(want =~= pieces(role@, ',', Seq::empty()).map_values(
        |p: Seq<char>| (name@, lowercase_of(trim(p)), None::<i32>, id_idents(Source::ComicVine, c.id, "person"@)),
    ));
    let mut i: usize = 0;
    while i < parts.len()
        invariant
            i <= parts@.len(),
            string_views(parts@) == pieces(role@, ',', Seq::empty()),
            want.len() == parts@.len(),
            forall|j: int| 0 <= j < parts@.len() ==> #[trigger] want[j] == (name@, lowercase_of(trim(parts@[j]@)), None::<i32>, id_idents(Source::ComicVine, c.id, "person"@)),
            credits_view(out@) == before + want.take(i as int),
        decreases parts@.len() - i,
    {
        let t = string_of(&trim_chars(&chars_of(parts[i].as_str())));
        let lowered = to_lowercase(t.as_str());
        let ids = id_identifiers(Source::ComicVine, c.id, "person");
        let cc = CreditCandidate { name: name.clone(), role: lowered, ordinal: None, identifiers: ids };
        let ghost v0 = credits_view(out@);
        out.push(cc);
        assert(credits_view(out@) =~= v0.push(credit_view(cc)));
        i = i + 1;
        assert(credits_view(out@) =~= before + want.take(i as int));
    }
    assert(want.take(parts@.len() as int) =~= want);
}

fn cv_issue_credits(cs: &Option<Vec<CvPersonCredit>>) -> (r: Vec<CreditCandidate>)
    ensures
        credits_view(r@) == issue_credits(match *cs {
            Some(v) => v@,
            None => Seq::empty(),
        }),
{
    let mut out: Vec<CreditCandidate> = Vec::new();
    match cs {
        None => {
            assert(credits_view(out@) =~= issue_credits(Seq::empty()));
        },
        Some(v) => {
            let mut i: usize = 0;
            assert(credits_view(out@) =~= issue_credits(v@.take(0)));
            while i < v.len()
                invariant
                    i <= v@.len(),
                    credits_view(out@) == issue_credits(v@.take(i as int)),
                decreases v@.len() - i,
            {
                assert(v@.take(i + 1).drop_last() =~= v@.take(i as int));
                assert(v@.take(i + 1).last() == v@[i as int]);
                push_person_credits(&mut out, &v[i]);
                i = i + 1;
            }
            assert(v@.take(v@.len() as int) =~= v@);
        },
    }
    out
}

/// The largest image, when there is one.
pub open spec fn cover_of(image: Option<CvImage>) -> Option<Seq<char>> {
    if image_urls(image).len() > 0 {
        Some(image_urls(image)[0])
    } else {
        None
    }
}

/// The other image sizes.
pub open spec fn alts_of(image: Option<CvImage>) -> Seq<Seq<char>> {
    if image_urls(image).len() > 0 {
        image_urls(image).drop_first()
    } else {
        Seq::empty()
    }
}

/// The decimal text of an optional id, empty without one.
pub open spec fn id_text(id: Option<i64>) -> Seq<char> {
    match id {
        Some(n) => int_text(n as int),
        None => Seq::empty(),
    }
}

fn id_string(id: Option<i64>) -> (r: String)
    ensures
        r@ == id_text(id),
{
    match id {
        Some(n) => i64_text(n),
        None => string_of(&Vec::new()),
    }
}

fn nonempty_string(s: String) -> (r: Option<String>)
    ensures
        opt_view(r) == (if s@.len() == 0 { None } else { Some(s@) }),
{
    if s.as_str().unicode_len() == 0 {
        None
    } else {
        Some(s)
    }
}

/// What the detail record of a volume holds.
pub open spec fn volume_metadata(v: CvVolume, m: GenericMetadata) -> bool {
    let ext = id_text(v.id);
    &&& m.series_name == v.name
    &&& m.year_began == year_of(opt_view(v.start_year))
    &&& m.publisher == (match v.publisher {
        Some(p) => p.name,
        None => None,
    })
    &&& m.deck == v.deck
    &&& m.description == v.description
    &&& opt_view(m.cover_image_url) == cover_of(v.image)
    &&& string_views(m.cover_image_alt_urls@) == alts_of(v.image)
    &&& string_views(m.aliases@) == alias_list(opt_view(v.aliases))
    &&& idents_view(m.identifiers@) == seq![canonical_ident(Source::ComicVine, ext, "series"@)]
        + match v.publisher {
        Some(p) => id_idents(Source::ComicVine, p.id, "publisher"@),
        None => Seq::empty(),
    }
    &&& m.source_provider == Some(Source::ComicVine)
    &&& opt_view(m.source_external_id) == (if ext.len() == 0 { None } else { Some(ext) })
    &&& m.source_url == v.site_detail_url
    &&& m.upstream_modified_at_ms == timestamp_of(opt_view(v.date_last_updated))
    &&& m.series_sort_name is None && m.series_type is None && m.volume is None
    &&& m.year_end is None && m.issue_number is None && m.imprint is None
    &&& m.cover_date is None && m.store_date is None && m.foc_date is None
    &&& m.title is None && m.notes is None && m.scan_information is None
    &&& m.credits@.len() == 0 && m.characters@.len() == 0 && m.teams@.len() == 0
    &&& m.locations@.len() == 0 && m.concepts@.len() == 0 && m.objects@.len() == 0
    &&& m.story_arcs@.len() == 0 && m.universes@.len() == 0 && m.genres@.len() == 0
    &&& m.tags@.len() == 0 && m.reprints@.len() == 0 && m.variants@.len() == 0
    &&& m.age_rating is None && m.page_count is None && m.community_rating_bits is None
    &&& m.staff_rating_bits is None && m.format is None && m.language_code is None
    &&& m.price_bits is None && m.sku is None
}

/// A volume's detail record, stamped as fetched at `fetched_at_ms`.
pub fn cv_volume_metadata_at(v: CvVolume, fetched_at_ms: i64) -> (r: GenericMetadata)
    ensures
        volume_metadata(v, r),
        r.fetched_at_ms == Some(fetched_at_ms),
{
    let ext = id_string(v.id);
    let (cover, alts) = best_image_url(&v.image);
    let mut identifiers: Vec<Identifier> = Vec::new();
    identifiers.push(Identifier::with_canonical_url(Source::ComicVine, ext.as_str(), "series"));
    let ghost first = idents_view(identifiers@);
    assert(first =~= seq![canonical_ident(Source::ComicVine, id_text(v.id), "series"@)]);
    assert(string_views(alts@) =~= alts_of(v.image));
    let publisher = match &v.publisher {
        Some(p) => {
            match p.id {
                Some(n) => {
                    let t = i64_text(n);
                    identifiers.push(Identifier::with_canonical_url(Source::ComicVine, t.as_str(), "publisher"));
                },
                None => {},
            }
            assert(idents_view(identifiers@) =~= first + id_idents(Source::ComicVine, p.id, "publisher"@));
            clone_opt_string(&p.name)
        },
        None => {
            assert(idents_view(identifiers@) =~= first + Seq::empty());
            None
        },
    };
    let year = parse_year(&v.start_year);
    let aliases = split_aliases(&v.aliases);
    let modified = parse_cv_timestamp(&v.date_last_updated);
    let mut m = GenericMetadata::default();
    m.series_name = v.name;
    m.year_began = year;
    m.publisher = publisher;
    m.deck = v.deck;
    m.description = v.description;
    m.cover_image_url = cover;
    m.cover_image_alt_urls = alts;
    m.aliases = aliases;
    m.identifiers = identifiers;
    m.source_provider = Some(Source::ComicVine);
    m.source_external_id = nonempty_string(ext);
    m.source_url = v.site_detail_url;
    m.fetched_at_ms = Some(fetched_at_ms);
    m.upstream_modified_at_ms = modified;
    m
}

/// A volume's detail record, stamped with the current time.
pub fn cv_volume_to_metadata(v: CvVolume) -> (r: GenericMetadata)
    ensures
        volume_metadata(v, r),
        r.fetched_at_ms is Some,
{
    let now = now_ms();
    cv_volume_metadata_at(v, now)
}

/// What the detail record of an issue holds.
pub open spec fn issue_metadata(i: CvIssue, m: GenericMetadata) -> bool {
    let ext = id_text(i.id);
    &&& m.title == i.name
    &&& m.issue_number == i.issue_number
    &&& m.cover_date == date_of(opt_view(i.cover_date))
    &&& m.store_date == date_of(opt_view(i.store_date))
    &&& m.deck == i.deck
    &&& m.description == i.description
    &&& opt_view(m.cover_image_url) == cover_of(i.image)
    &&& string_views(m.cover_image_alt_urls@) == alts_of(i.image)
    &&& string_views(m.aliases@) == alias_list(opt_view(i.aliases))
    &&& m.series_name == (match i.volume {
        Some(v) => v.name,
        None => None,
    })
    &&& m.year_began == (match i.volume {
        Some(v) => year_of(opt_view(v.start_year)),
        None => None,
    })
    &&& m.publisher == (match i.volume {
        Some(v) => match v.publisher {
            Some(p) => p.name,
            None => None,
        },
        None => None,
    })
    &&& credits_view(m.credits@) == issue_credits(match i.person_credits {
        Some(v) => v@,
        None => Seq::empty(),
    })
    &&& entities_view(m.characters@) == named_entities(ref_pairs(i.character_credits), Source::ComicVine, "character"@)
    &&& entities_view(m.teams@) == named_entities(ref_pairs(i.team_credits), Source::ComicVine, "team"@)
    &&& entities_view(m.locations@) == named_entities(ref_pairs(i.location_credits), Source::ComicVine, "location"@)
    &&& entities_view(m.concepts@) == named_entities(ref_pairs(i.concept_credits), Source::ComicVine, "concept"@)
    &&& entities_view(m.objects@) == named_entities(ref_pairs(i.object_credits), Source::ComicVine, "object"@)
    &&& entities_view(m.story_arcs@) == named_entities(ref_pairs(i.story_arc_credits), Source::ComicVine, "story_arc"@)
    &&& idents_view(m.identifiers@) == seq![canonical_ident(Source::ComicVine, ext, "issue"@)]
        + match i.volume {
        Some(v) => id_idents(Source::ComicVine, v.id, "series"@),
        None => Seq::empty(),
    }
    &&& m.source_provider == Some(Source::ComicVine)
    &&& opt_view(m.source_external_id) == (if ext.len() == 0 { None } else { Some(ext) })
    &&& m.source_url == i.site_detail_url
    &&& m.upstream_modified_at_ms == timestamp_of(opt_view(i.date_last_updated))
    &&& m.series_sort_name is None && m.series_type is None && m.volume is None
    &&& m.year_end is None && m.imprint is None && m.foc_date is None
    &&& m.notes is None && m.scan_information is None && m.universes@.len() == 0
    &&& m.genres@.len() == 0 && m.tags@.len() == 0 && m.reprints@.len() == 0
    &&& m.variants@.len() == 0 && m.age_rating is None && m.page_count is None
    &&& m.community_rating_bits is None && m.staff_rating_bits is None && m.format is None
    &&& m.language_code is None && m.price_bits is None && m.sku is None
}

/// An issue's detail record, stamped as fetched at `fetched_at_ms`.
pub fn cv_issue_metadata_at(i: CvIssue, fetched_at_ms: i64) -> (r: GenericMetadata)
    ensures
        issue_metadata(i, r),
        r.fetched_at_ms == Some(fetched_at_ms),
{
    let ext = id_string(i.id);
    let (cover, alts) = best_image_url(&i.image);
    assert(string_views(alts@) =~= alts_of(i.image));
    let mut identifiers: Vec<Identifier> = Vec::new();
    identifiers.push(Identifier::with_canonical_url(Source::ComicVine, ext.as_str(), "issue"));
    let ghost first = idents_view(identifiers@);
    assert(first =~= seq![canonical_ident(Source::ComicVine, id_text(i.id), "issue"@)]);
    let (series_name, year_began, publisher) = match &i.volume {
        Some(v) => {
            match v.id {
                Some(n) => {
                    let t = i64_text(n);
                    identifiers.push(Identifier::with_canonical_url(Source::ComicVine, t.as_str(), "series"));
                },
                None => {},
            }
            assert(idents_view(identifiers@) =~= first + id_idents(Source::ComicVine, v.id, "series"@));
            let publisher = match &v.publisher {
                Some(p) => clone_opt_string(&p.name),
                None => None,
            };
            (clone_opt_string(&v.name), parse_year(&v.start_year), publisher)
        },
        None => {
            assert(idents_view(identifiers@) =~= first + Seq::empty());
            (None, None, None)
        },
    };
    let credits = cv_issue_credits(&i.person_credits);
    let characters = cv_entities(&i.character_credits, "character");
    let teams = cv_entities(&i.team_credits, "team");
    let locations = cv_entities(&i.location_credits, "location");
    let concepts = cv_entities(&i.concept_credits, "concept");
    let objects = cv_entities(&i.object_credits, "object");
    let story_arcs = cv_entities(&i.story_arc_credits, "story_arc");
    let cover_date = parse_date(&i.cover_date);
    let store_date = parse_date(&i.store_date);
    let aliases = split_aliases(&i.aliases);
    let modified = parse_cv_timestamp(&i.date_last_updated);
    let mut m = GenericMetadata::default();
    m.title = i.name;
    m.issue_number = i.issue_number;
    m.cover_date = cover_date;
    m.store_date = store_date;
    m.deck = i.deck;
    m.description = i.description;
    m.cover_image_url = cover;
    m.cover_image_alt_urls = alts;
    m.aliases = aliases;
    m.series_name = series_name;
    m.year_began = year_began;
    m.publisher = publisher;
    m.credits = credits;
    m.characters = characters;
    m.teams = teams;
    m.locations = locations;
    m.concepts = concepts;
    m.objects = objects;
    m.story_arcs = story_arcs;
    m.identifiers = identifiers;
    m.source_provider = Some(Source::ComicVine);
    m.source_external_id = nonempty_string(ext);
    m.source_url = i.site_detail_url;
    m.fetched_at_ms = Some(fetched_at_ms);
    m.upstream_modified_at_ms = modified;
    m
}

/// An issue's detail record, stamped with the current time.
pub fn cv_issue_to_metadata(i: CvIssue) -> (r: GenericMetadata)
    ensures
        issue_metadata(i, r),
        r.fetched_at_ms is Some,
{
    let now = now_ms();
    cv_issue_metadata_at(i, now)
}

// ───────── response status ─────────

/// The error the HTTP status of a ComicVine response means: 429 is the
/// quota (retry in a minute), a 5xx an upstream failure naming the status
/// and the body; anything else goes on to the envelope.
pub fn cv_http_error(status: u16, status_text: &str, body: &str) -> (r: Option<ProviderError>)
    ensures
        (200 <= status <= 299 || (status != 429 && !(500 <= status <= 599))) ==> r is None,
        status == 429 ==> r == Some(ProviderError::QuotaExceeded { retry_after_secs: 60 }),
        500 <= status <= 599 ==> (r matches Some(ProviderError::Upstream(m)) && m@ == "HTTP "@ + status_text@ + ": "@ + body@),
{
    if 200 <= status && status <= 299 {
        return None;
    }
    if status == 429 {
        return Some(ProviderError::QuotaExceeded { retry_after_secs: 60 });
    }
    if 500 <= status && status <= 599 {
        let head = crate::text::concat2("HTTP ", status_text);
        return Some(ProviderError::Upstream(crate::text::concat3(head.as_str(), ": ", body)));
    }
    None
}

/// The error ComicVine's envelope `status_code` reports: 1 (or none) is
/// success, 100 a bad key, 101 a missing object, 107 the rate limit
/// (retry in an hour); any other code is an upstream failure.
pub fn cv_envelope_error(status_code: Option<i64>, error: &Option<String>) -> (r: Option<ProviderError>)
    ensures
        ({
            let code = match status_code { Some(c) => c, None => 1 };
            let msg = match *error { Some(e) => e@, None => Seq::empty() };
            &&& code == 1 ==> r is None
            &&& code == 100 ==> (r matches Some(ProviderError::Unauthorized(m)) && m@ == msg)
            &&& code == 101 ==> (r matches Some(ProviderError::NotFound(m)) && m@ == msg)
            &&& code == 107 ==> r == Some(ProviderError::QuotaExceeded { retry_after_secs: 3600 })
            &&& (code != 1 && code != 100 && code != 101 && code != 107) ==> (r matches Some(ProviderError::Upstream(m))
                && m@ == "ComicVine status_code="@ + int_text(code as int) + ": "@ + msg)
        }),
{
    let code = match status_code {
        Some(c) => c,
        None => 1,
    };
    let msg = match error {
        Some(e) => e.clone(),
        None => string_of(&Vec::new()),
    };
    if code == 1 {
        None
    } else if code == 100 {
        Some(ProviderError::Unauthorized(msg))
    } else if code == 101 {
        Some(ProviderError::NotFound(msg))
    } else if code == 107 {
        Some(ProviderError::QuotaExceeded { retry_after_secs: 3600 })
    } else {
        let n = i64_text(code);
        let head = crate::text::concat2("ComicVine status_code=", n.as_str());
        Some(ProviderError::Upstream(crate::text::concat3(head.as_str(), ": ", msg.as_str())))
    }
}

} // verus!

//! Metron's response shapes and how they map onto the
//! provider-neutral candidates and detail records.
use vstd::prelude::*;
use vstd::string::*;
use crate::identifier::{Source, Identifier, canonical_url, canonical_url_spec};
use crate::provider::{
    ProviderError,
    SeriesCandidate, IssueCandidate, GenericMetadata, EntityCandidate, CreditCandidate,
    ReprintCandidate, VariantCoverCandidate, CalendarDate, idents_view, canonical_ident, id_idents,
    entities_view, named_entities, push_named_entity, id_identifiers, credits_view, credit_view,
    now_ms, canonical_role, canonicalize_role, ident_view,
};
use crate::text::{
    trim, filled, opt_view, clone_opt_string, str_is_blank, chars_of, trim_chars, string_of,
    int_text, i64_text, clone_strings,
};
use crate::comicvine::{date_of, parse_date, id_text};
use crate::writers::string_views;
use crate::unicode::{to_lowercase, lowercase_of};

verus! {

// ───────── response shapes ─────────

/// A reference to another Metron record.
#[derive(Clone, Debug)]
pub struct MNamedRef {
    pub id: Option<i64>,
    pub name: Option<String>,
}

/// A series hit of a Metron search.
#[derive(Clone, Debug)]
pub struct MSeriesList {
    pub id: Option<i64>,
    pub series: Option<String>,
    pub year_began: Option<i32>,
    pub issue_count: Option<i32>,
    pub modified: Option<String>,
}

/// A Metron series.
#[derive(Clone, Debug)]
pub struct MSeriesDetail {
    pub id: Option<i64>,
    pub name: Option<String>,
    pub sort_name: Option<String>,
    pub volume: Option<i32>,
    pub series_type: Option<MNamedRef>,
    pub publisher: Option<MNamedRef>,
    pub imprint: Option<MNamedRef>,
    pub year_began: Option<i32>,
    pub year_end: Option<i32>,
    pub desc: Option<String>,
    pub issue_count: Option<i32>,
    pub genres: Vec<MNamedRef>,
    pub associated: Vec<MNamedRef>,
    pub cv_id: Option<i64>,
    pub gcd_id: Option<i64>,
    pub resource_url: Option<String>,
    pub modified: Option<String>,
}

/// The series an issue belongs to, as Metron embeds it.
#[derive(Clone, Debug)]
pub struct MIssueSeriesRef {
    pub id: Option<i64>,
    pub name: Option<String>,
    pub sort_name: Option<String>,
    pub volume: Option<i32>,
    pub year_began: Option<i32>,
    pub series_type: Option<MNamedRef>,
}

/// An issue hit of a Metron search.
#[derive(Clone, Debug)]
pub struct MIssueListItem {
    pub id: Option<i64>,
    pub series: Option<MIssueSeriesRef>,
    pub number: Option<String>,
    /// Used instead of `number` by some list endpoints.
    pub issue: Option<String>,
    pub name: Option<Vec<String>>,
    pub cover_date: Option<String>,
    pub image: Option<String>,
}

/// A credited creator with the roles they filled.
#[derive(Clone, Debug)]
pub struct MCredit {
    pub creator: Option<String>,
    pub creator_id: Option<i64>,
    pub role: Vec<MNamedRef>,
}

#[derive(Clone, Debug)]
pub struct MVariant {
    pub name: Option<String>,
    pub sku: Option<String>,
    pub upc: Option<String>,
    pub image: Option<String>,
}

#[derive(Clone, Debug)]
pub struct MReprint {
    pub id: Option<i64>,
    pub issue: Option<String>,
}

/// A Metron issue. The price stays text here: it is read as a float by
/// the caller.
#[derive(Clone, Debug)]
pub struct MIssueDetail {
    pub id: Option<i64>,
    pub publisher: Option<MNamedRef>,
    pub imprint: Option<MNamedRef>,
    pub series: Option<MIssueSeriesRef>,
    pub number: Option<String>,
    pub title: Option<String>,
    pub name: Vec<String>,
    pub cover_date: Option<String>,
    pub store_date: Option<String>,
    pub foc_date: Option<String>,
    pub price: Option<String>,
    pub rating: Option<MNamedRef>,
    pub sku: Option<String>,
    pub isbn: Option<String>,
    pub upc: Option<String>,
    pub page: Option<i32>,
    pub desc: Option<String>,
    pub image: Option<String>,
    pub arcs: Vec<MNamedRef>,
    pub credits: Vec<MCredit>,
    pub characters: Vec<MNamedRef>,
    pub teams: Vec<MNamedRef>,
    pub universes: Vec<MNamedRef>,
    pub reprints: Vec<MReprint>,
    pub variants: Vec<MVariant>,
    pub cv_id: Option<i64>,
    pub gcd_id: Option<i64>,
    pub resource_url: Option<String>,
    pub modified: Option<String>,
}

// ───────── timestamps ─────────

/// The instant, in Unix milliseconds, that
/// `chrono::DateTime::parse_from_rfc3339` reads from `s`.
pub uninterp spec fn rfc3339_millis_of(s: Seq<char>) -> Option<i64>;

/// `chrono::DateTime::parse_from_rfc3339`, converted to UTC, in Unix
/// milliseconds.
#[verifier::external_body]
fn parse_rfc3339(s: &str) -> (r: Option<i64>)
    ensures
        r == rfc3339_millis_of(s@),
{
    chrono::DateTime::parse_from_rfc3339(s).ok().map(|d| d.timestamp_millis())
}

/// A Metron timestamp field: trimmed; empty means none.
pub open spec fn metron_timestamp_of(raw: Option<Seq<char>>) -> Option<i64> {
    match raw {
        Some(s) => if trim(s).len() == 0 {
            None
        } else {
            rfc3339_millis_of(trim(s))
        },
        None => None,
    }
}

pub fn parse_metron_timestamp(raw: &Option<String>) -> (r: Option<i64>)
    ensures
        r == metron_timestamp_of(opt_view(*raw)),
{
    match raw {
        Some(s) => {
            let t = trim_chars(&chars_of(s.as_str()));
            if t.len() == 0 {
                None
            } else {
                let ts = string_of(&t);
                parse_rfc3339(ts.as_str())
            }
        },
        None => None,
    }
}

// ───────── entities and credits ─────────

pub open spec fn metron_ref_pairs(refs: Seq<MNamedRef>) -> Seq<(Option<String>, Option<i64>)> {
    refs.map_values(|n: MNamedRef| (n.name, n.id))
}

/// The entities of a Metron reference list.
pub fn metron_entities(refs: &Vec<MNamedRef>, entity_type: &str) -> (r: Vec<EntityCandidate>)
    ensures
        entities_view(r@) == named_entities(metron_ref_pairs(refs@), Source::Metron, entity_type@),
{
    let mut out: Vec<EntityCandidate> = Vec::new();
    let ghost ps = metron_ref_pairs(refs@);
    let mut i: usize = 0;
    assert(ps.take(0) =~= Seq::<(Option<String>, Option<i64>)>::empty());
    assert(entities_view(out@) =~= named_entities(ps.take(0), Source::Metron, entity_type@));
    while i < refs.len()
        invariant
            i <= refs@.len(),
            ps == metron_ref_pairs(refs@),
            entities_view(out@) == named_entities(ps.take(i as int), Source::Metron, entity_type@),
        decreases refs@.len() - i,
    {
        assert(ps.take(i + 1).drop_last() =~= ps.take(i as int));
        assert(ps.take(i + 1).last() == (refs@[i as int].name, refs@[i as int].id));
        push_named_entity(&mut out, &refs[i].name, refs[i].id, Source::Metron, entity_type);
        i = i + 1;
    }
    assert(ps.take(refs@.len() as int) =~= ps);
    out
}

/// The role a Metron role tag becomes: its ComicInfo name, else the tag
/// lower-cased.
pub open spec fn metron_role(tag: Seq<char>) -> Seq<char> {
    match canonical_role(tag) {
        Some(c) => c,
        None => lowercase_of(tag),
    }
}

/// One credit per non-blank role tag, trimmed.
pub open spec fn role_credits(
    roles: Seq<MNamedRef>,
    name: Seq<char>,
    ids: Seq<(Source, Seq<char>, Option<Seq<char>>)>,
) -> Seq<(Seq<char>, Seq<char>, Option<i32>, Seq<(Source, Seq<char>, Option<Seq<char>>)>)>
    decreases roles.len(),
{
    if roles.len() == 0 {
        Seq::empty()
    } else {
        role_credits(roles.drop_last(), name, ids) + match roles.last().name {
            Some(n) => if trim(n@).len() == 0 {
                Seq::empty()
            } else {
                seq![(name, metron_role(trim(n@)), None::<i32>, ids)]
            },
            None => Seq::empty(),
        }
    }
}

/// The credits of one Metron creator: none without a name; `unknown`
/// without roles; else one per role tag.
pub open spec fn creator_credits(c: MCredit) -> Seq<
    (Seq<char>, Seq<char>, Option<i32>, Seq<(Source, Seq<char>, Option<Seq<char>>)>),
> {
    if filled(opt_view(c.creator)) {
        let name = c.creator.unwrap()@;
        let ids = id_idents(Source::Metron, c.creator_id, "person"@);
        if c.role@.len() == 0 {
            seq![(name, "unknown"@, None, ids)]
        } else {
            role_credits(c.role@, name, ids)
        }
    } else {
        Seq::empty()
    }
}

/// The credits of an issue, in order.
pub open spec fn metron_credits(cs: Seq<MCredit>) -> Seq<
    (Seq<char>, Seq<char>, Option<i32>, Seq<(Source, Seq<char>, Option<Seq<char>>)>),
>
    decreases cs.len(),
{
    if cs.len() == 0 {
        Seq::empty()
    } else {
        metron_credits(cs.drop_last()) + creator_credits(cs.last())
    }
}

/// The role tags of a creator that are not blank.
pub open spec fn nonblank_tags(roles: Seq<MNamedRef>) -> nat
    decreases roles.len(),
{
    if roles.len() == 0 {
        0
    } else {
        nonblank_tags(roles.drop_last()) + match roles.last().name {
            Some(n) => if trim(n@).len() == 0 {
                0nat
            } else {
                1nat
            },
            None => 0nat,
        }
    }
}

proof fn lemma_role_credits_shape(
    roles: Seq<MNamedRef>,
    name: Seq<char>,
    ids: Seq<(Source, Seq<char>, Option<Seq<char>>)>,
)
    ensures
        role_credits(roles, name, ids).len() == nonblank_tags(roles),
        forall|k: int|
            0 <= k < role_credits(roles, name, ids).len() ==> (#[trigger] role_credits(roles, name, ids)[k]).0
                == name && role_credits(roles, name, ids)[k].3 == ids,
    decreases roles.len(),
{
    if roles.len() > 0 {
        lemma_role_credits_shape(roles.drop_last(), name, ids);
        let r0 = role_credits(roles.drop_last(), name, ids);
        let r = role_credits(roles, name, ids);
        assert forall|k: int| 0 <= k < r.len() implies (#[trigger] r[k]).0 == name && r[k].3 == ids by {
            if k < r0.len() {
                assert(r[k] == r0[k]);
            }
        }
    }
}

/// A Metron creator's credits: none without a name; one `unknown` credit
/// without role tags; otherwise one per role tag that is not blank, each
/// under the creator's name and identifiers, with the tag's ComicInfo role
/// when it has one.
pub proof fn lemma_creator_credits(c: MCredit)
    ensures
        !filled(opt_view(c.creator)) ==> creator_credits(c).len() == 0,
        (filled(opt_view(c.creator)) && c.role@.len() == 0) ==> creator_credits(c).len() == 1
            && creator_credits(c)[0].1 == "unknown"@,
        (filled(opt_view(c.creator)) && c.role@.len() > 0) ==> creator_credits(c).len() == nonblank_tags(c.role@),
        forall|k: int|
            0 <= k < creator_credits(c).len() ==> (#[trigger] creator_credits(c)[k]).0 == c.creator.unwrap()@,
        forall|t: Seq<char>| canonical_role(t) matches Some(r) ==> #[trigger] metron_role(t) == r,
{
    if filled(opt_view(c.creator)) && c.role@.len() > 0 {
        lemma_role_credits_shape(
            c.role@,
            c.creator.unwrap()@,
            id_idents(Source::Metron, c.creator_id, "person"@),
        );
    }
}

fn role_of_tag(tag: &str) -> (r: String)
    ensures
        r@ == metron_role(tag@),
{
    match canonicalize_role(tag) {
        Some(c) => string_of(&chars_of(c)),
        None => to_lowercase(tag),
    }
}

/// The credits of one creator (see [`creator_credits`]).
pub fn credit_to_credit(c: &MCredit) -> (r: Vec<CreditCandidate>)
    ensures
        credits_view(r@) == creator_credits(*c),
{
    let mut out: Vec<CreditCandidate> = Vec::new();
    let name = match &c.creator {
        Some(n) => if str_is_blank(n.as_str()) {
            assert(credits_view(out@) =~= creator_credits(*c));
            return out;
        } else {
            n
        },
        None => {
            assert(credits_view(out@) =~= creator_credits(*c));
            return out;
        },
    };
    if c.role.len() == 0 {
        let ids = id_identifiers(Source::Metron, c.creator_id, "person");
        out.push(CreditCandidate { name: name.clone(), role: string_of(&chars_of("unknown")), ordinal: None, identifiers: ids });
        assert(credits_view(out@) =~= creator_credits(*c));
        return out;
    }
    let ghost ids_v = id_idents(Source::Metron, c.creator_id, "person"@);
    let mut i: usize = 0;
    assert(credits_view(out@) =~= role_credits(c.role@.take(0), name@, ids_v));
    while i < c.role.len()
        invariant
            i <= c.role@.len(),
            ids_v == id_idents(Source::Metron, c.creator_id, "person"@),
            credits_view(out@) == role_credits(c.role@.take(i as int), name@, ids_v),
        decreases c.role@.len() - i,
    {
        assert(c.role@.take(i + 1).drop_last() =~= c.role@.take(i as int));
        assert(c.role@.take(i + 1).last() == c.role@[i as int]);
        let ghost before = credits_view(out@);
        match &c.role[i].name {
            Some(n) => {
                let t = string_of(&trim_chars(&chars_of(n.as_str())));
                if t.as_str().unicode_len() > 0 {
                    let role = role_of_tag(t.as_str());
                    let ids = id_identifiers(Source::Metron, c.creator_id, "person");
                    let cc = CreditCandidate { name: name.clone(), role, ordinal: None, identifiers: ids };
                    out.push(cc);
                    assert(credits_view(out@) =~= before.push(credit_view(cc)));
                }
            },
            None => {},
        }
        i = i + 1;
        assert(credits_view(out@) =~= role_credits(c.role@.take(i as int), name@, ids_v));
    }
    assert(c.role@.take(c.role@.len() as int) =~= c.role@);
    out
}

fn issue_credits_of(cs: &Vec<MCredit>) -> (r: Vec<CreditCandidate>)
    ensures
        credits_view(r@) == metron_credits(cs@),
{
    let mut out: Vec<CreditCandidate> = Vec::new();
    let mut i: usize = 0;
    assert(credits_view(out@) =~= metron_credits(cs@.take(0)));
    while i < cs.len()
        invariant
            i <= cs@.len(),
            credits_view(out@) == metron_credits(cs@.take(i as int)),
        decreases cs@.len() - i,
    {
        assert(cs@.take(i + 1).drop_last() =~= cs@.take(i as int));
        assert(cs@.take(i + 1).last() == cs@[i as int]);
        let mut more = credit_to_credit(&cs[i]);
        let ghost before = out@;
        let ghost extra = more@;
        out.append(&mut more);
        assert(out@ =~= before + extra);
        assert(credits_view(out@) =~= credits_view(before) + credits_view(extra));
        i = i + 1;
        assert(credits_view(out@) =~= metron_credits(cs@.take(i as int)));
    }
    assert(cs@.take(cs@.len() as int) =~= cs@);
    out
}

// ───────── search hits ─────────

/// A series hit; `None` without an id.
pub fn series_list_to_candidate(s: &MSeriesList) -> (r: Option<SeriesCandidate>)
    ensures
        s.id is None <==> r is None,
        r matches Some(c) ==> {
            let ext = int_text(s.id.unwrap() as int);
            &&& c.source == Source::Metron
            &&& c.external_id@ == ext
            &&& opt_view(c.external_url) == canonical_url_spec(Source::Metron, "series"@, ext)
            &&& c.name@ == (match s.series {
                Some(n) => n@,
                None => Seq::empty(),
            })
            &&& c.year == s.year_began
            &&& c.publisher is None
            &&& c.issue_count == s.issue_count
            &&& c.cover_image_url is None
            &&& c.deck is None
            &&& c.alternate_cover_urls@.len() == 0
        },
{
    let id = match s.id {
        Some(id) => id,
        None => return None,
    };
    let external_id = i64_text(id);
    let url = canonical_url(Source::Metron, "series", external_id.as_str());
    let name = match &s.series {
        Some(n) => n.clone(),
        None => string_of(&Vec::new()),
    };
    Some(
        SeriesCandidate {
            source: Source::Metron,
            external_id,
            external_url: url,
            name,
            year: s.year_began,
            publisher: None,
            issue_count: s.issue_count,
            cover_image_url: None,
            deck: None,
            alternate_cover_urls: Vec::new(),
        },
    )
}

/// An issue hit; `None` without an id.
pub fn issue_list_to_candidate(i: &MIssueListItem) -> (r: Option<IssueCandidate>)
    ensures
        i.id is None <==> r is None,
        r matches Some(c) ==> {
            let ext = int_text(i.id.unwrap() as int);
            &&& c.source == Source::Metron
            &&& c.external_id@ == ext
            &&& opt_view(c.external_url) == canonical_url_spec(Source::Metron, "issue"@, ext)
            &&& c.issue_number == (if i.number is Some { i.number } else { i.issue })
            &&& c.name == (match i.name {
                Some(v) => if v@.len() > 0 { Some(v@[0]) } else { None },
                None => None,
            })
            &&& c.cover_date == date_of(opt_view(i.cover_date))
            &&& c.series_name == (match i.series {
                Some(sr) => sr.name,
                None => None,
            })
            &&& c.series_year == (match i.series {
                Some(sr) => sr.year_began,
                None => None,
            })
            &&& opt_view(c.series_external_id) == (match i.series {
                Some(sr) => match sr.id {
                    Some(n) => Some(int_text(n as int)),
                    None => None,
                },
                None => None,
            })
            &&& c.cover_image_url == i.image
            &&& c.alternate_cover_urls@.len() == 0
        },
{
    let id = match i.id {
        Some(id) => id,
        None => return None,
    };
    let external_id = i64_text(id);
    let url = canonical_url(Source::Metron, "issue", external_id.as_str());
    let number = match &i.number {
        Some(n) => Some(n.clone()),
        None => clone_opt_string(&i.issue),
    };
    let name = match &i.name {
        Some(v) => if v.len() > 0 {
            Some(v[0].clone())
        } else {
            None
        },
        None => None,
    };
    let (series_name, series_year, series_external_id) = match &i.series {
        Some(sr) => (
            clone_opt_string(&sr.name),
            sr.year_began,
            match sr.id {
                Some(n) => Some(i64_text(n)),
                None => None,
            },
        ),
        None => (None, None, None),
    };
    Some(
        IssueCandidate {
            source: Source::Metron,
            external_id,
            external_url: url,
            issue_number: number,
            name,
            cover_date: parse_date(&i.cover_date),
            series_name,
            series_year,
            series_external_id,
            cover_image_url: clone_opt_string(&i.image),
            alternate_cover_urls: Vec::new(),
        },
    )
}

// ───────── detail records ─────────

/// The names present among references, in order.
pub open spec fn ref_names(refs: Seq<MNamedRef>) -> Seq<Seq<char>>
    decreases refs.len(),
{
    if refs.len() == 0 {
        Seq::empty()
    } else {
        ref_names(refs.drop_last()) + match refs.last().name {
            Some(n) => seq![n@],
            None => Seq::empty(),
        }
    }
}

fn names_of(refs: &Vec<MNamedRef>) -> (r: Vec<String>)
    ensures
        string_views(r@) == ref_names(refs@),
{
    let mut out: Vec<String> = Vec::new();
    let mut i: usize = 0;
    assert(string_views(out@) =~= ref_names(refs@.take(0)));
    while i < refs.len()
        invariant
            i <= refs@.len(),
            string_views(out@) == ref_names(refs@.take(i as int)),
        decreases refs@.len() - i,
    {
        assert(refs@.take(i + 1).drop_last() =~= refs@.take(i as int));
        assert(refs@.take(i + 1).last() == refs@[i as int]);
        match &refs[i].name {
            Some(n) => out.push(n.clone()),
            None => {},
        }
        i = i + 1;
        assert(string_views(out@) =~= ref_names(refs@.take(i as int)));
    }
    assert(refs@.take(refs@.len() as int) =~= refs@);
    out
}

fn ref_name(r: &Option<MNamedRef>) -> (n: Option<String>)
    ensures
        n == (match *r {
            Some(x) => x.name,
            None => None,
        }),
{
    match r {
        Some(x) => clone_opt_string(&x.name),
        None => None,
    }
}

/// The record's own identifier, when it has an id.
pub open spec fn own_idents(ext: Seq<char>, et: Seq<char>) -> Seq<
    (Source, Seq<char>, Option<Seq<char>>),
> {
    if ext.len() == 0 {
        Seq::empty()
    } else {
        seq![canonical_ident(Source::Metron, ext, et)]
    }
}

fn push_id(out: &mut Vec<Identifier>, s: Source, id: Option<i64>, et: &str)
    ensures
        idents_view(final(out)@) == idents_view(old(out)@) + id_idents(s, id, et@),
{
    let ghost before = idents_view(out@);
    match id {
        Some(n) => {
            let t = i64_text(n);
            out.push(Identifier::with_canonical_url(s, t.as_str(), et));
        },
        None => {},
    }
    assert(idents_view(out@) =~= before + id_idents(s, id, et@));
}

/// A code as a plain identifier, trimmed, when not blank.
pub open spec fn code_idents(s: Source, code: Option<String>) -> Seq<
    (Source, Seq<char>, Option<Seq<char>>),
> {
    if filled(opt_view(code)) {
        seq![(s, trim(code.unwrap()@), None::<Seq<char>>)]
    } else {
        Seq::empty()
    }
}

fn push_code(out: &mut Vec<Identifier>, s: Source, code: &Option<String>)
    ensures
        idents_view(final(out)@) == idents_view(old(out)@) + code_idents(s, *code),
{
    let ghost before = idents_view(out@);
    match code {
        Some(c) => if !str_is_blank(c.as_str()) {
            let t = string_of(&trim_chars(&chars_of(c.as_str())));
            out.push(Identifier::new(s, t.as_str()));
        },
        None => {},
    }
    assert(idents_view(out@) =~= before + code_idents(s, *code));
}

fn own_identifiers(ext: &String, et: &str) -> (r: Vec<Identifier>)
    ensures
        idents_view(r@) == own_idents(ext@, et@),
{
    let mut out: Vec<Identifier> = Vec::new();
    if ext.as_str().unicode_len() > 0 {
        out.push(Identifier::with_canonical_url(Source::Metron, ext.as_str(), et));
    }
    assert(idents_view(out@) =~= own_idents(ext@, et@));
    out
}

/// What the detail record of a Metron series holds.
pub open spec fn series_metadata(s: MSeriesDetail, m: GenericMetadata) -> bool {
    let ext = id_text(s.id);
    &&& m.series_name == s.name
    &&& m.series_sort_name == s.sort_name
    &&& m.series_type == (match s.series_type {
        Some(t) => t.name,
        None => None,
    })
    &&& m.volume == s.volume
    &&& m.year_began == s.year_began
    &&& m.year_end == s.year_end
    &&& m.description == s.desc
    &&& m.publisher == (match s.publisher {
        Some(p) => p.name,
        None => None,
    })
    &&& m.imprint == (match s.imprint {
        Some(p) => p.name,
        None => None,
    })
    &&& string_views(m.aliases@) == ref_names(s.associated@)
    &&& string_views(m.genres@) == ref_names(s.genres@)
    &&& idents_view(m.identifiers@) == own_idents(ext, "series"@) + id_idents(
        Source::ComicVine,
        s.cv_id,
        "series"@,
    ) + id_idents(Source::Gcd, s.gcd_id, "series"@)
    &&& m.source_provider == Some(Source::Metron)
    &&& opt_view(m.source_external_id) == (if ext.len() == 0 { None } else { Some(ext) })
    &&& m.source_url == s.resource_url
    &&& m.upstream_modified_at_ms == metron_timestamp_of(opt_view(s.modified))
    &&& m.issue_number is None && m.cover_date is None && m.store_date is None
    &&& m.foc_date is None && m.title is None && m.deck is None && m.notes is None
    &&& m.scan_information is None && m.credits@.len() == 0 && m.characters@.len() == 0
    &&& m.teams@.len() == 0 && m.locations@.len() == 0 && m.concepts@.len() == 0
    &&& m.objects@.len() == 0 && m.story_arcs@.len() == 0 && m.universes@.len() == 0
    &&& m.tags@.len() == 0 && m.reprints@.len() == 0 && m.variants@.len() == 0
    &&& m.cover_image_url is None && m.cover_image_alt_urls@.len() == 0
    &&& m.age_rating is None && m.page_count is None && m.community_rating_bits is None
    &&& m.staff_rating_bits is None && m.format is None && m.language_code is None
    &&& m.price_bits is None && m.sku is None
}

/// A Metron series' detail record, stamped as fetched at `fetched_at_ms`.
pub fn series_detail_metadata_at(s: MSeriesDetail, fetched_at_ms: i64) -> (r: GenericMetadata)
    ensures
        series_metadata(s, r),
        r.fetched_at_ms == Some(fetched_at_ms),
{
    let ext = id_string_of(s.id);
    let mut identifiers = own_identifiers(&ext, "series");
    push_id(&mut identifiers, Source::ComicVine, s.cv_id, "series");
    push_id(&mut identifiers, Source::Gcd, s.gcd_id, "series");
    let series_type = ref_name(&s.series_type);
    let publisher = ref_name(&s.publisher);
    let imprint = ref_name(&s.imprint);
    let aliases = names_of(&s.associated);
    let genres = names_of(&s.genres);
    let modified = parse_metron_timestamp(&s.modified);
    let mut m = GenericMetadata::default();
    m.series_name = s.name;
    m.series_sort_name = s.sort_name;
    m.series_type = series_type;
    m.volume = s.volume;
    m.year_began = s.year_began;
    m.year_end = s.year_end;
    m.description = s.desc;
    m.publisher = publisher;
    m.imprint = imprint;
    m.aliases = aliases;
    m.genres = genres;
    m.identifiers = identifiers;
    m.source_provider = Some(Source::Metron);
    m.source_external_id = if ext.as_str().unicode_len() == 0 {
        None
    } else {
        Some(ext)
    };
    m.source_url = s.resource_url;
    m.fetched_at_ms = Some(fetched_at_ms);
    m.upstream_modified_at_ms = modified;
    m
}

/// A Metron series' detail record, stamped with the current time.
pub fn series_detail_to_metadata(s: MSeriesDetail) -> (r: GenericMetadata)
    ensures
        series_metadata(s, r),
        r.fetched_at_ms is Some,
{
    let now = now_ms();
    series_detail_metadata_at(s, now)
}

fn id_string_of(id: Option<i64>) -> (r: String)
    ensures
        r@ == id_text(id),
{
    match id {
        Some(n) => i64_text(n),
        None => string_of(&Vec::new()),
    }
}

/// A reprint as plain values.
pub open spec fn reprint_view(r: ReprintCandidate) -> (Seq<char>, Seq<(Source, Seq<char>, Option<Seq<char>>)>) {
    (r.label@, idents_view(r.identifiers@))
}

/// The reprints that name the reprinted issue, in order.
pub open spec fn reprints_of(rs: Seq<MReprint>) -> Seq<(Seq<char>, Seq<(Source, Seq<char>, Option<Seq<char>>)>)>
    decreases rs.len(),
{
    if rs.len() == 0 {
        Seq::empty()
    } else {
        reprints_of(rs.drop_last()) + match rs.last().issue {
            Some(l) => seq![(l@, id_idents(Source::Metron, rs.last().id, "issue"@))],
            None => Seq::empty(),
        }
    }
}

/// A variant cover as plain values.
pub open spec fn variant_view(v: VariantCoverCandidate) -> (
    Option<Seq<char>>,
    Option<Seq<char>>,
    Seq<(Source, Seq<char>, Option<Seq<char>>)>,
    Option<Seq<char>>,
) {
    (opt_view(v.label), opt_view(v.artist_name), idents_view(v.identifiers@), opt_view(v.image_url))
}

/// Each variant: its name, its UPC as an identifier, its image.
pub open spec fn variants_of(vs: Seq<MVariant>) -> Seq<
    (Option<Seq<char>>, Option<Seq<char>>, Seq<(Source, Seq<char>, Option<Seq<char>>)>, Option<Seq<char>>),
> {
    vs.map_values(|v: MVariant| (opt_view(v.name), None::<Seq<char>>, code_idents(Source::Upc, v.upc), opt_view(v.image)))
}

fn reprint_list(rs: &Vec<MReprint>) -> (r: Vec<ReprintCandidate>)
    ensures
        r@.map_values(|x: ReprintCandidate| reprint_view(x)) == reprints_of(rs@),
{
    let mut out: Vec<ReprintCandidate> = Vec::new();
    let mut i: usize = 0;
    assert(out@.map_values(|x: ReprintCandidate| reprint_view(x)) =~= reprints_of(rs@.take(0)));
    while i < rs.len()
        invariant
            i <= rs@.len(),
            out@.map_values(|x: ReprintCandidate| reprint_view(x)) == reprints_of(rs@.take(i as int)),
        decreases rs@.len() - i,
    {
        assert(rs@.take(i + 1).drop_last() =~= rs@.take(i as int));
        assert(rs@.take(i + 1).last() == rs@[i as int]);
        let ghost before = out@;
        match &rs[i].issue {
            Some(l) => {
                let x = ReprintCandidate { label: l.clone(), identifiers: id_identifiers(Source::Metron, rs[i].id, "issue") };
                out.push(x);
                assert(out@ =~= before.push(x));
            },
            None => {},
        }
        i = i + 1;
        assert(out@.map_values(|x: ReprintCandidate| reprint_view(x)) =~= reprints_of(rs@.take(i as int)));
    }
    assert(rs@.take(rs@.len() as int) =~= rs@);
    out
}

fn variant_list(vs: &Vec<MVariant>) -> (r: Vec<VariantCoverCandidate>)
    ensures
        r@.map_values(|x: VariantCoverCandidate| variant_view(x)) == variants_of(vs@),
{
    let mut out: Vec<VariantCoverCandidate> = Vec::new();
    let mut i: usize = 0;
    while i < vs.len()
        invariant
            i <= vs@.len(),
            out@.len() == i,
            forall|j: int| 0 <= j < i ==> #[trigger] variant_view(out@[j]) == variants_of(vs@)[j],
        decreases vs@.len() - i,
    {
        let mut ids: Vec<Identifier> = Vec::new();
        assert(idents_view(ids@) =~= Seq::<(Source, Seq<char>, Option<Seq<char>>)>::empty());
        push_code(&mut ids, Source::Upc, &vs[i].upc);
        assert(idents_view(ids@) =~= code_idents(Source::Upc, vs@[i as int].upc));
        let x = VariantCoverCandidate {
            label: clone_opt_string(&vs[i].name),
            artist_name: None,
            identifiers: ids,
            image_url: clone_opt_string(&vs[i].image),
        };
        out.push(x);
        i = i + 1;
    }
    assert(out@.map_values(|x: VariantCoverCandidate| variant_view(x)) =~= variants_of(vs@));
    out
}

/// What the detail record of a Metron issue holds, its price given.
pub open spec fn issue_metadata(i: MIssueDetail, price_bits: Option<u64>, m: GenericMetadata) -> bool {
    let ext = id_text(i.id);
    &&& m.title == (if i.title is Some {
        i.title
    } else if i.name@.len() > 0 {
        Some(i.name@[0])
    } else {
        None
    })
    &&& m.issue_number == i.number
    &&& m.cover_date == date_of(opt_view(i.cover_date))
    &&& m.store_date == date_of(opt_view(i.store_date))
    &&& m.foc_date == date_of(opt_view(i.foc_date))
    &&& m.description == i.desc
    &&& m.cover_image_url == i.image
    &&& m.page_count == i.page
    &&& m.age_rating == (match i.rating {
        Some(r) => r.name,
        None => None,
    })
    &&& m.price_bits == price_bits
    &&& m.sku == i.sku
    &&& m.publisher == (match i.publisher {
        Some(p) => p.name,
        None => None,
    })
    &&& m.imprint == (match i.imprint {
        Some(p) => p.name,
        None => None,
    })
    &&& m.series_name == (match i.series {
        Some(s) => s.name,
        None => None,
    })
    &&& m.series_sort_name == (match i.series {
        Some(s) => s.sort_name,
        None => None,
    })
    &&& m.volume == (match i.series {
        Some(s) => s.volume,
        None => None,
    })
    &&& m.year_began == (match i.series {
        Some(s) => s.year_began,
        None => None,
    })
    &&& m.series_type == (match i.series {
        Some(s) => match s.series_type {
            Some(t) => t.name,
            None => None,
        },
        None => None,
    })
    &&& credits_view(m.credits@) == metron_credits(i.credits@)
    &&& entities_view(m.characters@) == named_entities(metron_ref_pairs(i.characters@), Source::Metron, "character"@)
    &&& entities_view(m.teams@) == named_entities(metron_ref_pairs(i.teams@), Source::Metron, "team"@)
    &&& entities_view(m.universes@) == named_entities(metron_ref_pairs(i.universes@), Source::Metron, "universe"@)
    &&& entities_view(m.story_arcs@) == named_entities(metron_ref_pairs(i.arcs@), Source::Metron, "story_arc"@)
    &&& m.reprints@.map_values(|x: ReprintCandidate| reprint_view(x)) == reprints_of(i.reprints@)
    &&& m.variants@.map_values(|x: VariantCoverCandidate| variant_view(x)) == variants_of(i.variants@)
    &&& idents_view(m.identifiers@) == own_idents(ext, "issue"@) + id_idents(Source::ComicVine, i.cv_id, "issue"@)
        + id_idents(Source::Gcd, i.gcd_id, "issue"@) + code_idents(Source::Isbn, i.isbn) + code_idents(Source::Upc, i.upc)
    &&& m.source_provider == Some(Source::Metron)
    &&& opt_view(m.source_external_id) == (if ext.len() == 0 { None } else { Some(ext) })
    &&& m.source_url == i.resource_url
    &&& m.upstream_modified_at_ms == metron_timestamp_of(opt_view(i.modified))
    &&& m.year_end is None && m.aliases@.len() == 0 && m.deck is None && m.notes is None
    &&& m.scan_information is None && m.locations@.len() == 0 && m.concepts@.len() == 0
    &&& m.objects@.len() == 0 && m.genres@.len() == 0 && m.tags@.len() == 0
    &&& m.cover_image_alt_urls@.len() == 0 && m.community_rating_bits is None
    &&& m.staff_rating_bits is None && m.format is None && m.language_code is None
}

/// A Metron issue's detail record, stamped as fetched at
/// `fetched_at_ms`. The price, a float, is read from `i.price` by the
/// caller and passed as the bits of its `f64`.
pub fn issue_detail_metadata_at(i: MIssueDetail, price_bits: Option<u64>, fetched_at_ms: i64) -> (r: GenericMetadata)
    ensures
        issue_metadata(i, price_bits, r),
        r.fetched_at_ms == Some(fetched_at_ms),
{
    let ext = id_string_of(i.id);
    let mut identifiers = own_identifiers(&ext, "issue");
    push_id(&mut identifiers, Source::ComicVine, i.cv_id, "issue");
    push_id(&mut identifiers, Source::Gcd, i.gcd_id, "issue");
    push_code(&mut identifiers, Source::Isbn, &i.isbn);
    push_code(&mut identifiers, Source::Upc, &i.upc);
    let title = match &i.title {
        Some(t) => Some(t.clone()),
        None => if i.name.len() > 0 {
            Some(i.name[0].clone())
        } else {
            None
        },
    };
    let (series_name, sort_name, volume, year_began, series_type) = match &i.series {
        Some(sr) => (
            clone_opt_string(&sr.name),
            clone_opt_string(&sr.sort_name),
            sr.volume,
            sr.year_began,
            ref_name(&sr.series_type),
        ),
        None => (None, None, None, None, None),
    };
    let credits = issue_credits_of(&i.credits);
    let characters = metron_entities(&i.characters, "character");
    let teams = metron_entities(&i.teams, "team");
    let universes = metron_entities(&i.universes, "universe");
    let story_arcs = metron_entities(&i.arcs, "story_arc");
    let reprints = reprint_list(&i.reprints);
    let variants = variant_list(&i.variants);
    let cover_date = parse_date(&i.cover_date);
    let store_date = parse_date(&i.store_date);
    let foc_date = parse_date(&i.foc_date);
    let publisher = ref_name(&i.publisher);
    let imprint = ref_name(&i.imprint);
    let age_rating = ref_name(&i.rating);
    let modified = parse_metron_timestamp(&i.modified);
    let mut m = GenericMetadata::default();
    m.title = title;
    m.issue_number = i.number;
    m.cover_date = cover_date;
    m.store_date = store_date;
    m.foc_date = foc_date;
    m.description = i.desc;
    m.cover_image_url = i.image;
    m.page_count = i.page;
    m.age_rating = age_rating;
    m.price_bits = price_bits;
    m.sku = i.sku;
    m.publisher = publisher;
    m.imprint = imprint;
    m.series_name = series_name;
    m.series_sort_name = sort_name;
    m.volume = volume;
    m.year_began = year_began;
    m.series_type = series_type;
    m.credits = credits;
    m.characters = characters;
    m.teams = teams;
    m.universes = universes;
    m.story_arcs = story_arcs;
    m.reprints = reprints;
    m.variants = variants;
    m.identifiers = identifiers;
    m.source_provider = Some(Source::Metron);
    m.source_external_id = if ext.as_str().unicode_len() == 0 {
        None
    } else {
        Some(ext)
    };
    m.source_url = i.resource_url;
    m.fetched_at_ms = Some(fetched_at_ms);
    m.upstream_modified_at_ms = modified;
    m
}

/// A Metron issue's detail record, stamped with the current time.
pub fn issue_detail_to_metadata(i: MIssueDetail, price_bits: Option<u64>) -> (r: GenericMetadata)
    ensures
        issue_metadata(i, price_bits, r),
        r.fetched_at_ms is Some,
{
    let now = now_ms();
    issue_detail_metadata_at(i, price_bits, now)
}

// ───────── response status ─────────

/// The error a Metron response's HTTP status means; `None` for a 2xx.
/// `body_excerpt` is the start of the body shown in messages, and
/// `status_text` the status as the HTTP client prints it.
pub fn metron_http_error(status: u16, status_text: &str, body_excerpt: &str) -> (r: Option<ProviderError>)
    ensures
        200 <= status <= 299 ==> r is None,
        (status == 401 || status == 403) ==> (r matches Some(ProviderError::Unauthorized(m)) && m@ == body_excerpt@),
        status == 404 ==> (r matches Some(ProviderError::NotFound(m)) && m@ == body_excerpt@),
        status == 429 ==> r == Some(ProviderError::QuotaExceeded { retry_after_secs: 60 }),
        500 <= status <= 599 ==> (r matches Some(ProviderError::Upstream(m)) && m@ == "HTTP "@ + status_text@),
        !(200 <= status <= 299) && status != 401 && status != 403 && status != 404 && status != 429
            && !(500 <= status <= 599) ==> (r matches Some(ProviderError::Upstream(m)) && m@ == "HTTP "@
            + status_text@ + ": "@ + body_excerpt@),
{
    if 200 <= status && status <= 299 {
        None
    } else if status == 401 || status == 403 {
        Some(ProviderError::Unauthorized(string_of(&chars_of(body_excerpt))))
    } else if status == 404 {
        Some(ProviderError::NotFound(string_of(&chars_of(body_excerpt))))
    } else if status == 429 {
        Some(ProviderError::QuotaExceeded { retry_after_secs: 60 })
    } else if 500 <= status && status <= 599 {
        Some(ProviderError::Upstream(crate::text::concat2("HTTP ", status_text)))
    } else {
        {
            let head = crate::text::concat3("HTTP ", status_text, ": ");
            Some(ProviderError::Upstream(crate::text::concat2(head.as_str(), body_excerpt)))
        }
    }
}

} // verus!

//! What every metadata provider hands back: its error classes, the search
//! queries and candidates, the normalised detail record that the apply
//! step consumes, and the mapping of raw credit roles onto the ComicInfo
//! role names.
use vstd::prelude::*;
use vstd::string::*;
use crate::identifier::{Source, Identifier, canonical_url_spec};
use crate::text::{
    blank, trim, ascii_lower, words, join_sp, views, Sep, chars_of, trim_chars, ascii_lower_chars,
    split_words, join_words, eq_lit, is_blank, concat2, concat3, string_of, u64_digits, dec_seq,
    filled, opt_view, int_text, i64_text, str_is_blank, trim_start, trim_end, is_word, is_ws,
    lemma_words_of_join, ascii_lower_char, lemma_words_are_words, lemma_join_sp_ends, lemma_trim_fixed,
    lemma_ascii_lower_lowered, lemma_tok_p, lemma_join_all_p, lemma_ascii_lower_id, lemma_trim_start_len,
    lemma_trim_end_len,
};

verus! {

// ───────── errors ─────────

/// The fixed set of failures a provider reports; the orchestrator's
/// reaction (back off, stop, retry) keys off the variant.
pub enum ProviderError {
    /// Upstream 401/403: the credentials are wrong.
    Unauthorized(String),
    /// Upstream 429 or the local token bucket refused the request.
    QuotaExceeded { retry_after_secs: u64 },
    /// Upstream 404 or its own "not found" code.
    NotFound(String),
    /// Network, timeout or TLS failure.
    Transport(String),
    /// A body that does not parse into the expected shape.
    InvalidResponse(String),
    /// Upstream 5xx and codes without a special path.
    Upstream(String),
}

pub open spec fn transient(e: ProviderError) -> bool {
    e is QuotaExceeded || e is Transport || e is Upstream
}

/// The display text of each variant.
pub open spec fn provider_error_text(e: ProviderError) -> Seq<char> {
    match e {
        ProviderError::Unauthorized(m) => "provider rejected credentials: "@ + m@,
        ProviderError::QuotaExceeded { retry_after_secs } => "quota exceeded; retry in "@
            + dec_seq(retry_after_secs as nat) + "s"@,
        ProviderError::NotFound(m) => "not found: "@ + m@,
        ProviderError::Transport(m) => "transport error: "@ + m@,
        ProviderError::InvalidResponse(m) => "invalid response: "@ + m@,
        ProviderError::Upstream(m) => "provider error: "@ + m@,
    }
}

impl ProviderError {
    /// Whether a retry may succeed without an operator stepping in.
    pub fn is_transient(&self) -> (r: bool)
        ensures
            r == transient(*self),
    {
        match self {
            ProviderError::QuotaExceeded { .. } => true,
            ProviderError::Transport(_) => true,
            ProviderError::Upstream(_) => true,
            _ => false,
        }
    }

    pub fn message(&self) -> (r: String)
        ensures
            r@ == provider_error_text(*self),
    {
        match self {
            ProviderError::Unauthorized(m) => concat2("provider rejected credentials: ", m.as_str()),
            ProviderError::QuotaExceeded { retry_after_secs } => {
                let n = string_of(&u64_digits(*retry_after_secs));
                concat3("quota exceeded; retry in ", n.as_str(), "s")
            },
            ProviderError::NotFound(m) => concat2("not found: ", m.as_str()),
            ProviderError::Transport(m) => concat2("transport error: ", m.as_str()),
            ProviderError::InvalidResponse(m) => concat2("invalid response: ", m.as_str()),
            ProviderError::Upstream(m) => concat2("provider error: ", m.as_str()),
        }
    }
}

// ───────── dates ─────────

/// A calendar date as year, month (1-12) and day of month.
#[derive(Copy, Clone, Debug, PartialEq, Eq, Structural)]
pub struct CalendarDate {
    pub year: i32,
    pub month: u32,
    pub day: u32,
}

pub open spec fn leap_year(y: int) -> bool {
    y % 4 == 0 && (y % 100 != 0 || y % 400 == 0)
}

pub open spec fn days_in_month(y: int, m: int) -> int {
    if m == 2 {
        if leap_year(y) {
            29
        } else {
            28
        }
    } else if m == 4 || m == 6 || m == 9 || m == 11 {
        30
    } else {
        31
    }
}

/// A day of the proleptic Gregorian calendar within the year range that
/// `chrono::NaiveDate` represents.
pub open spec fn valid_ymd(y: i32, m: u32, d: u32) -> bool {
    &&& -262143 <= y <= 262142
    &&& 1 <= m <= 12
    &&& 1 <= d <= days_in_month(y as int, m as int)
}

/// The calendar: a date has a month from 1 to 12 and a day from 1 to 31;
/// within the year range every month has days 1 to 28; February has a
/// 29th exactly in years divisible by 4 but not by 100, or by 400; only
/// February lacks a 30th; a 31st exists exactly in January, March, May,
/// July, August, October and December.
pub proof fn lemma_calendar(y: i32, m: u32, d: u32)
    ensures
        valid_ymd(y, m, d) ==> 1 <= m <= 12 && 1 <= d <= 31,
        (-262143 <= y <= 262142 && 1 <= m <= 12 && 1 <= d <= 28) ==> valid_ymd(y, m, d),
        -262143 <= y <= 262142 ==> (valid_ymd(y, 2, 29) == (y % 4 == 0 && (y % 100 != 0 || y % 400
            == 0))),
        (-262143 <= y <= 262142 && 1 <= m <= 12) ==> (valid_ymd(y, m, 30) == (m != 2)),
        (-262143 <= y <= 262142 && 1 <= m <= 12) ==> (valid_ymd(y, m, 31) == (m == 1 || m == 3
            || m == 5 || m == 7 || m == 8 || m == 10 || m == 12)),
{
}

/// `chrono::NaiveDate::from_ymd_opt(y, m, d).is_some()`: the date exists
/// (month 1-12, day within the month, February 29 in leap years only)
/// and the year lies in the range `NaiveDate` holds.
#[verifier::external_body]
pub(crate) fn date_exists(y: i32, m: u32, d: u32) -> (r: bool)
    ensures
        r == valid_ymd(y, m, d),
{
    chrono::NaiveDate::from_ymd_opt(y, m, d).is_some()
}

// ───────── queries ─────────

#[derive(Clone, Debug)]
pub struct SeriesQuery {
    /// Free-text series name.
    pub name: String,
    /// Start year; filters where the provider supports it, ranks otherwise.
    pub year: Option<i32>,
    /// Publisher hint, a tie-breaker between equal names.
    pub publisher: Option<String>,
    /// Candidate count cap.
    pub limit: u32,
}

impl Default for SeriesQuery {
    fn default() -> (r: Self)
        ensures
            r.name@ == Seq::<char>::empty(),
            r.year is None,
            r.publisher is None,
            r.limit == 0,
    {
        SeriesQuery { name: String::new(), year: None, publisher: None, limit: 0 }
    }
}

#[derive(Clone, Debug)]
pub struct IssueQuery {
    /// Provider series id, when known; narrows the search to one volume.
    pub series_external_id: Option<String>,
    pub series_name: Option<String>,
    pub series_year: Option<i32>,
    /// Issue number as printed: "1", "1.5", "½".
    pub issue_number: String,
    /// Cover year, a soft tie-breaker.
    pub cover_year: Option<i32>,
    pub limit: u32,
}

impl Default for IssueQuery {
    fn default() -> (r: Self)
        ensures
            r.series_external_id is None,
            r.series_name is None,
            r.series_year is None,
            r.issue_number@ == Seq::<char>::empty(),
            r.cover_year is None,
            r.limit == 0,
    {
        IssueQuery {
            series_external_id: None,
            series_name: None,
            series_year: None,
            issue_number: String::new(),
            cover_year: None,
            limit: 0,
        }
    }
}

// ───────── candidates ─────────

/// A series search hit; the detail is fetched once one is picked.
#[derive(Clone, Debug)]
pub struct SeriesCandidate {
    pub source: Source,
    pub external_id: String,
    pub external_url: Option<String>,
    pub name: String,
    pub year: Option<i32>,
    pub publisher: Option<String>,
    pub issue_count: Option<i32>,
    pub cover_image_url: Option<String>,
    pub deck: Option<String>,
    /// Further cover images of the series, for cover matching.
    pub alternate_cover_urls: Vec<String>,
}

/// An issue search hit.
#[derive(Clone, Debug)]
pub struct IssueCandidate {
    pub source: Source,
    pub external_id: String,
    pub external_url: Option<String>,
    pub issue_number: Option<String>,
    pub name: Option<String>,
    pub cover_date: Option<CalendarDate>,
    pub series_name: Option<String>,
    pub series_year: Option<i32>,
    pub series_external_id: Option<String>,
    pub cover_image_url: Option<String>,
    pub alternate_cover_urls: Vec<String>,
}

/// One credited person; `identifiers` feeds identity-first dedup.
#[derive(Clone, Debug)]
pub struct CreditCandidate {
    pub name: String,
    pub role: String,
    pub ordinal: Option<i32>,
    pub identifiers: Vec<Identifier>,
}

/// A named entity other than a person (character, team, location, ...),
/// with the per-relationship hints a provider may carry.
#[derive(Clone, Debug)]
pub struct EntityCandidate {
    pub name: String,
    pub identifiers: Vec<Identifier>,
    pub is_first_appearance: bool,
    /// Characters only.
    pub died_in_issue: Option<bool>,
    /// Teams only.
    pub disbanded_in_issue: Option<bool>,
    /// Story arcs only: reading position.
    pub position_in_arc: Option<i32>,
}

#[derive(Clone, Debug)]
pub struct ReprintCandidate {
    pub label: String,
    pub identifiers: Vec<Identifier>,
}

#[derive(Clone, Debug)]
pub struct VariantCoverCandidate {
    pub label: Option<String>,
    pub artist_name: Option<String>,
    pub identifiers: Vec<Identifier>,
    pub image_url: Option<String>,
}

/// A provider's token-bucket state for the admin gauges.
#[derive(Clone, Copy, Debug)]
pub struct QuotaSnapshot {
    pub provider: Source,
    pub remaining_hour: Option<u32>,
    pub remaining_day: Option<u32>,
    pub seconds_until_reset: Option<u64>,
}

// ───────── normalised detail ─────────

/// The provider-neutral detail record the apply step reads. Ratings and
/// the price are carried as the bit patterns of their IEEE values
/// (`f32::to_bits` / `f64::to_bits`); instants as Unix milliseconds.
#[derive(Clone, Debug)]
pub struct GenericMetadata {
    pub series_name: Option<String>,
    pub series_sort_name: Option<String>,
    pub series_type: Option<String>,
    pub volume: Option<i32>,
    pub year_began: Option<i32>,
    pub year_end: Option<i32>,
    pub issue_number: Option<String>,
    pub aliases: Vec<String>,
    pub publisher: Option<String>,
    pub imprint: Option<String>,
    pub cover_date: Option<CalendarDate>,
    pub store_date: Option<CalendarDate>,
    pub foc_date: Option<CalendarDate>,
    pub title: Option<String>,
    pub deck: Option<String>,
    pub description: Option<String>,
    pub notes: Option<String>,
    pub scan_information: Option<String>,
    pub credits: Vec<CreditCandidate>,
    pub characters: Vec<EntityCandidate>,
    pub teams: Vec<EntityCandidate>,
    pub locations: Vec<EntityCandidate>,
    pub concepts: Vec<EntityCandidate>,
    pub objects: Vec<EntityCandidate>,
    pub story_arcs: Vec<EntityCandidate>,
    pub universes: Vec<EntityCandidate>,
    pub genres: Vec<String>,
    pub tags: Vec<String>,
    pub reprints: Vec<ReprintCandidate>,
    pub variants: Vec<VariantCoverCandidate>,
    pub cover_image_url: Option<String>,
    /// The smaller sizes of the cover.
    pub cover_image_alt_urls: Vec<String>,
    pub identifiers: Vec<Identifier>,
    pub age_rating: Option<String>,
    pub page_count: Option<i32>,
    pub community_rating_bits: Option<u32>,
    pub staff_rating_bits: Option<u32>,
    pub format: Option<String>,
    pub language_code: Option<String>,
    pub price_bits: Option<u64>,
    pub sku: Option<String>,
    pub source_provider: Option<Source>,
    pub source_external_id: Option<String>,
    pub source_url: Option<String>,
    pub fetched_at_ms: Option<i64>,
    /// Upstream last-modified instant, for the stale-cache check.
    pub upstream_modified_at_ms: Option<i64>,
}

impl Default for GenericMetadata {
    fn default() -> (r: Self)
        ensures
            r.series_name is None,
            r.series_sort_name is None,
            r.series_type is None,
            r.volume is None,
            r.year_began is None,
            r.year_end is None,
            r.issue_number is None,
            r.aliases@.len() == 0,
            r.publisher is None,
            r.imprint is None,
            r.cover_date is None,
            r.store_date is None,
            r.foc_date is None,
            r.title is None,
            r.deck is None,
            r.description is None,
            r.notes is None,
            r.scan_information is None,
            r.credits@.len() == 0,
            r.characters@.len() == 0,
            r.teams@.len() == 0,
            r.locations@.len() == 0,
            r.concepts@.len() == 0,
            r.objects@.len() == 0,
            r.story_arcs@.len() == 0,
            r.universes@.len() == 0,
            r.genres@.len() == 0,
            r.tags@.len() == 0,
            r.reprints@.len() == 0,
            r.variants@.len() == 0,
            r.cover_image_url is None,
            r.cover_image_alt_urls@.len() == 0,
            r.identifiers@.len() == 0,
            r.age_rating is None,
            r.page_count is None,
            r.community_rating_bits is None,
            r.staff_rating_bits is None,
            r.format is None,
            r.language_code is None,
            r.price_bits is None,
            r.sku is None,
            r.source_provider is None,
            r.source_external_id is None,
            r.source_url is None,
            r.fetched_at_ms is None,
            r.upstream_modified_at_ms is None,
    {
        GenericMetadata {
            series_name: None,
            series_sort_name: None,
            series_type: None,
            volume: None,
            year_began: None,
            year_end: None,
            issue_number: None,
            aliases: Vec::new(),
            publisher: None,
            imprint: None,
            cover_date: None,
            store_date: None,
            foc_date: None,
            title: None,
            deck: None,
            description: None,
            notes: None,
            scan_information: None,
            credits: Vec::new(),
            characters: Vec::new(),
            teams: Vec::new(),
            locations: Vec::new(),
            concepts: Vec::new(),
            objects: Vec::new(),
            story_arcs: Vec::new(),
            universes: Vec::new(),
            genres: Vec::new(),
            tags: Vec::new(),
            reprints: Vec::new(),
            variants: Vec::new(),
            cover_image_url: None,
            cover_image_alt_urls: Vec::new(),
            identifiers: Vec::new(),
            age_rating: None,
            page_count: None,
            community_rating_bits: None,
            staff_rating_bits: None,
            format: None,
            language_code: None,
            price_bits: None,
            sku: None,
            source_provider: None,
            source_external_id: None,
            source_url: None,
            fetched_at_ms: None,
            upstream_modified_at_ms: None,
        }
    }
}

// ───────── credit roles ─────────

/// The ComicInfo role name for a lower-cased, whitespace-collapsed raw
/// role; `None` for roles ComicInfo has no column for.
pub open spec fn role_of_key(k: Seq<char>) -> Option<Seq<char>> {
    if k == "writer"@ || k == "writers"@ || k == "script"@ || k == "scripter"@ || k == "story"@
        || k == "plotter"@ || k == "plot"@ {
        Some("Writer"@)
    } else if k == "penciler"@ || k == "penciller"@ || k == "pencils"@ || k == "artist"@ || k
        == "art"@ {
        Some("Penciller"@)
    } else if k == "inker"@ || k == "inkers"@ || k == "inks"@ {
        Some("Inker"@)
    } else if k == "colorist"@ || k == "colorists"@ || k == "colors"@ || k == "colourist"@ || k
        == "colours"@ {
        Some("Colorist"@)
    } else if k == "letterer"@ || k == "letterers"@ || k == "letters"@ {
        Some("Letterer"@)
    } else if k == "cover"@ || k == "covers"@ || k == "cover artist"@ || k == "coverartist"@ || k
        == "cover art"@ {
        Some("CoverArtist"@)
    } else if k == "editor"@ || k == "editors"@ || k == "editor in chief"@ || k
        == "executive editor"@ || k == "consulting editor"@ || k == "associate editor"@ || k
        == "assistant editor"@ || k == "senior editor"@ || k == "managing editor"@ || k
        == "group editor"@ {
        Some("Editor"@)
    } else if k == "translator"@ || k == "translators"@ || k == "translation"@ {
        Some("Translator"@)
    } else {
        None
    }
}

/// The lookup key of a raw role: trimmed, ASCII lower-cased, runs of
/// whitespace collapsed to one space.
pub open spec fn role_key(raw: Seq<char>) -> Seq<char> {
    join_sp(words(ascii_lower(trim(raw)), Sep::Whitespace))
}

pub open spec fn canonical_role(raw: Seq<char>) -> Option<Seq<char>> {
    if blank(raw) {
        None
    } else {
        role_of_key(role_key(raw))
    }
}

/// The lookup key of a single word of ASCII letters is the word
/// lower-cased.
proof fn lemma_role_key_word(w: Seq<char>)
    requires
        w.len() > 0,
        forall|i: int| 0 <= i < w.len() ==> ('A' <= #[trigger] w[i] <= 'Z' || 'a' <= w[i] <= 'z'),
    ensures
        !blank(w),
        role_key(w) == ascii_lower(w),
{
    assert(!is_ws(w[0]));
    assert(trim_start(w) == w);
    assert(!is_ws(w.last()));
    assert(trim_end(w) == w);
    let l = ascii_lower(w);
    assert(is_word(l, Sep::Whitespace)) by {
        assert forall|i: int| 0 <= i < l.len() implies !crate::text::is_sep(Sep::Whitespace, #[trigger] l[i]) by {
            assert(l[i] == crate::text::ascii_lower_char(w[i]));
        }
    }
    lemma_words_of_join(seq![l], Sep::Whitespace);
    assert(join_sp(seq![l]) == l);
    assert(words(l, Sep::Whitespace) == seq![l]);
}

/// No role is looked up under the empty key.
proof fn lemma_empty_role_key()
    ensures
        role_of_key(Seq::<char>::empty()) is None,
{
    assert(Seq::<char>::empty().len() == 0);
    reveal_strlit("writer");
    reveal_strlit("writers");
    reveal_strlit("script");
    reveal_strlit("scripter");
    reveal_strlit("story");
    reveal_strlit("plotter");
    reveal_strlit("plot");
    reveal_strlit("penciler");
    reveal_strlit("penciller");
    reveal_strlit("pencils");
    reveal_strlit("artist");
    reveal_strlit("art");
    reveal_strlit("inker");
    reveal_strlit("inkers");
    reveal_strlit("inks");
    reveal_strlit("colorist");
    reveal_strlit("colorists");
    reveal_strlit("colors");
    reveal_strlit("colourist");
    reveal_strlit("colours");
    reveal_strlit("letterer");
    reveal_strlit("letterers");
    reveal_strlit("letters");
    reveal_strlit("cover");
    reveal_strlit("covers");
    reveal_strlit("cover artist");
    reveal_strlit("coverartist");
    reveal_strlit("cover art");
    reveal_strlit("editor");
    reveal_strlit("editors");
    reveal_strlit("editor in chief");
    reveal_strlit("executive editor");
    reveal_strlit("consulting editor");
    reveal_strlit("associate editor");
    reveal_strlit("assistant editor");
    reveal_strlit("senior editor");
    reveal_strlit("managing editor");
    reveal_strlit("group editor");
    reveal_strlit("translator");
    reveal_strlit("translators");
    reveal_strlit("translation");
}

/// The lookup key of a lookup key is itself, and a lookup key that is
/// blank is empty.
proof fn lemma_role_key_idem(raw: Seq<char>)
    ensures
        role_key(role_key(raw)) == role_key(raw),
        blank(role_key(raw)) ==> role_key(raw).len() == 0,
{
    let t = trim(raw);
    let l = ascii_lower(t);
    let ws = words(l, Sep::Whitespace);
    let k = join_sp(ws);
    let low = |c: char| ascii_lower_char(c) == c;
    lemma_words_are_words(l, Sep::Whitespace);
    if ws.len() > 0 {
        lemma_join_sp_ends(ws);
        assert(!blank(k)) by {
            assert(!is_ws(k[0]));
        }
    }
    lemma_trim_fixed(k);
    lemma_ascii_lower_lowered(t);
    lemma_tok_p(l, Sep::Whitespace, Seq::<char>::empty(), low);
    lemma_join_all_p(ws, low);
    lemma_ascii_lower_id(k);
    lemma_words_of_join(ws, Sep::Whitespace);
}

/// Canonicalisation depends only on the lookup key: the raw role trimmed,
/// ASCII lower-cased and with inner whitespace runs collapsed to one space.
/// What it returns is one of the eight ComicInfo role names.
pub proof fn lemma_canonical_role_by_key(raw: Seq<char>)
    ensures
        canonical_role(role_key(raw)) == canonical_role(raw),
        canonical_role(raw) is Some ==> {
            let r = canonical_role(raw).unwrap();
            r == "Writer"@ || r == "Penciller"@ || r == "Inker"@ || r == "Colorist"@ || r
                == "Letterer"@ || r == "CoverArtist"@ || r == "Editor"@ || r == "Translator"@
        },
{
    lemma_role_key_idem(raw);
    let k = role_key(raw);
    if blank(raw) {
        lemma_trim_start_len(raw);
        lemma_trim_end_len(trim_start(raw));
        assert(trim(raw).len() == 0);
        assert(ascii_lower(trim(raw)) =~= Seq::<char>::empty());
        assert(words(Seq::<char>::empty(), Sep::Whitespace) =~= Seq::<Seq<char>>::empty());
        assert(k.len() == 0);
        assert(blank(k));
    } else if blank(k) {
        assert(k.len() == 0);
        lemma_empty_role_key();
    }
}

/// A ComicInfo role name that canonicalisation returns maps to itself.
pub proof fn lemma_canonical_role_fixed(raw: Seq<char>)
    requires
        canonical_role(raw) is Some,
    ensures
        canonical_role(canonical_role(raw).unwrap()) == canonical_role(raw),
{
    reveal_strlit("writer");
    reveal_strlit("writers");
    reveal_strlit("script");
    reveal_strlit("scripter");
    reveal_strlit("story");
    reveal_strlit("plotter");
    reveal_strlit("plot");
    reveal_strlit("penciler");
    reveal_strlit("penciller");
    reveal_strlit("pencils");
    reveal_strlit("artist");
    reveal_strlit("art");
    reveal_strlit("inker");
    reveal_strlit("inkers");
    reveal_strlit("inks");
    reveal_strlit("colorist");
    reveal_strlit("colorists");
    reveal_strlit("colors");
    reveal_strlit("colourist");
    reveal_strlit("colours");
    reveal_strlit("letterer");
    reveal_strlit("letterers");
    reveal_strlit("letters");
    reveal_strlit("cover");
    reveal_strlit("covers");
    reveal_strlit("cover artist");
    reveal_strlit("coverartist");
    reveal_strlit("cover art");
    reveal_strlit("editor");
    reveal_strlit("editors");
    reveal_strlit("editor in chief");
    reveal_strlit("executive editor");
    reveal_strlit("consulting editor");
    reveal_strlit("associate editor");
    reveal_strlit("assistant editor");
    reveal_strlit("senior editor");
    reveal_strlit("managing editor");
    reveal_strlit("group editor");
    reveal_strlit("translator");
    reveal_strlit("translators");
    reveal_strlit("translation");
    reveal_strlit("Writer");
    reveal_strlit("Penciller");
    reveal_strlit("Inker");
    reveal_strlit("Colorist");
    reveal_strlit("Letterer");
    reveal_strlit("CoverArtist");
    reveal_strlit("Editor");
    reveal_strlit("Translator");
    let c = canonical_role(raw).unwrap();
    if c == "Writer"@ {
        lemma_role_key_word(c);
        assert(ascii_lower(c) =~= "writer"@);
    }
    if c == "Penciller"@ {
        lemma_role_key_word(c);
        assert(ascii_lower(c) =~= "penciller"@);
    }
    if c == "Inker"@ {
        lemma_role_key_word(c);
        assert(ascii_lower(c) =~= "inker"@);
    }
    if c == "Colorist"@ {
        lemma_role_key_word(c);
        assert(ascii_lower(c) =~= "colorist"@);
    }
    if c == "Letterer"@ {
        lemma_role_key_word(c);
        assert(ascii_lower(c) =~= "letterer"@);
    }
    if c == "CoverArtist"@ {
        lemma_role_key_word(c);
        assert(ascii_lower(c) =~= "coverartist"@);
    }
    if c == "Editor"@ {
        lemma_role_key_word(c);
        assert(ascii_lower(c) =~= "editor"@);
    }
    if c == "Translator"@ {
        lemma_role_key_word(c);
        assert(ascii_lower(c) =~= "translator"@);
    }
}

fn role_of_key_exec(k: &Vec<char>) -> (r: Option<&'static str>)
    ensures
        match r {
            Some(s) => role_of_key(k@) == Some(s@),
            None => role_of_key(k@) is None,
        },
{
    if eq_lit(k, "writer") || eq_lit(k, "writers") || eq_lit(k, "script") || eq_lit(k, "scripter")
        || eq_lit(k, "story") || eq_lit(k, "plotter") || eq_lit(k, "plot") {
        Some("Writer")
    } else if eq_lit(k, "penciler") || eq_lit(k, "penciller") || eq_lit(k, "pencils") || eq_lit(
        k,
        "artist",
    ) || eq_lit(k, "art") {
        Some("Penciller")
    } else if eq_lit(k, "inker") || eq_lit(k, "inkers") || eq_lit(k, "inks") {
        Some("Inker")
    } else if eq_lit(k, "colorist") || eq_lit(k, "colorists") || eq_lit(k, "colors") || eq_lit(
        k,
        "colourist",
    ) || eq_lit(k, "colours") {
        Some("Colorist")
    } else if eq_lit(k, "letterer") || eq_lit(k, "letterers") || eq_lit(k, "letters") {
        Some("Letterer")
    } else if eq_lit(k, "cover") || eq_lit(k, "covers") || eq_lit(k, "cover artist") || eq_lit(
        k,
        "coverartist",
    ) || eq_lit(k, "cover art") {
        Some("CoverArtist")
    } else if eq_lit(k, "editor") || eq_lit(k, "editors") || eq_lit(k, "editor in chief")
        || eq_lit(k, "executive editor") || eq_lit(k, "consulting editor") || eq_lit(
        k,
        "associate editor",
    ) || eq_lit(k, "assistant editor") || eq_lit(k, "senior editor") || eq_lit(
        k,
        "managing editor",
    ) || eq_lit(k, "group editor") {
        Some("Editor")
    } else if eq_lit(k, "translator") || eq_lit(k, "translators") || eq_lit(k, "translation") {
        Some("Translator")
    } else {
        None
    }
}

/// The ComicInfo role name (`Writer`, `Penciller`, `Inker`, `Colorist`,
/// `Letterer`, `CoverArtist`, `Editor`, `Translator`) for a provider's raw
/// role string, or `None` for blank input and roles ComicInfo cannot
/// represent.
pub fn canonicalize_role(raw: &str) -> (r: Option<&'static str>)
    ensures
        match r {
            Some(s) => canonical_role(raw@) == Some(s@),
            None => canonical_role(raw@) is None,
        },
{
    let chars = chars_of(raw);
    if is_blank(&chars) {
        return None;
    }
    let lowered = ascii_lower_chars(&trim_chars(&chars));
    let key = join_words(&split_words(&lowered, Sep::Whitespace));
    role_of_key_exec(&key)
}

// ───────── views of candidates ─────────

/// An identifier as plain values: source, id, page URL.
pub open spec fn ident_view(i: Identifier) -> (Source, Seq<char>, Option<Seq<char>>) {
    (i.source, i.id@, opt_view(i.url))
}

pub open spec fn idents_view(v: Seq<Identifier>) -> Seq<(Source, Seq<char>, Option<Seq<char>>)> {
    v.map_values(|i: Identifier| ident_view(i))
}

/// The identifier [`Identifier::with_canonical_url`] builds.
pub open spec fn canonical_ident(s: Source, id: Seq<char>, et: Seq<char>) -> (
    Source,
    Seq<char>,
    Option<Seq<char>>,
) {
    (s, id, canonical_url_spec(s, et, id))
}

/// One canonical identifier for a numeric id, or none.
pub open spec fn id_idents(s: Source, id: Option<i64>, et: Seq<char>) -> Seq<
    (Source, Seq<char>, Option<Seq<char>>),
> {
    match id {
        Some(n) => seq![canonical_ident(s, int_text(n as int), et)],
        None => Seq::empty(),
    }
}

/// An entity as plain values.
pub open spec fn entity_view(e: EntityCandidate) -> (
    Seq<char>,
    Seq<(Source, Seq<char>, Option<Seq<char>>)>,
    bool,
    Option<bool>,
    Option<bool>,
    Option<i32>,
) {
    (
        e.name@,
        idents_view(e.identifiers@),
        e.is_first_appearance,
        e.died_in_issue,
        e.disbanded_in_issue,
        e.position_in_arc,
    )
}

pub open spec fn entities_view(v: Seq<EntityCandidate>) -> Seq<
    (
        Seq<char>,
        Seq<(Source, Seq<char>, Option<Seq<char>>)>,
        bool,
        Option<bool>,
        Option<bool>,
        Option<i32>,
    ),
> {
    v.map_values(|e: EntityCandidate| entity_view(e))
}

/// The entity a provider's named reference becomes: none without a
/// non-blank name; its id, when present, as a canonical identifier.
pub open spec fn named_entity_view(name: Option<String>, id: Option<i64>, s: Source, et: Seq<char>) -> Option<
    (
        Seq<char>,
        Seq<(Source, Seq<char>, Option<Seq<char>>)>,
        bool,
        Option<bool>,
        Option<bool>,
        Option<i32>,
    ),
> {
    if filled(opt_view(name)) {
        Some((name.unwrap()@, id_idents(s, id, et), false, None, None, None))
    } else {
        None
    }
}

/// The entities of a list of `(name, id)` references, in order, those
/// without a name dropped.
pub open spec fn named_entities(refs: Seq<(Option<String>, Option<i64>)>, s: Source, et: Seq<char>) -> Seq<
    (
        Seq<char>,
        Seq<(Source, Seq<char>, Option<Seq<char>>)>,
        bool,
        Option<bool>,
        Option<bool>,
        Option<i32>,
    ),
>
    decreases refs.len(),
{
    if refs.len() == 0 {
        Seq::empty()
    } else {
        named_entities(refs.drop_last(), s, et) + match named_entity_view(
            refs.last().0,
            refs.last().1,
            s,
            et,
        ) {
            Some(e) => seq![e],
            None => Seq::empty(),
        }
    }
}

/// The identifiers for a numeric id: one canonical identifier, or none.
pub fn id_identifiers(s: Source, id: Option<i64>, et: &str) -> (r: Vec<Identifier>)
    ensures
        idents_view(r@) == id_idents(s, id, et@),
{
    let mut v: Vec<Identifier> = Vec::new();
    match id {
        Some(n) => {
            let text = i64_text(n);
            v.push(Identifier::with_canonical_url(s, text.as_str(), et));
            assert(idents_view(v@) =~= id_idents(s, id, et@));
        },
        None => {
            assert(idents_view(v@) =~= id_idents(s, id, et@));
        },
    }
    v
}

/// The entity for a named reference (see [`named_entity_view`]).
pub fn named_entity(name: &Option<String>, id: Option<i64>, s: Source, et: &str) -> (r: Option<
    EntityCandidate,
>)
    ensures
        match r {
            Some(e) => named_entity_view(*name, id, s, et@) == Some(entity_view(e)),
            None => named_entity_view(*name, id, s, et@) is None,
        },
{
    match name {
        Some(n) => if str_is_blank(n.as_str()) {
            None
        } else {
            Some(
                EntityCandidate {
                    name: n.clone(),
                    identifiers: id_identifiers(s, id, et),
                    is_first_appearance: false,
                    died_in_issue: None,
                    disbanded_in_issue: None,
                    position_in_arc: None,
                },
            )
        },
        None => None,
    }
}

/// Appends the entity of one reference to a list being built.
pub fn push_named_entity(
    out: &mut Vec<EntityCandidate>,
    name: &Option<String>,
    id: Option<i64>,
    s: Source,
    et: &str,
)
    ensures
        entities_view(final(out)@) == entities_view(old(out)@) + match named_entity_view(
            *name,
            id,
            s,
            et@,
        ) {
            Some(e) => seq![e],
            None => Seq::empty(),
        },
{
    let ghost before = entities_view(out@);
    match named_entity(name, id, s, et) {
        Some(e) => {
            out.push(e);
            assert(entities_view(out@) =~= before + seq![entity_view(e)]);
        },
        None => {
            assert(entities_view(out@) =~= before);
        },
    }
}

/// A credit as plain values.
pub open spec fn credit_view(c: CreditCandidate) -> (
    Seq<char>,
    Seq<char>,
    Option<i32>,
    Seq<(Source, Seq<char>, Option<Seq<char>>)>,
) {
    (c.name@, c.role@, c.ordinal, idents_view(c.identifiers@))
}

pub open spec fn credits_view(v: Seq<CreditCandidate>) -> Seq<
    (Seq<char>, Seq<char>, Option<i32>, Seq<(Source, Seq<char>, Option<Seq<char>>)>),
> {
    v.map_values(|c: CreditCandidate| credit_view(c))
}

/// The current time in Unix milliseconds (`chrono::Utc::now`). Nothing is
/// promised of the value.
#[verifier::external_body]
pub(crate) fn now_ms() -> (r: i64) {
    chrono::Utc::now().timestamp_millis()
}

pub fn clone_identifier(i: &Identifier) -> (r: Identifier)
    ensures
        r == *i,
{
    Identifier { source: i.source, id: i.id.clone(), url: crate::text::clone_opt_string(&i.url) }
}

pub fn clone_identifiers(v: &Vec<Identifier>) -> (r: Vec<Identifier>)
    ensures
        r@ == v@,
{
    let mut out: Vec<Identifier> = Vec::new();
    let mut i: usize = 0;
    while i < v.len()
        invariant
            i <= v@.len(),
            out@ == v@.take(i as int),
        decreases v@.len() - i,
    {
        out.push(clone_identifier(&v[i]));
        i = i + 1;
        assert(out@ =~= v@.take(i as int));
    }
    assert(v@.take(v@.len() as int) =~= v@);
    out
}

pub fn clone_credits(v: &Vec<CreditCandidate>) -> (r: Vec<CreditCandidate>)
    ensures
        credits_view(r@) == credits_view(v@),
{
    let mut out: Vec<CreditCandidate> = Vec::new();
    let mut i: usize = 0;
    while i < v.len()
        invariant
            i <= v@.len(),
            out@.len() == i,
            forall|j: int| 0 <= j < i ==> #[trigger] credit_view(out@[j]) == credit_view(v@[j]),
        decreases v@.len() - i,
    {
        let c = &v[i];
        out.push(
            CreditCandidate {
                name: c.name.clone(),
                role: c.role.clone(),
                ordinal: c.ordinal,
                identifiers: clone_identifiers(&c.identifiers),
            },
        );
        i = i + 1;
    }
    assert(credits_view(out@) =~= credits_view(v@));
    out
}

pub fn clone_entities(v: &Vec<EntityCandidate>) -> (r: Vec<EntityCandidate>)
    ensures
        entities_view(r@) == entities_view(v@),
{
    let mut out: Vec<EntityCandidate> = Vec::new();
    let mut i: usize = 0;
    while i < v.len()
        invariant
            i <= v@.len(),
            out@.len() == i,
            forall|j: int| 0 <= j < i ==> #[trigger] entity_view(out@[j]) == entity_view(v@[j]),
        decreases v@.len() - i,
    {
        let e = &v[i];
        out.push(
            EntityCandidate {
                name: e.name.clone(),
                identifiers: clone_identifiers(&e.identifiers),
                is_first_appearance: e.is_first_appearance,
                died_in_issue: e.died_in_issue,
                disbanded_in_issue: e.disbanded_in_issue,
                position_in_arc: e.position_in_arc,
            },
        );
        i = i + 1;
    }
    assert(entities_view(out@) =~= entities_view(v@));
    out
}

/// A variant cover as plain values.
pub open spec fn variant_cover_view(v: VariantCoverCandidate) -> (
    Option<Seq<char>>,
    Option<Seq<char>>,
    Seq<(Source, Seq<char>, Option<Seq<char>>)>,
    Option<Seq<char>>,
) {
    (opt_view(v.label), opt_view(v.artist_name), idents_view(v.identifiers@), opt_view(v.image_url))
}

pub open spec fn variant_covers_view(v: Seq<VariantCoverCandidate>) -> Seq<
    (Option<Seq<char>>, Option<Seq<char>>, Seq<(Source, Seq<char>, Option<Seq<char>>)>, Option<Seq<char>>),
> {
    v.map_values(|x: VariantCoverCandidate| variant_cover_view(x))
}

pub fn clone_variants(v: &Vec<VariantCoverCandidate>) -> (r: Vec<VariantCoverCandidate>)
    ensures
        variant_covers_view(r@) == variant_covers_view(v@),
{
    let mut out: Vec<VariantCoverCandidate> = Vec::new();
    let mut i: usize = 0;
    while i < v.len()
        invariant
            i <= v@.len(),
            out@.len() == i,
            forall|j: int| 0 <= j < i ==> #[trigger] variant_cover_view(out@[j]) == variant_cover_view(v@[j]),
        decreases v@.len() - i,
    {
        let x = &v[i];
        out.push(
            VariantCoverCandidate {
                label: crate::text::clone_opt_string(&x.label),
                artist_name: crate::text::clone_opt_string(&x.artist_name),
                identifiers: clone_identifiers(&x.identifiers),
                image_url: crate::text::clone_opt_string(&x.image_url),
            },
        );
        i = i + 1;
    }
    assert(variant_covers_view(out@) =~= variant_covers_view(v@));
    out
}

} // verus!

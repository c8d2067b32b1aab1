//! `Identifier` and `Source`: one representation of an external identifier
//! for every entity type. This module is the only place that produces the
//! canonical string forms of a source and the canonical link back to a
//! source's page.
use vstd::prelude::*;
use vstd::string::*;
use crate::text::{ascii_lower, ascii_lower_chars, chars_of, concat3, eq_lit, is_ws, opt_view, trim, trim_chars, trim_end, trim_start, lemma_lower_trim_idem};

verus! {

/// Every metadata source the library knows about.
#[derive(Copy, Clone, Debug, PartialEq, Eq, Hash, Structural)]
pub enum Source {
    ComicVine,
    Metron,
    Gcd,
    Marvel,
    Locg,
    Mal,
    AniList,
    MangaUpdates,
    Isbn,
    Upc,
    Asin,
    Doi,
    /// Generic Global Trade Item Number, used when the specific scheme
    /// (ISBN-13 vs UPC vs EAN-13) is not recorded.
    Gtin,
}

/// The snake-case string stored in `external_ids.source`.
pub open spec fn source_key(s: Source) -> Seq<char> {
    match s {
        Source::ComicVine => "comicvine"@,
        Source::Metron => "metron"@,
        Source::Gcd => "gcd"@,
        Source::Marvel => "marvel"@,
        Source::Locg => "locg"@,
        Source::Mal => "mal"@,
        Source::AniList => "anilist"@,
        Source::MangaUpdates => "mangaupdates"@,
        Source::Isbn => "isbn"@,
        Source::Upc => "upc"@,
        Source::Asin => "asin"@,
        Source::Doi => "doi"@,
        Source::Gtin => "gtin"@,
    }
}

/// The human-readable label for UI rendering.
pub open spec fn source_label(s: Source) -> Seq<char> {
    match s {
        Source::ComicVine => "ComicVine"@,
        Source::Metron => "Metron"@,
        Source::Gcd => "Grand Comics Database"@,
        Source::Marvel => "Marvel"@,
        Source::Locg => "League of Comic Geeks"@,
        Source::Mal => "MyAnimeList"@,
        Source::AniList => "AniList"@,
        Source::MangaUpdates => "MangaUpdates"@,
        Source::Isbn => "ISBN"@,
        Source::Upc => "UPC"@,
        Source::Asin => "ASIN"@,
        Source::Doi => "DOI"@,
        Source::Gtin => "GTIN"@,
    }
}

/// Source named by an already trimmed and lower-cased key, aliases
/// included (`cv`, `myanimelist`, `mu`).
pub open spec fn source_of_key(k: Seq<char>) -> Option<Source> {
    if k == "comicvine"@ || k == "cv"@ {
        Some(Source::ComicVine)
    } else if k == "metron"@ {
        Some(Source::Metron)
    } else if k == "gcd"@ {
        Some(Source::Gcd)
    } else if k == "marvel"@ {
        Some(Source::Marvel)
    } else if k == "locg"@ {
        Some(Source::Locg)
    } else if k == "mal"@ || k == "myanimelist"@ {
        Some(Source::Mal)
    } else if k == "anilist"@ {
        Some(Source::AniList)
    } else if k == "mangaupdates"@ || k == "mu"@ {
        Some(Source::MangaUpdates)
    } else if k == "isbn"@ {
        Some(Source::Isbn)
    } else if k == "upc"@ {
        Some(Source::Upc)
    } else if k == "asin"@ {
        Some(Source::Asin)
    } else if k == "doi"@ {
        Some(Source::Doi)
    } else if k == "gtin"@ {
        Some(Source::Gtin)
    } else {
        None
    }
}

/// `Source::from_str`: surrounding whitespace and ASCII case are ignored.
pub open spec fn parse_source(t: Seq<char>) -> Option<Source> {
    source_of_key(ascii_lower(trim(t)))
}

/// Text of a source that was not recognised.
#[derive(Debug, Clone)]
pub struct UnknownSource(pub String);

impl UnknownSource {
    /// The error message: `unknown source: <text>`.
    pub fn message(&self) -> (r: String)
        ensures
            r@ == "unknown source: "@ + self.0@,
    {
        let mut m = String::from_str("unknown source: ");
        m.append(self.0.as_str());
        m
    }
}

impl Source {
    pub fn as_str(self) -> (r: &'static str)
        ensures
            r@ == source_key(self),
    {
        match self {
            Source::ComicVine => "comicvine",
            Source::Metron => "metron",
            Source::Gcd => "gcd",
            Source::Marvel => "marvel",
            Source::Locg => "locg",
            Source::Mal => "mal",
            Source::AniList => "anilist",
            Source::MangaUpdates => "mangaupdates",
            Source::Isbn => "isbn",
            Source::Upc => "upc",
            Source::Asin => "asin",
            Source::Doi => "doi",
            Source::Gtin => "gtin",
        }
    }

    pub fn label(self) -> (r: &'static str)
        ensures
            r@ == source_label(self),
    {
        match self {
            Source::ComicVine => "ComicVine",
            Source::Metron => "Metron",
            Source::Gcd => "Grand Comics Database",
            Source::Marvel => "Marvel",
            Source::Locg => "League of Comic Geeks",
            Source::Mal => "MyAnimeList",
            Source::AniList => "AniList",
            Source::MangaUpdates => "MangaUpdates",
            Source::Isbn => "ISBN",
            Source::Upc => "UPC",
            Source::Asin => "ASIN",
            Source::Doi => "DOI",
            Source::Gtin => "GTIN",
        }
    }

    /// Parse a source name: canonical lower-case names plus a few aliases,
    /// ignoring surrounding whitespace and ASCII case.
    pub fn from_str(s: &str) -> (r: Result<Source, UnknownSource>)
        ensures
            match r {
                Ok(src) => parse_source(s@) == Some(src),
                Err(e) => parse_source(s@) is None && e.0@ == s@,
            },
    {
        let k = ascii_lower_chars(&trim_chars(&chars_of(s)));
        match source_from_key(&k) {
            Some(src) => Ok(src),
            None => Err(UnknownSource(String::from_str(s))),
        }
    }
}

fn source_from_key(k: &Vec<char>) -> (r: Option<Source>)
    ensures
        r == source_of_key(k@),
{
    if eq_lit(k, "comicvine") || eq_lit(k, "cv") {
        Some(Source::ComicVine)
    } else if eq_lit(k, "metron") {
        Some(Source::Metron)
    } else if eq_lit(k, "gcd") {
        Some(Source::Gcd)
    } else if eq_lit(k, "marvel") {
        Some(Source::Marvel)
    } else if eq_lit(k, "locg") {
        Some(Source::Locg)
    } else if eq_lit(k, "mal") || eq_lit(k, "myanimelist") {
        Some(Source::Mal)
    } else if eq_lit(k, "anilist") {
        Some(Source::AniList)
    } else if eq_lit(k, "mangaupdates") || eq_lit(k, "mu") {
        Some(Source::MangaUpdates)
    } else if eq_lit(k, "isbn") {
        Some(Source::Isbn)
    } else if eq_lit(k, "upc") {
        Some(Source::Upc)
    } else if eq_lit(k, "asin") {
        Some(Source::Asin)
    } else if eq_lit(k, "doi") {
        Some(Source::Doi)
    } else if eq_lit(k, "gtin") {
        Some(Source::Gtin)
    } else {
        None
    }
}

/// Parsing a source ignores surrounding whitespace and ASCII case: text
/// parses as its own trimmed, lower-cased form does, so texts that trim and
/// lower-case alike parse alike.
pub proof fn lemma_source_parse_normalizes(t: Seq<char>, u: Seq<char>)
    ensures
        parse_source(ascii_lower(trim(t))) == parse_source(t),
        ascii_lower(trim(t)) == ascii_lower(trim(u)) ==> parse_source(t) == parse_source(u),
{
    lemma_lower_trim_idem(t);
}

/// Every source's canonical string parses back to that source.
pub proof fn lemma_source_round_trip(s: Source)
    ensures
        parse_source(source_key(s)) == Some(s),
{
    reveal_strlit("comicvine");
    reveal_strlit("cv");
    reveal_strlit("metron");
    reveal_strlit("gcd");
    reveal_strlit("marvel");
    reveal_strlit("locg");
    reveal_strlit("mal");
    reveal_strlit("myanimelist");
    reveal_strlit("anilist");
    reveal_strlit("mangaupdates");
    reveal_strlit("mu");
    reveal_strlit("isbn");
    reveal_strlit("upc");
    reveal_strlit("asin");
    reveal_strlit("doi");
    reveal_strlit("gtin");
    let k = source_key(s);
    assert(!is_ws(k[0]));
    assert(!is_ws(k.last()));
    assert(trim_start(k) == k);
    assert(trim_end(k) == k);
    assert(ascii_lower(k) =~= k);
}

/// One external identifier. `url` is filled from the canonical template
/// when the (source, entity type) pair has one.
#[derive(Clone, Debug, PartialEq, Eq)]
pub struct Identifier {
    pub source: Source,
    pub id: String,
    pub url: Option<String>,
}

impl Identifier {
    pub fn new(source: Source, id: &str) -> (r: Identifier)
        ensures
            r.source == source,
            r.id@ == id@,
            r.url is None,
    {
        Identifier { source, id: String::from_str(id), url: None }
    }

    /// An identifier with the URL filled from the canonical template for
    /// `entity_type`; the URL stays `None` when there is no template.
    pub fn with_canonical_url(source: Source, id: &str, entity_type: &str) -> (r: Identifier)
        ensures
            r.source == source,
            r.id@ == id@,
            opt_view(r.url) == canonical_url_spec(source, entity_type@, id@),
    {
        let url = canonical_url(source, entity_type, id);
        Identifier { source, id: String::from_str(id), url }
    }
}

/// Literal text before and after the id in the page URL of
/// `(source, entity_type)`, when the source has a stable page for it.
pub open spec fn url_template(s: Source, et: Seq<char>) -> Option<(Seq<char>, Seq<char>)> {
    match s {
        Source::ComicVine => if et == "series"@ {
            Some(("https://comicvine.gamespot.com/volume/4050-"@, "/"@))
        } else if et == "issue"@ {
            Some(("https://comicvine.gamespot.com/issue/4000-"@, "/"@))
        } else if et == "publisher"@ {
            Some(("https://comicvine.gamespot.com/publisher/4010-"@, "/"@))
        } else if et == "person"@ {
            Some(("https://comicvine.gamespot.com/person/4040-"@, "/"@))
        } else if et == "character"@ {
            Some(("https://comicvine.gamespot.com/character/4005-"@, "/"@))
        } else if et == "team"@ {
            Some(("https://comicvine.gamespot.com/team/4060-"@, "/"@))
        } else if et == "story_arc"@ {
            Some(("https://comicvine.gamespot.com/story-arc/4045-"@, "/"@))
        } else if et == "location"@ {
            Some(("https://comicvine.gamespot.com/location/4020-"@, "/"@))
        } else if et == "concept"@ {
            Some(("https://comicvine.gamespot.com/concept/4015-"@, "/"@))
        } else if et == "object"@ {
            Some(("https://comicvine.gamespot.com/object/4055-"@, "/"@))
        } else {
            None
        },
        Source::Metron => if et == "series"@ {
            Some(("https://metron.cloud/series/"@, "/"@))
        } else if et == "issue"@ {
            Some(("https://metron.cloud/issue/"@, "/"@))
        } else if et == "publisher"@ {
            Some(("https://metron.cloud/publisher/"@, "/"@))
        } else if et == "imprint"@ {
            Some(("https://metron.cloud/imprint/"@, "/"@))
        } else if et == "person"@ {
            Some(("https://metron.cloud/creator/"@, "/"@))
        } else if et == "character"@ {
            Some(("https://metron.cloud/character/"@, "/"@))
        } else if et == "team"@ {
            Some(("https://metron.cloud/team/"@, "/"@))
        } else if et == "story_arc"@ {
            Some(("https://metron.cloud/arc/"@, "/"@))
        } else if et == "universe"@ {
            Some(("https://metron.cloud/universe/"@, "/"@))
        } else {
            None
        },
        Source::Gcd => if et == "series"@ {
            Some(("https://www.comics.org/series/"@, "/"@))
        } else if et == "issue"@ {
            Some(("https://www.comics.org/issue/"@, "/"@))
        } else if et == "publisher"@ {
            Some(("https://www.comics.org/publisher/"@, "/"@))
        } else {
            None
        },
        Source::Marvel => if et == "series"@ {
            Some(("https://www.marvel.com/comics/series/"@, ""@))
        } else if et == "issue"@ {
            Some(("https://www.marvel.com/comics/issue/"@, ""@))
        } else {
            None
        },
        Source::Locg => if et == "issue"@ {
            Some(("https://leagueofcomicgeeks.com/comic/"@, "/"@))
        } else if et == "series"@ {
            Some(("https://leagueofcomicgeeks.com/comics/series/"@, "/"@))
        } else {
            None
        },
        Source::Mal => if et == "series"@ {
            Some(("https://myanimelist.net/manga/"@, "/"@))
        } else {
            None
        },
        Source::AniList => if et == "series"@ {
            Some(("https://anilist.co/manga/"@, "/"@))
        } else {
            None
        },
        Source::MangaUpdates => if et == "series"@ {
            Some(("https://www.mangaupdates.com/series/"@, "/"@))
        } else {
            None
        },
        _ => None,
    }
}

/// Canonical link back to the source's page for
/// `(source, entity_type, external_id)`.
pub open spec fn canonical_url_spec(s: Source, et: Seq<char>, id: Seq<char>) -> Option<Seq<char>> {
    match url_template(s, et) {
        Some((pre, post)) => Some(pre + id + post),
        None => None,
    }
}

fn template(s: Source, et: &Vec<char>) -> (r: Option<(&'static str, &'static str)>)
    ensures
        match r {
            Some((a, b)) => url_template(s, et@) == Some((a@, b@)),
            None => url_template(s, et@) is None,
        },
{
    match s {
        Source::ComicVine => if eq_lit(et, "series") {
            Some(("https://comicvine.gamespot.com/volume/4050-", "/"))
        } else if eq_lit(et, "issue") {
            Some(("https://comicvine.gamespot.com/issue/4000-", "/"))
        } else if eq_lit(et, "publisher") {
            Some(("https://comicvine.gamespot.com/publisher/4010-", "/"))
        } else if eq_lit(et, "person") {
            Some(("https://comicvine.gamespot.com/person/4040-", "/"))
        } else if eq_lit(et, "character") {
            Some(("https://comicvine.gamespot.com/character/4005-", "/"))
        } else if eq_lit(et, "team") {
            Some(("https://comicvine.gamespot.com/team/4060-", "/"))
        } else if eq_lit(et, "story_arc") {
            Some(("https://comicvine.gamespot.com/story-arc/4045-", "/"))
        } else if eq_lit(et, "location") {
            Some(("https://comicvine.gamespot.com/location/4020-", "/"))
        } else if eq_lit(et, "concept") {
            Some(("https://comicvine.gamespot.com/concept/4015-", "/"))
        } else if eq_lit(et, "object") {
            Some(("https://comicvine.gamespot.com/object/4055-", "/"))
        } else {
            None
        },
        Source::Metron => if eq_lit(et, "series") {
            Some(("https://metron.cloud/series/", "/"))
        } else if eq_lit(et, "issue") {
            Some(("https://metron.cloud/issue/", "/"))
        } else if eq_lit(et, "publisher") {
            Some(("https://metron.cloud/publisher/", "/"))
        } else if eq_lit(et, "imprint") {
            Some(("https://metron.cloud/imprint/", "/"))
        } else if eq_lit(et, "person") {
            Some(("https://metron.cloud/creator/", "/"))
        } else if eq_lit(et, "character") {
            Some(("https://metron.cloud/character/", "/"))
        } else if eq_lit(et, "team") {
            Some(("https://metron.cloud/team/", "/"))
        } else if eq_lit(et, "story_arc") {
            Some(("https://metron.cloud/arc/", "/"))
        } else if eq_lit(et, "universe") {
            Some(("https://metron.cloud/universe/", "/"))
        } else {
            None
        },
        Source::Gcd => if eq_lit(et, "series") {
            Some(("https://www.comics.org/series/", "/"))
        } else if eq_lit(et, "issue") {
            Some(("https://www.comics.org/issue/", "/"))
        } else if eq_lit(et, "publisher") {
            Some(("https://www.comics.org/publisher/", "/"))
        } else {
            None
        },
        Source::Marvel => if eq_lit(et, "series") {
            Some(("https://www.marvel.com/comics/series/", ""))
        } else if eq_lit(et, "issue") {
            Some(("https://www.marvel.com/comics/issue/", ""))
        } else {
            None
        },
        Source::Locg => if eq_lit(et, "issue") {
            Some(("https://leagueofcomicgeeks.com/comic/", "/"))
        } else if eq_lit(et, "series") {
            Some(("https://leagueofcomicgeeks.com/comics/series/", "/"))
        } else {
            None
        },
        Source::Mal => if eq_lit(et, "series") {
            Some(("https://myanimelist.net/manga/", "/"))
        } else {
            None
        },
        Source::AniList => if eq_lit(et, "series") {
            Some(("https://anilist.co/manga/", "/"))
        } else {
            None
        },
        Source::MangaUpdates => if eq_lit(et, "series") {
            Some(("https://www.mangaupdates.com/series/", "/"))
        } else {
            None
        },
        _ => None,
    }
}

/// Canonical link back to the source's page for `(source, entity_type,
/// external_id)`; `None` where the source has no stable page for that
/// entity type (barcodes and catalogue numbers never do).
pub fn canonical_url(source: Source, entity_type: &str, external_id: &str) -> (r: Option<String>)
    ensures
        opt_view(r) == canonical_url_spec(source, entity_type@, external_id@),
{
    let et = chars_of(entity_type);
    match template(source, &et) {
        Some((pre, post)) => Some(concat3(pre, external_id, post)),
        None => None,
    }
}

} // verus!

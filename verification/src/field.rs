//! `MetadataField`: the typed key behind `field_provenance.field`. Apply
//! jobs iterate [`MetadataField::iter`] to build per-field diffs, and the
//! set of legal keys is closed at the type level.
use vstd::prelude::*;
use vstd::string::*;
use crate::identifier::{lemma_source_round_trip, parse_source, source_key, Source};
use crate::text::{chars_of, chars_starts_with, eq_lit, starts_with};

verus! {

/// Every field a provider can populate (or a user can edit) that takes
/// part in the field-provenance / apply machinery: flat scalars, junction
/// sets, covers, then one external id per source.
#[derive(Copy, Clone, Debug, PartialEq, Eq, Hash, Structural)]
pub enum MetadataField {
    Title,
    SortName,
    SeriesType,
    YearBegan,
    YearEnd,
    Volume,
    Deck,
    Description,
    Summary,
    Notes,
    ScanInformation,
    CoverDate,
    StoreDate,
    FocDate,
    PageCount,
    AgeRating,
    Format,
    LanguageCode,
    Manga,
    Price,
    Sku,
    CommunityRating,
    StaffRating,
    Aliases,
    Status,
    Publisher,
    Imprint,
    Credits,
    Characters,
    Teams,
    Locations,
    Concepts,
    Objects,
    StoryArcs,
    Universes,
    Genres,
    Tags,
    Reprints,
    CoverPrimary,
    CoverVariants,
    ExternalId(Source),
}

/// Canonical string stored in `field_provenance.field`.
pub open spec fn field_key(f: MetadataField) -> Seq<char> {
    match f {
        MetadataField::Title => "title"@,
        MetadataField::SortName => "sort_name"@,
        MetadataField::SeriesType => "series_type"@,
        MetadataField::YearBegan => "year_began"@,
        MetadataField::YearEnd => "year_end"@,
        MetadataField::Volume => "volume"@,
        MetadataField::Deck => "deck"@,
        MetadataField::Description => "description"@,
        MetadataField::Summary => "summary"@,
        MetadataField::Notes => "notes"@,
        MetadataField::ScanInformation => "scan_information"@,
        MetadataField::CoverDate => "cover_date"@,
        MetadataField::StoreDate => "store_date"@,
        MetadataField::FocDate => "foc_date"@,
        MetadataField::PageCount => "page_count"@,
        MetadataField::AgeRating => "age_rating"@,
        MetadataField::Format => "format"@,
        MetadataField::LanguageCode => "language_code"@,
        MetadataField::Manga => "manga"@,
        MetadataField::Price => "price"@,
        MetadataField::Sku => "sku"@,
        MetadataField::CommunityRating => "community_rating"@,
        MetadataField::StaffRating => "staff_rating"@,
        MetadataField::Aliases => "aliases"@,
        MetadataField::Status => "status"@,
        MetadataField::Publisher => "publisher"@,
        MetadataField::Imprint => "imprint"@,
        MetadataField::Credits => "credits"@,
        MetadataField::Characters => "characters"@,
        MetadataField::Teams => "teams"@,
        MetadataField::Locations => "locations"@,
        MetadataField::Concepts => "concepts"@,
        MetadataField::Objects => "objects"@,
        MetadataField::StoryArcs => "story_arcs"@,
        MetadataField::Universes => "universes"@,
        MetadataField::Genres => "genres"@,
        MetadataField::Tags => "tags"@,
        MetadataField::Reprints => "reprints"@,
        MetadataField::CoverPrimary => "cover.primary"@,
        MetadataField::CoverVariants => "cover.variants"@,
        MetadataField::ExternalId(s) => "external_id."@ + source_key(s),
    }
}

/// The scalar, junction or cover field whose key is exactly `t`.
pub open spec fn scalar_of_key(t: Seq<char>) -> Option<MetadataField> {
    if t == "title"@ {
        Some(MetadataField::Title)
    } else if t == "sort_name"@ {
        Some(MetadataField::SortName)
    } else if t == "series_type"@ {
        Some(MetadataField::SeriesType)
    } else if t == "year_began"@ {
        Some(MetadataField::YearBegan)
    } else if t == "year_end"@ {
        Some(MetadataField::YearEnd)
    } else if t == "volume"@ {
        Some(MetadataField::Volume)
    } else if t == "deck"@ {
        Some(MetadataField::Deck)
    } else if t == "description"@ {
        Some(MetadataField::Description)
    } else if t == "summary"@ {
        Some(MetadataField::Summary)
    } else if t == "notes"@ {
        Some(MetadataField::Notes)
    } else if t == "scan_information"@ {
        Some(MetadataField::ScanInformation)
    } else if t == "cover_date"@ {
        Some(MetadataField::CoverDate)
    } else if t == "store_date"@ {
        Some(MetadataField::StoreDate)
    } else if t == "foc_date"@ {
        Some(MetadataField::FocDate)
    } else if t == "page_count"@ {
        Some(MetadataField::PageCount)
    } else if t == "age_rating"@ {
        Some(MetadataField::AgeRating)
    } else if t == "format"@ {
        Some(MetadataField::Format)
    } else if t == "language_code"@ {
        Some(MetadataField::LanguageCode)
    } else if t == "manga"@ {
        Some(MetadataField::Manga)
    } else if t == "price"@ {
        Some(MetadataField::Price)
    } else if t == "sku"@ {
        Some(MetadataField::Sku)
    } else if t == "community_rating"@ {
        Some(MetadataField::CommunityRating)
    } else if t == "staff_rating"@ {
        Some(MetadataField::StaffRating)
    } else if t == "aliases"@ {
        Some(MetadataField::Aliases)
    } else if t == "status"@ {
        Some(MetadataField::Status)
    } else if t == "publisher"@ {
        Some(MetadataField::Publisher)
    } else if t == "imprint"@ {
        Some(MetadataField::Imprint)
    } else if t == "credits"@ {
        Some(MetadataField::Credits)
    } else if t == "characters"@ {
        Some(MetadataField::Characters)
    } else if t == "teams"@ {
        Some(MetadataField::Teams)
    } else if t == "locations"@ {
        Some(MetadataField::Locations)
    } else if t == "concepts"@ {
        Some(MetadataField::Concepts)
    } else if t == "objects"@ {
        Some(MetadataField::Objects)
    } else if t == "story_arcs"@ {
        Some(MetadataField::StoryArcs)
    } else if t == "universes"@ {
        Some(MetadataField::Universes)
    } else if t == "genres"@ {
        Some(MetadataField::Genres)
    } else if t == "tags"@ {
        Some(MetadataField::Tags)
    } else if t == "reprints"@ {
        Some(MetadataField::Reprints)
    } else if t == "cover.primary"@ {
        Some(MetadataField::CoverPrimary)
    } else if t == "cover.variants"@ {
        Some(MetadataField::CoverVariants)
    } else {
        None
    }
}

/// `MetadataField::from_str`: `external_id.<source>` (the source read as
/// [`parse_source`] reads it) or the exact key of a scalar field.
pub open spec fn parse_field(t: Seq<char>) -> Option<MetadataField> {
    if starts_with(t, "external_id."@) {
        match parse_source(t.skip("external_id."@.len() as int)) {
            Some(s) => Some(MetadataField::ExternalId(s)),
            None => None,
        }
    } else {
        scalar_of_key(t)
    }
}

/// Position of a field in [`all_fields`].
pub open spec fn field_ordinal(f: MetadataField) -> int {
    match f {
        MetadataField::Title => 0,
        MetadataField::SortName => 1,
        MetadataField::SeriesType => 2,
        MetadataField::YearBegan => 3,
        MetadataField::YearEnd => 4,
        MetadataField::Volume => 5,
        MetadataField::Deck => 6,
        MetadataField::Description => 7,
        MetadataField::Summary => 8,
        MetadataField::Notes => 9,
        MetadataField::ScanInformation => 10,
        MetadataField::CoverDate => 11,
        MetadataField::StoreDate => 12,
        MetadataField::FocDate => 13,
        MetadataField::PageCount => 14,
        MetadataField::AgeRating => 15,
        MetadataField::Format => 16,
        MetadataField::LanguageCode => 17,
        MetadataField::Manga => 18,
        MetadataField::Price => 19,
        MetadataField::Sku => 20,
        MetadataField::CommunityRating => 21,
        MetadataField::StaffRating => 22,
        MetadataField::Aliases => 23,
        MetadataField::Status => 24,
        MetadataField::Publisher => 25,
        MetadataField::Imprint => 26,
        MetadataField::Credits => 27,
        MetadataField::Characters => 28,
        MetadataField::Teams => 29,
        MetadataField::Locations => 30,
        MetadataField::Concepts => 31,
        MetadataField::Objects => 32,
        MetadataField::StoryArcs => 33,
        MetadataField::Universes => 34,
        MetadataField::Genres => 35,
        MetadataField::Tags => 36,
        MetadataField::Reprints => 37,
        MetadataField::CoverPrimary => 38,
        MetadataField::CoverVariants => 39,
        MetadataField::ExternalId(s) => match s {
            Source::ComicVine => 40,
            Source::Metron => 41,
            Source::Gcd => 42,
            Source::Marvel => 43,
            Source::Locg => 44,
            Source::Mal => 45,
            Source::AniList => 46,
            Source::MangaUpdates => 47,
            Source::Isbn => 48,
            Source::Upc => 49,
            Source::Asin => 50,
            Source::Doi => 51,
            Source::Gtin => 52,
        },
    }
}

/// The field at position `i` of [`all_fields`].
pub open spec fn field_at(i: int) -> MetadataField {
    if i == 0 {
        MetadataField::Title
    } else if i == 1 {
        MetadataField::SortName
    } else if i == 2 {
        MetadataField::SeriesType
    } else if i == 3 {
        MetadataField::YearBegan
    } else if i == 4 {
        MetadataField::YearEnd
    } else if i == 5 {
        MetadataField::Volume
    } else if i == 6 {
        MetadataField::Deck
    } else if i == 7 {
        MetadataField::Description
    } else if i == 8 {
        MetadataField::Summary
    } else if i == 9 {
        MetadataField::Notes
    } else if i == 10 {
        MetadataField::ScanInformation
    } else if i == 11 {
        MetadataField::CoverDate
    } else if i == 12 {
        MetadataField::StoreDate
    } else if i == 13 {
        MetadataField::FocDate
    } else if i == 14 {
        MetadataField::PageCount
    } else if i == 15 {
        MetadataField::AgeRating
    } else if i == 16 {
        MetadataField::Format
    } else if i == 17 {
        MetadataField::LanguageCode
    } else if i == 18 {
        MetadataField::Manga
    } else if i == 19 {
        MetadataField::Price
    } else if i == 20 {
        MetadataField::Sku
    } else if i == 21 {
        MetadataField::CommunityRating
    } else if i == 22 {
        MetadataField::StaffRating
    } else if i == 23 {
        MetadataField::Aliases
    } else if i == 24 {
        MetadataField::Status
    } else if i == 25 {
        MetadataField::Publisher
    } else if i == 26 {
        MetadataField::Imprint
    } else if i == 27 {
        MetadataField::Credits
    } else if i == 28 {
        MetadataField::Characters
    } else if i == 29 {
        MetadataField::Teams
    } else if i == 30 {
        MetadataField::Locations
    } else if i == 31 {
        MetadataField::Concepts
    } else if i == 32 {
        MetadataField::Objects
    } else if i == 33 {
        MetadataField::StoryArcs
    } else if i == 34 {
        MetadataField::Universes
    } else if i == 35 {
        MetadataField::Genres
    } else if i == 36 {
        MetadataField::Tags
    } else if i == 37 {
        MetadataField::Reprints
    } else if i == 38 {
        MetadataField::CoverPrimary
    } else if i == 39 {
        MetadataField::CoverVariants
    } else if i == 40 {
        MetadataField::ExternalId(Source::ComicVine)
    } else if i == 41 {
        MetadataField::ExternalId(Source::Metron)
    } else if i == 42 {
        MetadataField::ExternalId(Source::Gcd)
    } else if i == 43 {
        MetadataField::ExternalId(Source::Marvel)
    } else if i == 44 {
        MetadataField::ExternalId(Source::Locg)
    } else if i == 45 {
        MetadataField::ExternalId(Source::Mal)
    } else if i == 46 {
        MetadataField::ExternalId(Source::AniList)
    } else if i == 47 {
        MetadataField::ExternalId(Source::MangaUpdates)
    } else if i == 48 {
        MetadataField::ExternalId(Source::Isbn)
    } else if i == 49 {
        MetadataField::ExternalId(Source::Upc)
    } else if i == 50 {
        MetadataField::ExternalId(Source::Asin)
    } else if i == 51 {
        MetadataField::ExternalId(Source::Doi)
    } else {
        MetadataField::ExternalId(Source::Gtin)
    }
}

/// Every field [`MetadataField::iter`] yields: the scalar, junction and
/// cover fields in declaration order, then one external id per source.
pub open spec fn all_fields() -> Seq<MetadataField> {
    Seq::new(53, |i: int| field_at(i))
}

pub open spec fn is_junction_field(f: MetadataField) -> bool {
    f == MetadataField::Credits || f == MetadataField::Characters || f == MetadataField::Teams || f == MetadataField::Locations || f == MetadataField::Concepts || f == MetadataField::Objects || f == MetadataField::StoryArcs || f == MetadataField::Universes || f == MetadataField::Genres || f == MetadataField::Tags || f == MetadataField::Reprints
}

pub open spec fn is_cover_field(f: MetadataField) -> bool {
    f == MetadataField::CoverPrimary || f == MetadataField::CoverVariants
}

/// Text of a field name that is not a legal key.
#[derive(Debug, Clone)]
pub struct UnknownField(pub String);

impl UnknownField {
    /// The error message: `unknown metadata field: <text>`.
    pub fn message(&self) -> (r: String)
        ensures
            r@ == "unknown metadata field: "@ + self.0@,
    {
        let mut m = String::from_str("unknown metadata field: ");
        m.append(self.0.as_str());
        m
    }
}

fn scalar_key(f: MetadataField) -> (r: &'static str)
    requires
        !(f is ExternalId),
    ensures
        r@ == field_key(f),
{
    match f {
        MetadataField::Title => "title",
        MetadataField::SortName => "sort_name",
        MetadataField::SeriesType => "series_type",
        MetadataField::YearBegan => "year_began",
        MetadataField::YearEnd => "year_end",
        MetadataField::Volume => "volume",
        MetadataField::Deck => "deck",
        MetadataField::Description => "description",
        MetadataField::Summary => "summary",
        MetadataField::Notes => "notes",
        MetadataField::ScanInformation => "scan_information",
        MetadataField::CoverDate => "cover_date",
        MetadataField::StoreDate => "store_date",
        MetadataField::FocDate => "foc_date",
        MetadataField::PageCount => "page_count",
        MetadataField::AgeRating => "age_rating",
        MetadataField::Format => "format",
        MetadataField::LanguageCode => "language_code",
        MetadataField::Manga => "manga",
        MetadataField::Price => "price",
        MetadataField::Sku => "sku",
        MetadataField::CommunityRating => "community_rating",
        MetadataField::StaffRating => "staff_rating",
        MetadataField::Aliases => "aliases",
        MetadataField::Status => "status",
        MetadataField::Publisher => "publisher",
        MetadataField::Imprint => "imprint",
        MetadataField::Credits => "credits",
        MetadataField::Characters => "characters",
        MetadataField::Teams => "teams",
        MetadataField::Locations => "locations",
        MetadataField::Concepts => "concepts",
        MetadataField::Objects => "objects",
        MetadataField::StoryArcs => "story_arcs",
        MetadataField::Universes => "universes",
        MetadataField::Genres => "genres",
        MetadataField::Tags => "tags",
        MetadataField::Reprints => "reprints",
        MetadataField::CoverPrimary => "cover.primary",
        MetadataField::CoverVariants => "cover.variants",
        MetadataField::ExternalId(_) => "external_id",
    }
}

fn scalar_from_key(t: &Vec<char>) -> (r: Option<MetadataField>)
    ensures
        r == scalar_of_key(t@),
{
    if eq_lit(t, "title") {
        Some(MetadataField::Title)
    } else if eq_lit(t, "sort_name") {
        Some(MetadataField::SortName)
    } else if eq_lit(t, "series_type") {
        Some(MetadataField::SeriesType)
    } else if eq_lit(t, "year_began") {
        Some(MetadataField::YearBegan)
    } else if eq_lit(t, "year_end") {
        Some(MetadataField::YearEnd)
    } else if eq_lit(t, "volume") {
        Some(MetadataField::Volume)
    } else if eq_lit(t, "deck") {
        Some(MetadataField::Deck)
    } else if eq_lit(t, "description") {
        Some(MetadataField::Description)
    } else if eq_lit(t, "summary") {
        Some(MetadataField::Summary)
    } else if eq_lit(t, "notes") {
        Some(MetadataField::Notes)
    } else if eq_lit(t, "scan_information") {
        Some(MetadataField::ScanInformation)
    } else if eq_lit(t, "cover_date") {
        Some(MetadataField::CoverDate)
    } else if eq_lit(t, "store_date") {
        Some(MetadataField::StoreDate)
    } else if eq_lit(t, "foc_date") {
        Some(MetadataField::FocDate)
    } else if eq_lit(t, "page_count") {
        Some(MetadataField::PageCount)
    } else if eq_lit(t, "age_rating") {
        Some(MetadataField::AgeRating)
    } else if eq_lit(t, "format") {
        Some(MetadataField::Format)
    } else if eq_lit(t, "language_code") {
        Some(MetadataField::LanguageCode)
    } else if eq_lit(t, "manga") {
        Some(MetadataField::Manga)
    } else if eq_lit(t, "price") {
        Some(MetadataField::Price)
    } else if eq_lit(t, "sku") {
        Some(MetadataField::Sku)
    } else if eq_lit(t, "community_rating") {
        Some(MetadataField::CommunityRating)
    } else if eq_lit(t, "staff_rating") {
        Some(MetadataField::StaffRating)
    } else if eq_lit(t, "aliases") {
        Some(MetadataField::Aliases)
    } else if eq_lit(t, "status") {
        Some(MetadataField::Status)
    } else if eq_lit(t, "publisher") {
        Some(MetadataField::Publisher)
    } else if eq_lit(t, "imprint") {
        Some(MetadataField::Imprint)
    } else if eq_lit(t, "credits") {
        Some(MetadataField::Credits)
    } else if eq_lit(t, "characters") {
        Some(MetadataField::Characters)
    } else if eq_lit(t, "teams") {
        Some(MetadataField::Teams)
    } else if eq_lit(t, "locations") {
        Some(MetadataField::Locations)
    } else if eq_lit(t, "concepts") {
        Some(MetadataField::Concepts)
    } else if eq_lit(t, "objects") {
        Some(MetadataField::Objects)
    } else if eq_lit(t, "story_arcs") {
        Some(MetadataField::StoryArcs)
    } else if eq_lit(t, "universes") {
        Some(MetadataField::Universes)
    } else if eq_lit(t, "genres") {
        Some(MetadataField::Genres)
    } else if eq_lit(t, "tags") {
        Some(MetadataField::Tags)
    } else if eq_lit(t, "reprints") {
        Some(MetadataField::Reprints)
    } else if eq_lit(t, "cover.primary") {
        Some(MetadataField::CoverPrimary)
    } else if eq_lit(t, "cover.variants") {
        Some(MetadataField::CoverVariants)
    } else {
        None
    }
}

impl MetadataField {
    /// Canonical string stored in `field_provenance.field`.
    pub fn key(&self) -> (r: String)
        ensures
            r@ == field_key(*self),
    {
        match self {
            MetadataField::ExternalId(s) => {
                let mut k = String::from_str("external_id.");
                k.append(s.as_str());
                k
            },
            _ => String::from_str(scalar_key(*self)),
        }
    }

    /// Every legal field: the scalar, junction and cover fields, then one
    /// external id per source.
    pub fn iter() -> (r: Vec<MetadataField>)
        ensures
            r@ == all_fields(),
    {
        let mut v: Vec<MetadataField> = Vec::new();
        v.push(MetadataField::Title);
        v.push(MetadataField::SortName);
        v.push(MetadataField::SeriesType);
        v.push(MetadataField::YearBegan);
        v.push(MetadataField::YearEnd);
        v.push(MetadataField::Volume);
        v.push(MetadataField::Deck);
        v.push(MetadataField::Description);
        v.push(MetadataField::Summary);
        v.push(MetadataField::Notes);
        v.push(MetadataField::ScanInformation);
        v.push(MetadataField::CoverDate);
        v.push(MetadataField::StoreDate);
        v.push(MetadataField::FocDate);
        v.push(MetadataField::PageCount);
        v.push(MetadataField::AgeRating);
        v.push(MetadataField::Format);
        v.push(MetadataField::LanguageCode);
        v.push(MetadataField::Manga);
        v.push(MetadataField::Price);
        v.push(MetadataField::Sku);
        v.push(MetadataField::CommunityRating);
        v.push(MetadataField::StaffRating);
        v.push(MetadataField::Aliases);
        v.push(MetadataField::Status);
        v.push(MetadataField::Publisher);
        v.push(MetadataField::Imprint);
        v.push(MetadataField::Credits);
        v.push(MetadataField::Characters);
        v.push(MetadataField::Teams);
        v.push(MetadataField::Locations);
        v.push(MetadataField::Concepts);
        v.push(MetadataField::Objects);
        v.push(MetadataField::StoryArcs);
        v.push(MetadataField::Universes);
        v.push(MetadataField::Genres);
        v.push(MetadataField::Tags);
        v.push(MetadataField::Reprints);
        v.push(MetadataField::CoverPrimary);
        v.push(MetadataField::CoverVariants);
        v.push(MetadataField::ExternalId(Source::ComicVine));
        v.push(MetadataField::ExternalId(Source::Metron));
        v.push(MetadataField::ExternalId(Source::Gcd));
        v.push(MetadataField::ExternalId(Source::Marvel));
        v.push(MetadataField::ExternalId(Source::Locg));
        v.push(MetadataField::ExternalId(Source::Mal));
        v.push(MetadataField::ExternalId(Source::AniList));
        v.push(MetadataField::ExternalId(Source::MangaUpdates));
        v.push(MetadataField::ExternalId(Source::Isbn));
        v.push(MetadataField::ExternalId(Source::Upc));
        v.push(MetadataField::ExternalId(Source::Asin));
        v.push(MetadataField::ExternalId(Source::Doi));
        v.push(MetadataField::ExternalId(Source::Gtin));
        assert(v@ =~= all_fields());
        v
    }

    /// The scalar, junction and cover fields, in declaration order.
    pub fn scalar_fields() -> (r: Vec<MetadataField>)
        ensures
            r@ == all_fields().take(40),
    {
        let mut v: Vec<MetadataField> = Vec::new();
        v.push(MetadataField::Title);
        v.push(MetadataField::SortName);
        v.push(MetadataField::SeriesType);
        v.push(MetadataField::YearBegan);
        v.push(MetadataField::YearEnd);
        v.push(MetadataField::Volume);
        v.push(MetadataField::Deck);
        v.push(MetadataField::Description);
        v.push(MetadataField::Summary);
        v.push(MetadataField::Notes);
        v.push(MetadataField::ScanInformation);
        v.push(MetadataField::CoverDate);
        v.push(MetadataField::StoreDate);
        v.push(MetadataField::FocDate);
        v.push(MetadataField::PageCount);
        v.push(MetadataField::AgeRating);
        v.push(MetadataField::Format);
        v.push(MetadataField::LanguageCode);
        v.push(MetadataField::Manga);
        v.push(MetadataField::Price);
        v.push(MetadataField::Sku);
        v.push(MetadataField::CommunityRating);
        v.push(MetadataField::StaffRating);
        v.push(MetadataField::Aliases);
        v.push(MetadataField::Status);
        v.push(MetadataField::Publisher);
        v.push(MetadataField::Imprint);
        v.push(MetadataField::Credits);
        v.push(MetadataField::Characters);
        v.push(MetadataField::Teams);
        v.push(MetadataField::Locations);
        v.push(MetadataField::Concepts);
        v.push(MetadataField::Objects);
        v.push(MetadataField::StoryArcs);
        v.push(MetadataField::Universes);
        v.push(MetadataField::Genres);
        v.push(MetadataField::Tags);
        v.push(MetadataField::Reprints);
        v.push(MetadataField::CoverPrimary);
        v.push(MetadataField::CoverVariants);
        assert(v@ =~= all_fields().take(40));
        v
    }

    /// The sources whose external ids [`MetadataField::iter`] yields.
    pub fn external_id_sources() -> (r: Vec<Source>)
        ensures
            r@.len() == 13,
            forall|i: int| 0 <= i < 13 ==> MetadataField::ExternalId(#[trigger] r@[i]) == all_fields()[40 + i],
    {
        let mut v: Vec<Source> = Vec::new();
        v.push(Source::ComicVine);
        v.push(Source::Metron);
        v.push(Source::Gcd);
        v.push(Source::Marvel);
        v.push(Source::Locg);
        v.push(Source::Mal);
        v.push(Source::AniList);
        v.push(Source::MangaUpdates);
        v.push(Source::Isbn);
        v.push(Source::Upc);
        v.push(Source::Asin);
        v.push(Source::Doi);
        v.push(Source::Gtin);
        v
    }

    /// Fields whose write also touches a junction table.
    pub fn is_junction(&self) -> (r: bool)
        ensures
            r == is_junction_field(*self),
    {
        match self {
            MetadataField::Credits | MetadataField::Characters | MetadataField::Teams
            | MetadataField::Locations | MetadataField::Concepts | MetadataField::Objects
            | MetadataField::StoryArcs | MetadataField::Universes | MetadataField::Genres
            | MetadataField::Tags | MetadataField::Reprints => true,
            _ => false,
        }
    }

    /// Cover-shaped fields.
    pub fn is_cover(&self) -> (r: bool)
        ensures
            r == is_cover_field(*self),
    {
        match self {
            MetadataField::CoverPrimary | MetadataField::CoverVariants => true,
            _ => false,
        }
    }

    /// Parse a stored key back into the field.
    pub fn from_str(s: &str) -> (r: Result<MetadataField, UnknownField>)
        ensures
            match r {
                Ok(f) => parse_field(s@) == Some(f),
                Err(e) => parse_field(s@) is None && e.0@ == s@,
            },
    {
        let t = chars_of(s);
        if chars_starts_with(&t, "external_id.") {
            let pre = chars_of("external_id.");
            let mut rest = String::new();
            let mut i: usize = pre.len();
            while i < t.len()
                invariant
                    pre@ == "external_id."@,
                    pre@.len() <= i <= t@.len(),
                    rest@ == t@.subrange(pre@.len() as int, i as int),
                decreases t@.len() - i,
            {
                crate::text::push_char(&mut rest, t[i]);
                i = i + 1;
                assert(rest@ =~= t@.subrange(pre@.len() as int, i as int));
            }
            assert(rest@ =~= t@.skip("external_id."@.len() as int));
            match Source::from_str(rest.as_str()) {
                Ok(src) => Ok(MetadataField::ExternalId(src)),
                Err(_) => Err(UnknownField(String::from_str(s))),
            }
        } else {
            match scalar_from_key(&t) {
                Some(f) => Ok(f),
                None => Err(UnknownField(String::from_str(s))),
            }
        }
    }
}

proof fn lemma_external_id_round_trip(s: Source)
    ensures
        parse_field(field_key(MetadataField::ExternalId(s))) == Some(MetadataField::ExternalId(s)),
{
    let t = "external_id."@ + source_key(s);
    assert(t.take("external_id."@.len() as int) =~= "external_id."@);
    assert(t.skip("external_id."@.len() as int) =~= source_key(s));
    lemma_source_round_trip(s);
}

#[verifier::spinoff_prover]
#[verifier::rlimit(60)]
proof fn lemma_scalar_round_trip(f: MetadataField)
    requires
        !(f is ExternalId),
    ensures
        parse_field(field_key(f)) == Some(f),
{
    reveal_strlit("external_id.");
    reveal_strlit("title");
    reveal_strlit("sort_name");
    reveal_strlit("series_type");
    reveal_strlit("year_began");
    reveal_strlit("year_end");
    reveal_strlit("volume");
    reveal_strlit("deck");
    reveal_strlit("description");
    reveal_strlit("summary");
    reveal_strlit("notes");
    reveal_strlit("scan_information");
    reveal_strlit("cover_date");
    reveal_strlit("store_date");
    reveal_strlit("foc_date");
    reveal_strlit("page_count");
    reveal_strlit("age_rating");
    reveal_strlit("format");
    reveal_strlit("language_code");
    reveal_strlit("manga");
    reveal_strlit("price");
    reveal_strlit("sku");
    reveal_strlit("community_rating");
    reveal_strlit("staff_rating");
    reveal_strlit("aliases");
    reveal_strlit("status");
    reveal_strlit("publisher");
    reveal_strlit("imprint");
    reveal_strlit("credits");
    reveal_strlit("characters");
    reveal_strlit("teams");
    reveal_strlit("locations");
    reveal_strlit("concepts");
    reveal_strlit("objects");
    reveal_strlit("story_arcs");
    reveal_strlit("universes");
    reveal_strlit("genres");
    reveal_strlit("tags");
    reveal_strlit("reprints");
    reveal_strlit("cover.primary");
    reveal_strlit("cover.variants");
    assert("title"@[0] == 't');
    assert("title"@[1] == 'i');
    assert("sort_name"@[0] == 's');
    assert("series_type"@[0] == 's');
    assert("year_began"@[0] == 'y');
    assert("year_end"@[0] == 'y');
    assert("volume"@[0] == 'v');
    assert("deck"@[0] == 'd');
    assert("description"@[0] == 'd');
    assert("summary"@[0] == 's');
    assert("notes"@[0] == 'n');
    assert("scan_information"@[0] == 's');
    assert("cover_date"@[0] == 'c');
    assert("cover_date"@[1] == 'o');
    assert("store_date"@[0] == 's');
    assert("store_date"@[4] == 'e');
    assert("foc_date"@[0] == 'f');
    assert("page_count"@[0] == 'p');
    assert("age_rating"@[0] == 'a');
    assert("format"@[0] == 'f');
    assert("language_code"@[0] == 'l');
    assert("manga"@[0] == 'm');
    assert("price"@[0] == 'p');
    assert("community_rating"@[0] == 'c');
    assert("aliases"@[0] == 'a');
    assert("status"@[0] == 's');
    assert("publisher"@[0] == 'p');
    assert("imprint"@[0] == 'i');
    assert("credits"@[0] == 'c');
    assert("characters"@[0] == 'c');
    assert("characters"@[1] == 'h');
    assert("teams"@[0] == 't');
    assert("teams"@[1] == 'e');
    assert("locations"@[0] == 'l');
    assert("concepts"@[0] == 'c');
    assert("objects"@[0] == 'o');
    assert("story_arcs"@[0] == 's');
    assert("story_arcs"@[4] == 'y');
    assert("universes"@[0] == 'u');
    assert("genres"@[0] == 'g');
    assert("tags"@[0] == 't');
    assert("reprints"@[0] == 'r');
    assert("cover.primary"@[0] == 'c');
            assert(!starts_with(field_key(f), "external_id."@)) by {
                let k = field_key(f);
                if "external_id."@.len() <= k.len() {
                    assert(k.take("external_id."@.len() as int)[0] == k[0]);
                    assert(k.take("external_id."@.len() as int)[9] == k[9]);
                }
            }
    match f {
        MetadataField::Title => { assert(scalar_of_key(field_key(f)) == Some(f)); },
        MetadataField::SortName => { assert(scalar_of_key(field_key(f)) == Some(f)); },
        MetadataField::SeriesType => { assert(scalar_of_key(field_key(f)) == Some(f)); },
        MetadataField::YearBegan => { assert(scalar_of_key(field_key(f)) == Some(f)); },
        MetadataField::YearEnd => { assert(scalar_of_key(field_key(f)) == Some(f)); },
        MetadataField::Volume => { assert(scalar_of_key(field_key(f)) == Some(f)); },
        MetadataField::Deck => { assert(scalar_of_key(field_key(f)) == Some(f)); },
        MetadataField::Description => { assert(scalar_of_key(field_key(f)) == Some(f)); },
        MetadataField::Summary => { assert(scalar_of_key(field_key(f)) == Some(f)); },
        MetadataField::Notes => { assert(scalar_of_key(field_key(f)) == Some(f)); },
        MetadataField::ScanInformation => { assert(scalar_of_key(field_key(f)) == Some(f)); },
        MetadataField::CoverDate => { assert(scalar_of_key(field_key(f)) == Some(f)); },
        MetadataField::StoreDate => { assert(scalar_of_key(field_key(f)) == Some(f)); },
        MetadataField::FocDate => { assert(scalar_of_key(field_key(f)) == Some(f)); },
        MetadataField::PageCount => { assert(scalar_of_key(field_key(f)) == Some(f)); },
        MetadataField::AgeRating => { assert(scalar_of_key(field_key(f)) == Some(f)); },
        MetadataField::Format => { assert(scalar_of_key(field_key(f)) == Some(f)); },
        MetadataField::LanguageCode => { assert(scalar_of_key(field_key(f)) == Some(f)); },
        MetadataField::Manga => { assert(scalar_of_key(field_key(f)) == Some(f)); },
        MetadataField::Price => { assert(scalar_of_key(field_key(f)) == Some(f)); },
        MetadataField::Sku => { assert(scalar_of_key(field_key(f)) == Some(f)); },
        MetadataField::CommunityRating => { assert(scalar_of_key(field_key(f)) == Some(f)); },
        MetadataField::StaffRating => { assert(scalar_of_key(field_key(f)) == Some(f)); },
        MetadataField::Aliases => { assert(scalar_of_key(field_key(f)) == Some(f)); },
        MetadataField::Status => { assert(scalar_of_key(field_key(f)) == Some(f)); },
        MetadataField::Publisher => { assert(scalar_of_key(field_key(f)) == Some(f)); },
        MetadataField::Imprint => { assert(scalar_of_key(field_key(f)) == Some(f)); },
        MetadataField::Credits => { assert(scalar_of_key(field_key(f)) == Some(f)); },
        MetadataField::Characters => { assert(scalar_of_key(field_key(f)) == Some(f)); },
        MetadataField::Teams => { assert(scalar_of_key(field_key(f)) == Some(f)); },
        MetadataField::Locations => { assert(scalar_of_key(field_key(f)) == Some(f)); },
        MetadataField::Concepts => { assert(scalar_of_key(field_key(f)) == Some(f)); },
        MetadataField::Objects => { assert(scalar_of_key(field_key(f)) == Some(f)); },
        MetadataField::StoryArcs => { assert(scalar_of_key(field_key(f)) == Some(f)); },
        MetadataField::Universes => { assert(scalar_of_key(field_key(f)) == Some(f)); },
        MetadataField::Genres => { assert(scalar_of_key(field_key(f)) == Some(f)); },
        MetadataField::Tags => { assert(scalar_of_key(field_key(f)) == Some(f)); },
        MetadataField::Reprints => { assert(scalar_of_key(field_key(f)) == Some(f)); },
        MetadataField::CoverPrimary => { assert(scalar_of_key(field_key(f)) == Some(f)); },
        MetadataField::CoverVariants => { assert(scalar_of_key(field_key(f)) == Some(f)); },
        MetadataField::ExternalId(_) => {},
    }
}

/// Every field's key parses back to that field.
pub proof fn lemma_field_key_round_trip(f: MetadataField)
    ensures
        parse_field(field_key(f)) == Some(f),
{
    if let MetadataField::ExternalId(s) = f {
        lemma_external_id_round_trip(s);
    } else {
        lemma_scalar_round_trip(f);
    }
}

/// Only keys parse: text that parses to a field other than an external id
/// is that field's key, and text that parses to the external id of a source
/// is `external_id.` followed by text that parses as that source.
pub proof fn lemma_field_parse_only_keys(t: Seq<char>)
    ensures
        match parse_field(t) {
            Some(MetadataField::ExternalId(s)) => starts_with(t, "external_id."@) && parse_source(
                t.skip("external_id."@.len() as int),
            ) == Some(s),
            Some(f) => t == field_key(f),
            None => true,
        },
{
}

/// Distinct fields have distinct keys.
pub proof fn lemma_field_keys_distinct(f: MetadataField, g: MetadataField)
    requires
        f != g,
    ensures
        field_key(f) != field_key(g),
{
    lemma_field_key_round_trip(f);
    lemma_field_key_round_trip(g);
}

/// [`all_fields`] lists every field exactly once, so its keys are
/// pairwise distinct.
pub proof fn lemma_all_fields_unique()
    ensures
        all_fields().len() == 53,
        forall|i: int| 0 <= i < 53 ==> field_ordinal(#[trigger] all_fields()[i]) == i,
        forall|i: int, j: int|
            0 <= i < j < 53 ==> field_key(#[trigger] all_fields()[i]) != field_key(#[trigger] all_fields()[j]),
        forall|f: MetadataField| 0 <= #[trigger] field_ordinal(f) < 53 && all_fields()[field_ordinal(f)] == f,
{
    assert forall|i: int| 0 <= i < 53 implies field_ordinal(#[trigger] all_fields()[i]) == i by {
        assert(all_fields()[i] == field_at(i));
    }
    assert forall|i: int, j: int|
        0 <= i < j < 53 implies field_key(#[trigger] all_fields()[i]) != field_key(
            #[trigger] all_fields()[j],
        ) by {
        assert(field_ordinal(all_fields()[i]) == i);
        assert(field_ordinal(all_fields()[j]) == j);
        lemma_field_keys_distinct(all_fields()[i], all_fields()[j]);
    }
    assert forall|f: MetadataField| 0 <= #[trigger] field_ordinal(f) < 53 && all_fields()[field_ordinal(f)] == f by {
        assert(all_fields()[field_ordinal(f)] == field_at(field_ordinal(f)));
    }
}

} // verus!

use folio_metadata::field::MetadataField;
use folio_metadata::identifier::{canonical_url, Identifier, Source};
use folio_metadata::matcher::{bucket, hamming_distance_opt, levenshtein, normalize_for_match, Confidence};
use folio_metadata::phash::hamming_distance;
use folio_metadata::ratcliff::{find_longest_match, matching_chars, quick_matches};
use folio_metadata::title_norm::sanitize_title;

const ALL_SOURCES: [Source; 13] = [
    Source::ComicVine,
    Source::Metron,
    Source::Gcd,
    Source::Marvel,
    Source::Locg,
    Source::Mal,
    Source::AniList,
    Source::MangaUpdates,
    Source::Isbn,
    Source::Upc,
    Source::Asin,
    Source::Doi,
    Source::Gtin,
];

#[test]
fn key_round_trip_for_every_variant() {
    for f in MetadataField::iter() {
        let key = f.key();
        let parsed = MetadataField::from_str(&key).unwrap();
        assert_eq!(f, parsed, "round trip failed for {key}");
    }
}

#[test]
fn iter_produces_unique_keys() {
    let all: Vec<MetadataField> = MetadataField::iter();
    let mut keys: Vec<String> = all.iter().map(|f| f.key()).collect();
    keys.sort();
    keys.dedup();
    assert_eq!(all.len(), keys.len(), "duplicate keys in iter()");
    assert_eq!(all.len(), MetadataField::scalar_fields().len() + MetadataField::external_id_sources().len());
    assert_eq!(all.len(), 53);
    assert_eq!(all.last(), Some(&MetadataField::ExternalId(Source::Gtin)));
}

#[test]
fn external_id_key_uses_source_string() {
    assert_eq!(MetadataField::ExternalId(Source::ComicVine).key(), "external_id.comicvine");
    assert_eq!(MetadataField::ExternalId(Source::Metron).key(), "external_id.metron");
}

#[test]
fn unknown_field_rejected() {
    assert!(MetadataField::from_str("not_a_field").is_err());
    assert!(MetadataField::from_str("external_id.banana").is_err());
}

#[test]
fn is_junction_covers_expected_set() {
    assert!(MetadataField::Credits.is_junction());
    assert!(MetadataField::Characters.is_junction());
    assert!(MetadataField::Reprints.is_junction());
    assert!(!MetadataField::Title.is_junction());
    assert!(!MetadataField::CoverPrimary.is_junction());
    assert!(!MetadataField::ExternalId(Source::Metron).is_junction());
}

#[test]
fn is_cover_covers_expected_set() {
    assert!(MetadataField::CoverPrimary.is_cover());
    assert!(MetadataField::CoverVariants.is_cover());
    assert!(!MetadataField::Credits.is_cover());
    assert!(!MetadataField::Title.is_cover());
}

#[test]
fn source_round_trip() {
    for s in ALL_SOURCES {
        assert_eq!(Source::from_str(s.as_str()).unwrap(), s);
    }
}

#[test]
fn source_accepts_aliases() {
    assert_eq!(Source::from_str("cv").unwrap(), Source::ComicVine);
    assert_eq!(Source::from_str("CV").unwrap(), Source::ComicVine);
    assert_eq!(Source::from_str(" myanimelist ").unwrap(), Source::Mal);
    assert_eq!(Source::from_str("mu").unwrap(), Source::MangaUpdates);
}

#[test]
fn source_rejects_unknown() {
    assert!(Source::from_str("invinciblevine").is_err());
}

#[test]
fn unknown_source_error_keeps_the_text() {
    let e = Source::from_str("banana").unwrap_err();
    assert_eq!(e.0, "banana");
    assert_eq!(e.message(), "unknown source: banana");
}

#[test]
fn canonical_url_covers_critical_pairs() {
    assert_eq!(
        canonical_url(Source::ComicVine, "issue", "123"),
        Some("https://comicvine.gamespot.com/issue/4000-123/".into())
    );
    assert_eq!(canonical_url(Source::Metron, "series", "456"), Some("https://metron.cloud/series/456/".into()));
    assert_eq!(canonical_url(Source::Gcd, "issue", "789"), Some("https://www.comics.org/issue/789/".into()));
}

#[test]
fn canonical_url_returns_none_for_barcodes() {
    assert_eq!(canonical_url(Source::Isbn, "issue", "9780123456789"), None);
    assert_eq!(canonical_url(Source::Upc, "issue", "075678164002"), None);
}

#[test]
fn canonical_url_of_metron_person_is_creator_page() {
    assert_eq!(canonical_url(Source::Metron, "person", "12"), Some("https://metron.cloud/creator/12/".into()));
    assert_eq!(canonical_url(Source::Metron, "story_arc", "3"), Some("https://metron.cloud/arc/3/".into()));
    assert_eq!(canonical_url(Source::Mal, "issue", "3"), None);
}

#[test]
fn identifier_with_canonical_url_fills_url_when_template_known() {
    let id = Identifier::with_canonical_url(Source::Metron, "12345", "issue");
    assert_eq!(id.source, Source::Metron);
    assert_eq!(id.id, "12345");
    assert_eq!(id.url.as_deref(), Some("https://metron.cloud/issue/12345/"));
}

#[test]
fn identifier_with_canonical_url_leaves_url_none_when_template_unknown() {
    let id = Identifier::with_canonical_url(Source::Isbn, "9780123456789", "issue");
    assert!(id.url.is_none());
}

#[test]
fn equivalent_pairs_sanitize_to_same_key() {
    let pairs = [
        ("The X-Men", "X-Men"),
        ("Spider-Man", "spider man"),
        ("Saga", "SAGA"),
        ("Y: The Last Man", "Y Last Man"),
        ("X-Men: First Class", "X Men First Class"),
        ("Batman, Inc.", "Batman Inc"),
        ("Pokémon", "Pokemon"),
        ("Sandman: Overture", "Sandman Overture"),
        ("Hellboy & Friends", "Hellboy Friends"),
        ("A Game of Thrones", "Game of Thrones"),
        ("An American Tail", "American Tail"),
        ("Spider-Man's Daily Bugle", "spider mans daily bugle"),
        ("DC: The New Frontier", "DC New Frontier"),
        ("Star Wars: Knights of the Old Republic", "Star Wars Knights Old Republic"),
        ("100 Bullets", "100 bullets"),
        ("Issue 1", "1"),
        ("Wonder Woman", "wonder-woman"),
        ("Spider-Man (2099)", "Spider-Man 2099"),
        ("Daredevil — Yellow", "Daredevil Yellow"),
    ];
    for (a, b) in pairs {
        let sa = sanitize_title(a);
        let sb = sanitize_title(b);
        assert_eq!(sa, sb, "expected {a:?} = {b:?}; got {sa:?} vs {sb:?}");
    }
}

#[test]
fn distinct_pairs_sanitize_to_different_keys() {
    let pairs = [
        ("Aquaman", "Aquaman: The Becoming"),
        ("Batman", "Batman Beyond"),
        ("Superman", "Super Sons"),
        ("X-Men", "X-Force"),
        ("Avengers", "New Avengers"),
        ("Saga", "Saga of the Swamp Thing"),
        ("Sandman", "Sandman Mystery Theatre"),
        ("Robin", "Tim Drake Robin"),
        ("Spider-Man", "Spider-Gwen"),
        ("Flash", "Flash Forward"),
        ("Detective Comics", "Action Comics"),
        ("Hellboy", "BPRD"),
        ("Watchmen", "Doomsday Clock"),
        ("Daredevil", "Echo"),
        ("Wonder Woman", "Wonder Girl"),
        ("Catwoman", "Cat Woman"),
        ("Iron Man", "Iron Fist"),
        ("Captain America", "Captain Marvel"),
        ("Justice League", "Justice Society"),
        ("Thor", "Mighty Thor"),
    ];
    for (a, b) in pairs {
        let sa = sanitize_title(a);
        let sb = sanitize_title(b);
        assert_ne!(sa, sb, "expected {a:?} to differ from {b:?}; both sanitized to {sa:?}");
    }
}

#[test]
fn nfkd_strips_accents_and_decomposes_ligatures() {
    assert_eq!(sanitize_title("Café"), "cafe");
    assert_eq!(sanitize_title("naïve"), "naive");
    assert_eq!(sanitize_title("résumé"), "resume");
    assert_eq!(sanitize_title("Pokémon Pikachu"), "pokemon pikachu");
    assert_eq!(sanitize_title("\u{FB01}re"), "fire");
}

#[test]
fn article_strip_drops_full_list() {
    assert_eq!(sanitize_title("The Saga"), "saga");
    assert_eq!(sanitize_title("A New Hope"), "new hope");
    assert_eq!(sanitize_title("An American Werewolf"), "american werewolf");
    assert_eq!(sanitize_title("Issue 1"), "1");
    assert_eq!(sanitize_title("Lord of the Rings"), "lord rings");
    assert_eq!(sanitize_title("It's a Wonderful Life"), "wonderful life");
}

#[test]
fn quotes_are_discarded_not_replaced_with_hyphens() {
    assert_eq!(sanitize_title("Spider-Man\u{2019}s Web"), "spider mans web");
    assert_eq!(sanitize_title("\"Quoted\" Hero"), "quoted hero");
    assert_eq!(sanitize_title("\u{201C}Heavy\u{201D} Metal"), "heavy metal");
}

#[test]
fn punctuation_becomes_word_boundary() {
    assert_eq!(sanitize_title("X-Men: First Class"), "x men first class");
    assert_eq!(sanitize_title("Batman/Superman"), "batman superman");
    assert_eq!(sanitize_title("Spider-Man (2099)"), "spider man 2099");
    assert_eq!(sanitize_title("Daredevil — Yellow"), "daredevil yellow");
}

#[test]
fn idempotent_on_already_sanitized_input() {
    let inputs = ["saga", "x men first class", "spider man 2099", "wonder woman"];
    for s in inputs {
        assert_eq!(sanitize_title(s), s);
        assert_eq!(sanitize_title(&sanitize_title(s)), sanitize_title(s));
    }
}

#[test]
fn sanitize_is_idempotent_on_raw_titles() {
    for s in ["The X-Men: First Class!", "Pokémon — Red & Blue", "  A  Tale of Two Cities "] {
        let once = sanitize_title(s);
        assert_eq!(sanitize_title(&once), once);
    }
}

#[test]
fn empty_and_pure_punct_inputs_yield_empty() {
    assert_eq!(sanitize_title(""), "");
    assert_eq!(sanitize_title("   "), "");
    assert_eq!(sanitize_title("!!!"), "");
    assert_eq!(sanitize_title("the of and"), "");
}

#[test]
fn normalize_strips_articles_and_punctuation() {
    assert_eq!(normalize_for_match("The Walking Dead"), "walking dead");
    assert_eq!(normalize_for_match("Spider-Man!"), "spiderman");
    assert_eq!(normalize_for_match("X-Men: First Class"), "xmen first class");
    assert_eq!(normalize_for_match("  whitespace   chaos  "), "whitespace chaos");
}

#[test]
fn levenshtein_counts_edits() {
    assert_eq!(levenshtein("saga", "saga"), 0);
    assert_eq!(levenshtein("saga", "sage"), 1);
    assert_eq!(levenshtein("", "abc"), 3);
    assert_eq!(levenshtein("kitten", "sitting"), 3);
}

#[test]
fn longest_match_finds_substring() {
    let a: Vec<char> = "abcdef".chars().collect();
    let b: Vec<char> = "xxabcdefyy".chars().collect();
    let (i, j, k) = find_longest_match(&a, &b, 0, a.len(), 0, b.len());
    assert_eq!((i, j, k), (0, 2, 6));
}

#[test]
fn matching_counts_match_difflib() {
    assert_eq!(matching_chars("abcd", "bcde"), 3);
    assert_eq!(matching_chars("", ""), 0);
    assert!(quick_matches("abcd", "dcba") >= matching_chars("abcd", "dcba"));
    assert_eq!(quick_matches("abcd", "dcba"), 4);
}

#[test]
fn hamming_is_symmetric_and_zero_on_self() {
    assert_eq!(hamming_distance(0b1011, 0b1011), 0);
    assert_eq!(hamming_distance(0b1011, 0b0001), 2);
    assert_eq!(hamming_distance(0b0001, 0b1011), 2);
    assert_eq!(hamming_distance(-1, 0), 64);
    assert_eq!(hamming_distance_opt(Some(1), None), None);
    assert_eq!(hamming_distance_opt(Some(3), Some(0)), Some(2));
}

#[test]
fn cover_distance_decides_bucket_when_present() {
    assert_eq!(bucket(Some(0), Confidence::Low), Confidence::High);
    assert_eq!(bucket(None, Confidence::Medium), Confidence::Medium);
    assert_eq!(bucket(Some(60), Confidence::High), Confidence::Low);
}

#[test]
fn sanitize_twice_is_sanitize_once_on_ascii_titles() {
    for s in ["Saga", "X-Men: First Class", "Spider-Man (2099)", "The Walking Dead", "  a  b  "] {
        let once = sanitize_title(s);
        assert!(once.is_ascii());
        assert_eq!(sanitize_title(&once), once);
    }
    assert_eq!(sanitize_title("The Walking Dead"), "walking dead");
}

#[test]
fn normalize_for_match_lowercases_and_filters_ascii() {
    assert_eq!(normalize_for_match("Batman: Year One"), "batman year one");
    assert_eq!(normalize_for_match("A Batman"), "batman");
    assert_eq!(normalize_for_match("!!!"), "");
}

#[test]
fn source_parse_ignores_padding_and_case() {
    assert_eq!(Source::from_str("  MeTrOn\t").unwrap(), Source::Metron);
    assert_eq!(Source::from_str(" Gcd ").unwrap(), Source::from_str("gcd").unwrap());
    assert_eq!(Source::from_str("in vincible").unwrap_err().0, "in vincible");
}

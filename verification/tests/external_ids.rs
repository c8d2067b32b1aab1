use folio_metadata::identifier::{Identifier, Source};
use folio_metadata::diff::ExistingExternalId;
use folio_metadata::writers::{
    external_id_url, external_id_writable, legacy_trio_identifiers, legacy_trio_of, SetBy,
};

fn stored(source: &str, value: &str, set_by: &str) -> ExistingExternalId {
    ExistingExternalId {
        source: source.to_string(),
        external_id: value.to_string(),
        set_by: set_by.to_string(),
    }
}

#[test]
fn user_set_external_id_survives_provider_write() {
    let row = Some(stored("comicvine", "4000-1", "user"));
    assert!(!external_id_writable(&row, "4000-2", SetBy::Provider(Source::ComicVine)));
    assert!(!external_id_writable(&row, "4000-2", SetBy::ComicInfo));
    // The user may replace their own value.
    assert!(external_id_writable(&row, "4000-2", SetBy::User));
    // Not even a same-value write by a provider goes through: it would
    // stamp the provider over the user's pin.
    assert!(!external_id_writable(&row, "4000-1", SetBy::Provider(Source::ComicVine)));
    assert!(external_id_writable(&row, "4000-1", SetBy::User));
}

#[test]
fn non_user_rows_and_missing_rows_are_writable() {
    let row = Some(stored("metron", "77", "metron"));
    assert!(external_id_writable(&row, "78", SetBy::Provider(Source::Metron)));
    assert!(external_id_writable(&None, "78", SetBy::ScannerInference));
}

#[test]
fn external_id_url_prefers_supplied_then_canonical() {
    let mut id = Identifier::new(Source::ComicVine, "4000-123");
    id.url = Some("https://example.test/x".to_string());
    assert_eq!(external_id_url(&id, "issue"), Some("https://example.test/x".to_string()));
    let bare = Identifier::new(Source::Gtin, "9781234567897");
    assert_eq!(external_id_url(&bare, "issue"), None);
}

#[test]
fn legacy_trio_writes_one_row_per_given_id() {
    let ids = legacy_trio_identifiers(Some(4050), Some(-7), Some("0761941"));
    assert_eq!(ids.len(), 3);
    assert_eq!(ids[0].source, Source::ComicVine);
    assert_eq!(ids[0].id, "4050");
    assert_eq!(ids[1].source, Source::Metron);
    assert_eq!(ids[1].id, "-7");
    assert_eq!(ids[2].source, Source::Gtin);
    assert_eq!(ids[2].id, "0761941");
    // A blank GTIN is not written.
    let only_cv = legacy_trio_identifiers(Some(1), None, Some(""));
    assert_eq!(only_cv.len(), 1);
    assert!(legacy_trio_identifiers(None, None, None).is_empty());
}

#[test]
fn legacy_trio_reads_back_what_was_written() {
    let ids = legacy_trio_identifiers(Some(4050), Some(12), Some("0761941"));
    let rows: Vec<ExistingExternalId> = ids
        .iter()
        .map(|i| stored(i.source.as_str(), &i.id, "comicinfo"))
        .collect();
    assert_eq!(legacy_trio_of(&rows), (Some(4050), Some(12), Some("0761941".to_string())));
}

#[test]
fn legacy_trio_read_takes_last_row_and_drops_unparsable_ids() {
    let rows = vec![
        stored("comicvine", "10", "user"),
        stored("marvel", "999", "user"),
        stored("comicvine", "4000-22", "user"),
        stored("metron", "+31", "user"),
    ];
    assert_eq!(legacy_trio_of(&rows), (None, Some(31), None));
}

use folio_metadata::apply::{run_entity, ApplyArgs, ApplyMode, IssueRow, ProvenanceMap, RunScopeError, SeriesRow};
use folio_metadata::diff::{compute_issue_diff, compute_series_diff, ExistingExternalId, ProvenanceDetail};
use folio_metadata::identifier::{Identifier, Source};
use folio_metadata::provider::{CalendarDate, EntityCandidate, GenericMetadata};
use folio_metadata::writers::CoverOverwritePolicy;

fn args(mode: ApplyMode) -> ApplyArgs {
    ApplyArgs {
        run_id: 9,
        ordinal: 2,
        mode,
        apply_cover: false,
        cover_overwrite_policy: CoverOverwritePolicy::WhenMissing,
        override_user_edits: false,
        actor_id: None,
        selected_fields: None,
        override_external_id_sources: Vec::new(),
    }
}

fn entity(name: &str) -> EntityCandidate {
    EntityCandidate {
        name: name.to_string(),
        identifiers: Vec::new(),
        is_first_appearance: false,
        died_in_issue: None,
        disbanded_in_issue: None,
        position_in_arc: None,
    }
}

fn saga_detail() -> GenericMetadata {
    let mut d = GenericMetadata::default();
    d.series_name = Some("Saga".to_string());
    d.publisher = Some("Image Comics".to_string());
    d.year_began = Some(2012);
    d.source_external_id = Some("4050-1".to_string());
    d.identifiers = vec![
        Identifier::new(Source::ComicVine, "4050-1"),
        Identifier::new(Source::Metron, "812"),
        Identifier::new(Source::ComicVine, "4050-2"),
    ];
    d
}

#[test]
fn series_preview_rows_conflicts_and_new_ids() {
    let row = SeriesRow {
        name: "Saga".to_string(),
        sort_name: None,
        series_type: None,
        year: None,
        year_end: None,
        volume: None,
        publisher: Some("Image".to_string()),
        imprint: None,
        deck: None,
        summary: None,
        aliases: None,
    };
    let mut prov = ProvenanceMap::new();
    prov.insert("publisher".to_string(), "comicinfo".to_string());
    let full = vec![(
        "publisher".to_string(),
        ProvenanceDetail { set_by: "comicinfo".to_string(), set_at: "2024-01-01T00:00:00Z".to_string() },
    )];
    let existing = vec![ExistingExternalId {
        source: "comicvine".to_string(),
        external_id: "4050-9".to_string(),
        set_by: "user".to_string(),
    }];
    let r = compute_series_diff(9, 2, Source::ComicVine, &row, &saga_detail(), &prov, &full, &args(ApplyMode::FillMissing), &existing);
    assert_eq!((r.run_id, r.ordinal), (9, 2));
    assert_eq!(r.scope, "series");
    assert_eq!(r.source, "comicvine");
    assert_eq!(r.source_external_id, "4050-1");
    assert_eq!(r.rows.len(), 10);

    assert_eq!(r.rows[0].field, "title");
    assert_eq!(r.rows[0].label, "Title");
    assert_eq!(r.rows[0].decision, "no_change");

    assert_eq!(r.rows[3].field, "year_began");
    assert_eq!(r.rows[3].current_value, None);
    assert_eq!(r.rows[3].proposed_value.as_deref(), Some("2012"));
    assert_eq!(r.rows[3].decision, "would_fill");

    assert_eq!(r.rows[6].label, "Publisher");
    assert_eq!(r.rows[6].decision, "skipped_fill_missing_has_value");
    assert_eq!(r.rows[6].current_set_by.as_deref(), Some("comicinfo"));
    assert_eq!(r.rows[6].current_set_at.as_deref(), Some("2024-01-01T00:00:00Z"));

    assert_eq!(r.rows[9].label, "Description");
    assert_eq!(r.rows[9].decision, "no_incoming_value");

    // Only the first candidate id of a source is considered.
    assert_eq!(r.external_id_conflicts.len(), 1);
    assert_eq!(r.external_id_conflicts[0].source, "comicvine");
    assert_eq!(r.external_id_conflicts[0].current_external_id, "4050-9");
    assert_eq!(r.external_id_conflicts[0].proposed_external_id, "4050-1");
    assert_eq!(r.external_ids_new.len(), 1);
    assert_eq!(r.external_ids_new[0].source, "metron");
    assert_eq!(r.external_ids_new[0].external_id, "812");
    assert_eq!(r.changes_count, 1);
}

#[test]
fn series_preview_replace_all_turns_skips_into_replacements() {
    let row = SeriesRow {
        name: "Saga".to_string(),
        sort_name: None,
        series_type: None,
        year: Some(2011),
        year_end: None,
        volume: None,
        publisher: Some("Image".to_string()),
        imprint: None,
        deck: None,
        summary: None,
        aliases: None,
    };
    let r = compute_series_diff(
        1,
        0,
        Source::ComicVine,
        &row,
        &saga_detail(),
        &ProvenanceMap::new(),
        &Vec::new(),
        &args(ApplyMode::ReplaceAll),
        &Vec::new(),
    );
    assert_eq!(r.rows[3].decision, "would_replace");
    assert_eq!(r.rows[6].decision, "would_replace");
    assert!(r.external_id_conflicts.is_empty());
    assert_eq!(r.external_ids_new.len(), 2);
    assert_eq!(r.changes_count, 2);
}

fn bare_issue_row() -> IssueRow {
    IssueRow {
        title: Some("Chapter One".to_string()),
        number_raw: Some("1".to_string()),
        year: Some(2012),
        month: Some(3),
        day: Some(14),
        store_date: None,
        foc_date: None,
        deck: None,
        summary: None,
        age_rating: None,
        page_count: None,
        sku: None,
        price_bits: None,
        writer: Some("Brian K. Vaughan".to_string()),
        penciller: Some("Fiona Staples".to_string()),
        inker: None,
        colorist: None,
        letterer: None,
        cover_artist: None,
        editor: None,
        translator: None,
        characters: Some("Alana, Marko".to_string()),
        teams: None,
        locations: None,
        story_arc: None,
        tags: None,
        genre: None,
    }
}

#[test]
fn issue_preview_scalar_and_count_rows() {
    let mut d = GenericMetadata::default();
    d.title = Some("Chapter One".to_string());
    d.page_count = Some(44);
    d.cover_date = Some(CalendarDate { year: 2012, month: 3, day: 14 });
    d.characters = vec![entity("Alana"), entity("Marko"), entity("Hazel")];
    d.teams = vec![entity("The Will")];
    let r = compute_issue_diff(
        5,
        1,
        Source::Metron,
        &bare_issue_row(),
        &d,
        0,
        &ProvenanceMap::new(),
        &Vec::new(),
        &args(ApplyMode::FillMissing),
        &Vec::new(),
    );
    assert_eq!(r.scope, "issue");
    assert_eq!(r.source, "metron");
    assert_eq!(r.source_external_id, "");
    assert_eq!(r.rows.len(), 15);
    assert_eq!(r.rows[0].decision, "no_change");
    assert_eq!(r.rows[4].label, "Page count");
    assert_eq!(r.rows[4].proposed_value.as_deref(), Some("44"));
    assert_eq!(r.rows[4].decision, "would_fill");
    assert_eq!(r.rows[6].label, "Cover date");
    assert_eq!(r.rows[6].current_value.as_deref(), Some("2012-03-14"));
    assert_eq!(r.rows[6].decision, "no_change");

    // Count rows: credits, characters, teams, ...
    assert_eq!(r.rows[7].label, "Credits");
    assert_eq!(r.rows[7].current_value.as_deref(), Some("2 items"));
    assert_eq!(r.rows[7].proposed_value.as_deref(), Some("none"));
    assert_eq!(r.rows[7].decision, "no_incoming_value");
    assert_eq!(r.rows[8].current_value.as_deref(), Some("2 items"));
    assert_eq!(r.rows[8].proposed_value.as_deref(), Some("3 items"));
    assert_eq!(r.rows[8].decision, "skipped_fill_missing_has_value");
    assert_eq!(r.rows[9].current_value.as_deref(), Some("none"));
    assert_eq!(r.rows[9].proposed_value.as_deref(), Some("1 item"));
    assert_eq!(r.rows[9].decision, "would_fill");
    assert_eq!(r.rows[14].label, "Variant covers");
    assert_eq!(r.changes_count, 2);
}

#[test]
fn previews_need_a_run_of_their_scope() {
    let id = Some("abc".to_string());
    assert_eq!(run_entity("series", &id, true).ok(), Some("abc".to_string()));
    assert_eq!(run_entity("issue", &id, false).ok(), Some("abc".to_string()));
    match run_entity("issue", &id, true) {
        Err(RunScopeError::InvalidScope(s)) => assert_eq!(s, "issue"),
        _ => panic!("expected an invalid scope"),
    }
    assert!(matches!(run_entity("series", &None, true), Err(RunScopeError::SeriesGone)));
    assert!(matches!(run_entity("issue", &None, false), Err(RunScopeError::IssueGone)));
}

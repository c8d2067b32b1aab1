use folio_metadata::apply::{
    bump_run_counts, cover_to_fetch, decide_str, decide_value, identifier_for, is_zero_u32,
    plan_issue_junctions, plan_issue_updates, plan_series_updates, provenance_writes,
    record_cover_attempt, record_external_id, variants_to_write, ApplyArgs, ApplyMode,
    ApplyOutcome, CoverAttempt, ExternalIdWrite, IssueRow, ProvResolver, ProvSource,
    ProvenanceMap, SeriesRow,
};
use folio_metadata::field::MetadataField;
use folio_metadata::identifier::{Identifier, Source};
use folio_metadata::provider::{
    CalendarDate, CreditCandidate, EntityCandidate, GenericMetadata, VariantCoverCandidate,
};
use folio_metadata::writers::{CoverOverwritePolicy, SetBy};

fn args(mode: ApplyMode) -> ApplyArgs {
    ApplyArgs {
        run_id: 1,
        ordinal: 0,
        mode,
        apply_cover: false,
        cover_overwrite_policy: CoverOverwritePolicy::WhenMissing,
        override_user_edits: false,
        actor_id: None,
        selected_fields: None,
        override_external_id_sources: Vec::new(),
    }
}

fn empty_series_row() -> SeriesRow {
    SeriesRow {
        name: "Local".to_string(),
        sort_name: None,
        series_type: None,
        year: None,
        year_end: None,
        volume: None,
        publisher: None,
        imprint: None,
        deck: None,
        summary: None,
        aliases: None,
    }
}

fn empty_issue_row() -> IssueRow {
    IssueRow {
        title: None,
        number_raw: None,
        year: None,
        month: None,
        day: None,
        store_date: None,
        foc_date: None,
        deck: None,
        summary: None,
        age_rating: None,
        page_count: None,
        sku: None,
        price_bits: None,
        writer: None,
        penciller: None,
        inker: None,
        colorist: None,
        letterer: None,
        cover_artist: None,
        editor: None,
        translator: None,
        characters: None,
        teams: None,
        locations: None,
        story_arc: None,
        tags: None,
        genre: None,
    }
}

fn entity(name: &str) -> EntityCandidate {
    EntityCandidate {
        name: name.to_string(),
        identifiers: Vec::new(),
        is_first_appearance: false,
        died_in_issue: None,
        disbanded_in_issue: None,
        position_in_arc: None,
    }
}

#[test]
fn zero_counters_are_left_out() {
    assert!(is_zero_u32(&0));
    assert!(!is_zero_u32(&3));
}

#[test]
fn decide_str_ignores_blank_offers_and_records_decisions() {
    let prov = ProvenanceMap::new();
    let a = args(ApplyMode::FillMissing);
    let mut out = ApplyOutcome::default();
    let r = decide_str(&None, &Some("  ".to_string()), MetadataField::Deck, &prov, &a, &mut out);
    assert_eq!(r, None);
    assert!(out.applied_fields.is_empty() && out.skipped_fields.is_empty());

    let r = decide_str(&None, &Some("New deck".to_string()), MetadataField::Deck, &prov, &a, &mut out);
    assert_eq!(r, Some("New deck".to_string()));
    assert_eq!(out.applied_fields, vec!["deck".to_string()]);

    // Fill-missing keeps a filled local value.
    let r = decide_str(
        &Some("Mine".to_string()),
        &Some("Theirs".to_string()),
        MetadataField::Description,
        &prov,
        &a,
        &mut out,
    );
    assert_eq!(r, None);
    assert_eq!(out.skipped_fields, vec!["description".to_string()]);
}

#[test]
fn decide_value_follows_presence() {
    let prov = ProvenanceMap::new();
    let mut out = ApplyOutcome::default();
    let fill = args(ApplyMode::FillMissing);
    assert_eq!(decide_value(None::<i32>, None, MetadataField::PageCount, &prov, &fill, &mut out), None);
    assert_eq!(decide_value(Some(20), Some(24), MetadataField::PageCount, &prov, &fill, &mut out), None);
    let replace = args(ApplyMode::ReplaceAll);
    assert_eq!(
        decide_value(Some(20), Some(24), MetadataField::PageCount, &prov, &replace, &mut out),
        Some(24)
    );
    assert_eq!(out.skipped_fields, vec!["page_count".to_string()]);
    assert_eq!(out.applied_fields, vec!["page_count".to_string()]);
}

#[test]
fn series_plan_fills_only_missing_fields() {
    let mut row = empty_series_row();
    row.name = String::new();
    row.publisher = Some("Image".to_string());
    let mut d = GenericMetadata::default();
    d.series_name = Some("Saga".to_string());
    d.publisher = Some("Image Comics".to_string());
    d.year_began = Some(2012);
    let mut prov = ProvenanceMap::new();
    prov.insert("year_began".to_string(), "user".to_string());
    let mut out = ApplyOutcome::default();
    let up = plan_series_updates(&row, &d, &prov, &args(ApplyMode::FillMissing), &mut out);
    // The local name is blank, so the title is written.
    assert_eq!(up.name, Some("Saga".to_string()));
    assert_eq!(up.publisher, None);
    assert_eq!(up.year, None);
    assert_eq!(up.aliases, None);
    assert_eq!(out.applied_fields, vec!["title".to_string()]);
    assert_eq!(out.skipped_fields, vec!["year_began".to_string(), "publisher".to_string()]);
}

#[test]
fn issue_plan_writes_offered_fields_in_walk_order() {
    let mut row = empty_issue_row();
    row.page_count = Some(22);
    let mut d = GenericMetadata::default();
    d.title = Some("Chapter One".to_string());
    d.issue_number = Some("1".to_string());
    d.cover_date = Some(CalendarDate { year: 2012, month: 3, day: 14 });
    d.page_count = Some(44);
    let mut out = ApplyOutcome::default();
    let up = plan_issue_updates(&row, &d, &ProvenanceMap::new(), &args(ApplyMode::FillMissing), &mut out);
    assert_eq!(up.title, Some("Chapter One".to_string()));
    assert_eq!(up.number_raw, Some("1".to_string()));
    assert_eq!(up.cover_date, Some(CalendarDate { year: 2012, month: 3, day: 14 }));
    assert_eq!(up.page_count, None);
    assert!(!up.is_noop());
    assert_eq!(
        out.applied_fields,
        vec!["title".to_string(), "format".to_string(), "cover_date".to_string()]
    );
    assert_eq!(out.skipped_fields, vec!["page_count".to_string()]);
}

#[test]
fn junction_plan_touches_offered_sets() {
    let mut row = empty_issue_row();
    row.teams = Some("X-Men".to_string());
    let mut d = GenericMetadata::default();
    d.credits = vec![CreditCandidate {
        name: "Brian K. Vaughan".to_string(),
        role: "writer".to_string(),
        ordinal: None,
        identifiers: Vec::new(),
    }];
    d.characters = vec![entity("Alana")];
    d.teams = vec![entity("The Will")];
    let mut out = ApplyOutcome::default();
    let written = plan_issue_junctions(&row, &d, &ProvenanceMap::new(), &args(ApplyMode::FillMissing), &mut out);
    assert_eq!(written, vec![MetadataField::Credits, MetadataField::Characters]);
    assert_eq!(out.junctions_touched, vec!["credits".to_string(), "characters".to_string()]);
    assert_eq!(out.skipped_fields, vec!["teams".to_string()]);
}

#[test]
fn cover_is_fetched_only_when_requested() {
    let mut d = GenericMetadata::default();
    d.cover_image_url = Some("https://x/cover.jpg".to_string());
    let mut a = args(ApplyMode::FillMissing);
    assert_eq!(cover_to_fetch(&a, &d), None);
    a.apply_cover = true;
    assert_eq!(cover_to_fetch(&a, &d), Some("https://x/cover.jpg".to_string()));
    // A selection that leaves out the primary cover keeps it unfetched.
    a.selected_fields = Some(vec!["title".to_string()]);
    assert_eq!(cover_to_fetch(&a, &d), None);
    a.selected_fields = Some(vec!["cover.primary".to_string()]);
    assert_eq!(cover_to_fetch(&a, &d), Some("https://x/cover.jpg".to_string()));
}

#[test]
fn identifier_for_finds_first_of_source() {
    let ids = vec![
        Identifier::new(Source::Metron, "9"),
        Identifier::new(Source::ComicVine, "4000-1"),
        Identifier::new(Source::ComicVine, "4000-2"),
    ];
    assert_eq!(identifier_for(&ids, Source::ComicVine).map(|i| i.id), Some("4000-1".to_string()));
    assert_eq!(identifier_for(&ids, Source::Gcd), None);
}

#[test]
fn cover_attempts_are_recorded() {
    let mut out = ApplyOutcome::default();
    record_cover_attempt(&mut out, CoverAttempt::PolicyDenied);
    assert_eq!(out.cover_skipped_reason, Some("policy_denied".to_string()));
    record_cover_attempt(&mut out, CoverAttempt::FetchFailed("timeout".to_string()));
    assert_eq!(out.cover_skipped_reason, Some("fetch_failed: timeout".to_string()));
    record_cover_attempt(&mut out, CoverAttempt::WriteFailed("disk full".to_string()));
    assert_eq!(out.cover_skipped_reason, Some("write_failed: disk full".to_string()));
    assert!(!out.cover_replaced);
    record_cover_attempt(&mut out, CoverAttempt::Written);
    assert!(out.cover_replaced);
    assert_eq!(out.applied_fields, vec!["cover.primary".to_string()]);
}

#[test]
fn variants_need_offers_and_selection() {
    let mut d = GenericMetadata::default();
    let mut a = args(ApplyMode::FillMissing);
    let prov = ProvenanceMap::new();
    assert!(!variants_to_write(&a, &d, &prov, false));
    d.variants = vec![VariantCoverCandidate {
        label: Some("B".to_string()),
        artist_name: None,
        identifiers: Vec::new(),
        image_url: Some("https://x/b.jpg".to_string()),
    }];
    assert!(variants_to_write(&a, &d, &prov, false));
    a.selected_fields = Some(vec!["title".to_string()]);
    assert!(!variants_to_write(&a, &d, &prov, false));
    a.selected_fields = Some(vec!["cover.variants".to_string()]);
    assert!(variants_to_write(&a, &d, &prov, false));
}

#[test]
fn variants_follow_the_decision_matrix() {
    let mut d = GenericMetadata::default();
    d.variants = vec![VariantCoverCandidate {
        label: None,
        artist_name: None,
        identifiers: Vec::new(),
        image_url: Some("https://x/b.jpg".to_string()),
    }];
    let mut pinned = ProvenanceMap::new();
    pinned.insert("cover.variants".to_string(), "user".to_string());
    let mut a = args(ApplyMode::ReplaceAll);
    // A user pin keeps the stored variants unless the override is on.
    assert!(!variants_to_write(&a, &d, &pinned, true));
    assert!(!variants_to_write(&a, &d, &pinned, false));
    a.override_user_edits = true;
    assert!(variants_to_write(&a, &d, &pinned, true));
    // Fill-missing leaves existing variants alone.
    let fill = args(ApplyMode::FillMissing);
    let prov = ProvenanceMap::new();
    assert!(!variants_to_write(&fill, &d, &prov, true));
    assert!(variants_to_write(&args(ApplyMode::ReplaceAll), &d, &prov, true));
}

#[test]
fn external_id_results_are_recorded() {
    let mut out = ApplyOutcome::default();
    let id = Identifier::new(Source::ComicVine, "4000-7");
    record_external_id(&mut out, &id, ExternalIdWrite::Written);
    assert_eq!(out.external_ids_added.len(), 1);
    assert_eq!(out.external_ids_added[0].source, "comicvine");
    record_external_id(&mut out, &id, ExternalIdWrite::SkippedConflict { owner: "Saga #2".to_string() });
    assert_eq!(out.external_ids_skipped[0].reason, "already assigned to another item (Saga #2)");
    record_external_id(&mut out, &id, ExternalIdWrite::Failed("db down".to_string()));
    assert_eq!(out.external_ids_skipped[1].reason, "db down");
    assert_eq!(out.external_ids_added.len(), 1);
}

#[test]
fn run_counts_bump_applied_or_skipped() {
    let mut out = ApplyOutcome::default();
    assert_eq!(bump_run_counts(3, 4, &out), (3, 5));
    out.variants_written = 2;
    assert_eq!(bump_run_counts(3, 4, &out), (4, 4));
}

#[test]
fn provenance_rows_skip_junctions_covers_and_unknown_keys() {
    let applied = vec![
        "title".to_string(),
        "credits".to_string(),
        "cover.primary".to_string(),
        "bogus".to_string(),
        "page_count".to_string(),
    ];
    let src = ProvSource { set_by: SetBy::Provider(Source::Metron), source_ext: Some("77".to_string()) };
    let rows = provenance_writes(&applied, &ProvResolver::Uniform(src));
    assert_eq!(rows.len(), 2);
    assert_eq!(rows[0].0, MetadataField::Title);
    assert_eq!(rows[1].0, MetadataField::PageCount);
    assert_eq!(rows[1].1.source_ext, Some("77".to_string()));

    let map = vec![(
        "title".to_string(),
        ProvSource { set_by: SetBy::Provider(Source::ComicVine), source_ext: None },
    )];
    let fallback = ProvSource { set_by: SetBy::Provider(Source::Metron), source_ext: None };
    let rows = provenance_writes(&applied, &ProvResolver::PerField { map: &map, fallback });
    assert_eq!(rows[0].1.set_by, SetBy::Provider(Source::ComicVine));
    assert_eq!(rows[1].1.set_by, SetBy::Provider(Source::Metron));
}

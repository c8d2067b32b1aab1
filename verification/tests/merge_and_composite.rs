use folio_metadata::apply::{ApplyArgs, ApplyMode, ProvenanceMap, SeriesRow};
use folio_metadata::composite::{
    build_merged_detail, composite_changes, composite_rows, count_string, cover_source,
    default_best_per_provider, field_sources_from_choices, label_for, pick_candidates,
    issue_column_title, pick_included, primary_ordinal, primary_source, series_current, union_identifiers,
    FieldSources, RunCandidate,
};
use folio_metadata::diff::ProvenanceDetail;
use folio_metadata::field::MetadataField;
use folio_metadata::identifier::{Identifier, Source};
use folio_metadata::merge::{
    build_default_merge, choose_field_candidate, chosen_value_of, field_value_as_string, FieldChoice, MergePolicyConfig, MergeScope,
    ProviderDetail,
};
use folio_metadata::provider::{CalendarDate, CreditCandidate, EntityCandidate, GenericMetadata};
use folio_metadata::writers::{CoverOverwritePolicy, SetBy};

fn detail() -> GenericMetadata {
    GenericMetadata::default()
}

fn pd(source: Source, ordinal: i32, detail: GenericMetadata) -> ProviderDetail {
    ProviderDetail { source, external_id: ordinal.to_string(), ordinal, detail }
}

fn policy(order: &[Source]) -> MergePolicyConfig {
    MergePolicyConfig { provider_preference: order.to_vec() }
}

fn entity(name: &str) -> EntityCandidate {
    EntityCandidate {
        name: name.into(),
        identifiers: vec![],
        is_first_appearance: false,
        died_in_issue: None,
        disbanded_in_issue: None,
        position_in_arc: None,
    }
}

#[test]
fn scalar_non_null_wins_over_null() {
    let mut cv = detail();
    cv.title = Some("Saga".into());
    let metron = detail();
    let details = vec![pd(Source::Metron, 20, metron), pd(Source::ComicVine, 10, cv)];
    let pref = policy(&[Source::Metron, Source::ComicVine]);
    assert_eq!(choose_field_candidate(MetadataField::Title, &details, &pref, MergeScope::Issue), Some(10));
}

#[test]
fn scalar_preference_breaks_tie_when_both_present() {
    let mut cv = detail();
    cv.title = Some("Saga (CV)".into());
    let mut metron = detail();
    metron.title = Some("Saga (Metron)".into());
    let details = vec![pd(Source::ComicVine, 10, cv), pd(Source::Metron, 20, metron)];
    let pref = policy(&[Source::Metron, Source::ComicVine]);
    assert_eq!(choose_field_candidate(MetadataField::Title, &details, &pref, MergeScope::Issue), Some(20));
}

#[test]
fn junction_richer_set_wins() {
    let mut cv = detail();
    cv.characters = vec![entity("Hazel")];
    let mut metron = detail();
    metron.characters = vec![entity("Hazel"), entity("Marko"), entity("Alana")];
    let details = vec![pd(Source::ComicVine, 10, cv), pd(Source::Metron, 20, metron)];
    let pref = policy(&[Source::ComicVine, Source::Metron]);
    assert_eq!(choose_field_candidate(MetadataField::Characters, &details, &pref, MergeScope::Issue), Some(20));
}

fn credit(name: &str, role: &str) -> CreditCandidate {
    CreditCandidate { name: name.into(), role: role.into(), ordinal: None, identifiers: vec![] }
}

#[test]
fn junction_equal_size_breaks_by_preference() {
    let mut cv = detail();
    cv.credits = vec![credit("A", "Writer")];
    let mut metron = detail();
    metron.credits = vec![credit("B", "Writer")];
    let details = vec![pd(Source::ComicVine, 10, cv), pd(Source::Metron, 20, metron)];
    let pref = policy(&[Source::Metron, Source::ComicVine]);
    assert_eq!(choose_field_candidate(MetadataField::Credits, &details, &pref, MergeScope::Issue), Some(20));
}

#[test]
fn two_candidates_same_provider_richest_wins() {
    let mut metron_a = detail();
    metron_a.characters = vec![entity("Hazel")];
    let mut metron_b = detail();
    metron_b.characters = vec![entity("Hazel"), entity("Marko"), entity("Alana")];
    let mut cv = detail();
    cv.characters = vec![entity("Hazel"), entity("Marko")];
    let details = vec![
        pd(Source::Metron, 20, metron_a),
        pd(Source::Metron, 21, metron_b),
        pd(Source::ComicVine, 10, cv),
    ];
    let pref = policy(&[Source::Metron, Source::ComicVine]);
    assert_eq!(choose_field_candidate(MetadataField::Characters, &details, &pref, MergeScope::Issue), Some(21));
}

#[test]
fn cover_present_beats_absent() {
    let mut cv = detail();
    cv.cover_image_url = Some("https://cdn/cv.jpg".into());
    let metron = detail();
    let details = vec![pd(Source::Metron, 20, metron), pd(Source::ComicVine, 10, cv)];
    let pref = policy(&[Source::Metron, Source::ComicVine]);
    assert_eq!(choose_field_candidate(MetadataField::CoverPrimary, &details, &pref, MergeScope::Issue), Some(10));
}

#[test]
fn empty_details_yield_none() {
    let details: Vec<ProviderDetail> = vec![];
    let pref = policy(&[Source::Metron]);
    assert_eq!(choose_field_candidate(MetadataField::Title, &details, &pref, MergeScope::Issue), None);
}

#[test]
fn external_id_is_never_chosen() {
    let mut cv = detail();
    cv.title = Some("x".into());
    let details = vec![pd(Source::ComicVine, 10, cv)];
    let pref = policy(&[Source::ComicVine]);
    assert_eq!(
        choose_field_candidate(MetadataField::ExternalId(Source::ComicVine), &details, &pref, MergeScope::Issue),
        None
    );
}

fn saga_pair() -> Vec<ProviderDetail> {
    let mut cv = detail();
    cv.title = Some("Saga".into());
    cv.description = Some("A space opera.".into());
    cv.source_external_id = Some("cv-10".into());
    cv.identifiers = vec![Identifier::new(Source::ComicVine, "10"), Identifier::new(Source::Upc, "111")];
    let mut metron = detail();
    metron.title = Some("Saga".into());
    metron.characters = vec![entity("Hazel"), entity("Marko")];
    metron.source_external_id = Some("m-20".into());
    metron.identifiers = vec![Identifier::new(Source::Metron, "20"), Identifier::new(Source::Upc, "222")];
    vec![pd(Source::ComicVine, 10, cv), pd(Source::Metron, 20, metron)]
}

#[test]
fn build_default_merge_picks_best_of_both() {
    let details = saga_pair();
    let pref = policy(&[Source::Metron, Source::ComicVine]);
    let merged = build_default_merge(&details, &pref, MergeScope::Issue);
    let by_field = |f: MetadataField| merged.iter().find(|c| c.field == f).unwrap().ordinal;
    assert_eq!(by_field(MetadataField::Description), Some(10));
    assert_eq!(by_field(MetadataField::Characters), Some(20));
    assert_eq!(by_field(MetadataField::Title), Some(20));
    assert_eq!(by_field(MetadataField::PageCount), None);
}

#[test]
fn field_sources_keeps_only_filled_fields() {
    let choices = vec![
        FieldChoice { field: MetadataField::Title, ordinal: Some(0), value: Some("X".into()) },
        FieldChoice { field: MetadataField::Deck, ordinal: None, value: None },
        FieldChoice { field: MetadataField::CoverPrimary, ordinal: Some(1), value: Some("https://cv/cover.jpg".into()) },
    ];
    let map = field_sources_from_choices(choices);
    assert_eq!(map.len(), 2, "only the two filled fields survive");
    assert!(!map.is_empty(), "non-empty guards against a no-op apply");
    assert_eq!(map.get(&MetadataField::Title.key()), Some(0));
    assert_eq!(map.get(&MetadataField::CoverPrimary.key()), Some(1));
    assert_eq!(map.get(&MetadataField::Deck.key()), None);
}

#[test]
fn field_sources_empty_when_no_choices_filled() {
    let choices = vec![FieldChoice { field: MetadataField::Title, ordinal: None, value: None }];
    assert!(field_sources_from_choices(choices).is_empty());
}

#[test]
fn field_sources_insert_replaces_earlier_source() {
    let mut fs = FieldSources::new();
    fs.insert("title".into(), 1);
    fs.insert("deck".into(), 2);
    fs.insert("title".into(), 3);
    assert_eq!(fs.len(), 2);
    assert_eq!(fs.get("title"), Some(3));
    assert_eq!(fs.get("deck"), Some(2));
    assert_eq!(fs.get("notes"), None);
}

#[test]
fn default_best_per_provider_takes_first_of_each() {
    assert_eq!(default_best_per_provider(&run_candidates()), vec![0, 1]);
}

fn rc(source: &str, ordinal: i32) -> RunCandidate {
    RunCandidate { source: source.into(), ordinal, external_id: format!("x{ordinal}") }
}

fn run_candidates() -> Vec<RunCandidate> {
    vec![rc("metron", 0), rc("comicvine", 1), rc("metron", 2), rc("banana", 3), rc("CV", 4)]
}

#[test]
fn pick_candidates_orders_by_preference_then_ordinal() {
    let cands = run_candidates();
    let pref = policy(&[Source::ComicVine, Source::Metron]);
    let picked = pick_candidates(&cands, &vec![4, 2, 0, 3], &pref);
    let got: Vec<(Source, i32)> = picked.iter().map(|p| (p.source, p.ordinal)).collect();
    assert_eq!(got, vec![(Source::ComicVine, 4), (Source::Metron, 0), (Source::Metron, 2)]);
    let defaults = pick_candidates(&cands, &vec![], &pref);
    let got: Vec<i32> = defaults.iter().map(|p| p.ordinal).collect();
    assert_eq!(got, vec![1, 0]);
}

#[test]
fn composite_apply_picks_primary_and_cover_source() {
    let cands = run_candidates();
    let picked = pick_included(&cands, &vec![2, 1, 3, 9]);
    let got: Vec<(Source, i32)> = picked.iter().map(|p| (p.source, p.ordinal)).collect();
    assert_eq!(got, vec![(Source::Metron, 2), (Source::ComicVine, 1)]);
    assert_eq!(primary_ordinal(&picked, Source::ComicVine), 1);
    assert_eq!(primary_ordinal(&picked, Source::Gcd), 0);
    let details = saga_pair();
    assert_eq!(primary_source(None, &details), Source::ComicVine);
    assert_eq!(primary_source(Some(Source::Metron), &details), Source::Metron);
    let mut fs = FieldSources::new();
    assert_eq!(cover_source(&fs, &details, Source::Gcd), Source::Gcd);
    fs.insert(MetadataField::CoverPrimary.key(), 20);
    assert_eq!(cover_source(&fs, &details, Source::Gcd), Source::Metron);
    let keys = fs.key_list();
    assert_eq!(keys, vec!["cover.primary".to_string()]);
}

#[test]
fn union_identifiers_keeps_first_per_source() {
    let u = union_identifiers(&saga_pair());
    let got: Vec<(Source, &str)> = u.iter().map(|i| (i.source, i.id.as_str())).collect();
    assert_eq!(got, vec![(Source::ComicVine, "10"), (Source::Upc, "111"), (Source::Metron, "20")]);
}

#[test]
fn merged_detail_takes_each_field_from_its_source() {
    let details = saga_pair();
    let mut fs = FieldSources::new();
    fs.insert(MetadataField::Description.key(), 10);
    fs.insert(MetadataField::Characters.key(), 20);
    fs.insert(MetadataField::SortName.key(), 10);
    fs.insert(MetadataField::Title.key(), 99);
    let (m, prov) = build_merged_detail(&details, &fs, MergeScope::Issue, &vec![Source::Metron, Source::ComicVine]);
    assert_eq!(m.description.as_deref(), Some("A space opera."));
    assert_eq!(m.characters.len(), 2);
    assert!(m.title.is_none(), "an ordinal no candidate has leaves the field empty");
    assert!(m.series_sort_name.is_none(), "sort name is not an issue field");
    assert_eq!(m.identifiers.len(), 3);
    assert_eq!(m.source_provider, Some(Source::Metron));
    let keys: Vec<&str> = prov.iter().map(|(k, _)| k.as_str()).collect();
    assert_eq!(keys, vec!["description", "characters"]);
    assert_eq!(prov[0].1.set_by, SetBy::Provider(Source::ComicVine));
    assert_eq!(prov[1].1.source_ext.as_deref(), Some("m-20"));
}

#[test]
fn composite_preview_rows_and_changes() {
    let details = saga_pair();
    let pref = policy(&[Source::Metron, Source::ComicVine]);
    let row = SeriesRow {
        name: "Saga".into(),
        sort_name: None,
        series_type: None,
        year: Some(2012),
        year_end: None,
        volume: None,
        publisher: Some(" Image ".into()),
        imprint: None,
        deck: None,
        summary: None,
        aliases: None,
    };
    let fields = folio_metadata::merge::scope_fields(MergeScope::Series);
    let currents: Vec<Option<String>> = fields.iter().map(|f| series_current(&row, *f)).collect();
    assert_eq!(currents[0].as_deref(), Some("Saga"));
    assert_eq!(currents[3].as_deref(), Some("2012"));
    assert_eq!(currents[6].as_deref(), Some("Image"));
    let args = ApplyArgs {
        run_id: 1,
        ordinal: 0,
        mode: ApplyMode::ReplaceAll,
        apply_cover: false,
        cover_overwrite_policy: CoverOverwritePolicy::WhenMissing,
        override_user_edits: false,
        actor_id: None,
        selected_fields: None,
        override_external_id_sources: Vec::new(),
    };
    let full = vec![(
        "title".to_string(),
        ProvenanceDetail { set_by: "user".into(), set_at: "2024-01-01T00:00:00+00:00".into() },
    )];
    let rows = composite_rows(MergeScope::Series, &currents, &details, &pref, &ProvenanceMap::new(), &full, &args);
    assert_eq!(rows.len(), fields.len());
    assert_eq!(rows[0].label, "Title");
    assert_eq!(rows[0].current_set_by.as_deref(), Some("user"));
    assert_eq!(rows[0].proposals.len(), 2);
    assert_eq!(rows[9].field, "description");
    assert_eq!(rows[9].chosen_ordinal, Some(10));
    assert_eq!(rows[9].decision, "would_fill");
    assert_eq!(rows[0].decision, "no_incoming_value");
    assert_eq!(composite_changes(&rows, 1, 2), 4);
}

#[test]
fn preview_labels_and_counts() {
    assert_eq!(label_for(MetadataField::CoverVariants), "Variant covers");
    assert_eq!(label_for(MetadataField::Notes), "Field");
    assert_eq!(count_string(0), None);
    assert_eq!(count_string(1).as_deref(), Some("1 item"));
    assert_eq!(count_string(12).as_deref(), Some("12 items"));
}

#[test]
fn issue_column_title_prefers_series_and_number() {
    let s = Some("Saga".to_string());
    let n = Some("12".to_string());
    let name = Some("The War for Phang".to_string());
    assert_eq!(issue_column_title(&s, &n, &name), Some("Saga #12".to_string()));
    assert_eq!(issue_column_title(&s, &None, &name), Some("Saga".to_string()));
    assert_eq!(issue_column_title(&None, &n, &name), Some("#12".to_string()));
    assert_eq!(issue_column_title(&None, &None, &name), name);
    assert_eq!(issue_column_title(&None, &None, &None), None);
}

#[test]
fn cover_dates_print_as_chrono_does() {
    let mut d = GenericMetadata::default();
    d.cover_date = Some(CalendarDate { year: 2012, month: 3, day: 4 });
    assert_eq!(
        field_value_as_string(&d, MetadataField::CoverDate, MergeScope::Issue),
        Some("2012-03-04".to_string())
    );
    d.cover_date = Some(CalendarDate { year: 999, month: 12, day: 31 });
    assert_eq!(
        field_value_as_string(&d, MetadataField::CoverDate, MergeScope::Issue),
        Some("0999-12-31".to_string())
    );
    d.cover_date = Some(CalendarDate { year: 10000, month: 1, day: 1 });
    assert_eq!(
        field_value_as_string(&d, MetadataField::CoverDate, MergeScope::Issue),
        Some("+10000-01-01".to_string())
    );
    d.cover_date = Some(CalendarDate { year: -1, month: 1, day: 1 });
    assert_eq!(
        field_value_as_string(&d, MetadataField::CoverDate, MergeScope::Issue),
        Some("-0001-01-01".to_string())
    );
}

#[test]
fn merged_values_are_the_chosen_values() {
    let details = saga_pair();
    let mut fs = FieldSources::new();
    fs.insert(MetadataField::Description.key(), 10);
    fs.insert(MetadataField::Characters.key(), 20);
    fs.insert(MetadataField::Title.key(), 99);
    let (m, _) = build_merged_detail(&details, &fs, MergeScope::Issue, &vec![Source::Metron]);
    for (f, o) in [
        (MetadataField::Description, Some(10)),
        (MetadataField::Characters, Some(20)),
        (MetadataField::Title, Some(99)),
        (MetadataField::Deck, None),
    ] {
        assert_eq!(
            field_value_as_string(&m, f, MergeScope::Issue),
            chosen_value_of(&details, o, f, MergeScope::Issue)
        );
    }
    assert_eq!(field_value_as_string(&m, MetadataField::Characters, MergeScope::Issue), Some("2 items".to_string()));
}

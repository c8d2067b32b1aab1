use folio_metadata::apply::{classify_field, ApplyArgs, ApplyMode, DiffDecision, ProvenanceMap};
use folio_metadata::completeness::{
    assess_issue, assess_series, issue_metadata_satisfied_sql, non_empty, plausible_year,
    CompletenessTier,
    IssueCompletenessInput, SeriesCompletenessInput, EXTERNAL_ID_KEY,
};
use folio_metadata::drift::{drift_summary, pin_drifted};
use folio_metadata::field::MetadataField;
use folio_metadata::identifier::Source;
use folio_metadata::metron::{
    issue_detail_to_metadata, parse_metron_timestamp, series_detail_to_metadata, MCredit,
    MIssueDetail, MIssueSeriesRef, MNamedRef, MSeriesDetail,
};
use folio_metadata::middleware::nonce::{fresh_nonce, nonce_of};
use folio_metadata::middleware::rate_limit::{envelope_for_outcome, sends_retry_after, LimiterOutcome};
use folio_metadata::middleware::security_headers::{
    build_csp, path_needs_no_referrer, referrer_policy, CspTemplate,
};
use folio_metadata::phash::{cover_page, BackfillOutcome, BackfillRowResult};
use folio_metadata::provider::{CalendarDate, CreditCandidate, EntityCandidate, GenericMetadata};
use folio_metadata::range_map::{fold_targets, ProviderRange, SeriesExternalId};
use folio_metadata::sidecar_compose::{
    compose_comicinfo, compose_metroninfo, enumerate_suppressed_pins, ComposeContext,
    ComposeIssue, ComposeSeries,
};
use folio_metadata::writers::{CoverOverwritePolicy, CsvRebuildBatch};

// ───────── completeness ─────────

fn full_issue() -> IssueCompletenessInput {
    IssueCompletenessInput {
        has_external_id: true,
        has_title: true,
        has_cover_date: true,
        has_summary: true,
        has_page_count: true,
        has_credits: true,
        has_cover: true,
        has_characters: true,
        has_story_arcs: true,
        has_genres: true,
    }
}

#[test]
fn fully_populated_issue_is_complete() {
    let r = assess_issue(&full_issue());
    assert_eq!(r.tier, CompletenessTier::Complete);
    assert_eq!(r.present_weight, r.total_weight);
    assert!(r.missing_core.is_empty());
    assert!(r.missing_recommended.is_empty());
}

#[test]
fn unmatched_issue_needs_metadata_even_if_fields_present() {
    let r = assess_issue(&IssueCompletenessInput {
        has_external_id: false,
        has_title: true,
        has_cover_date: true,
        has_summary: true,
        has_page_count: true,
        has_credits: true,
        has_cover: true,
        ..Default::default()
    });
    assert_eq!(r.tier, CompletenessTier::NeedsMetadata);
    assert_eq!(r.missing_core, vec![EXTERNAL_ID_KEY.to_owned()]);
}

#[test]
fn missing_title_alone_does_not_block_completeness() {
    let r = assess_issue(&IssueCompletenessInput {
        has_external_id: true,
        has_title: false,
        has_cover_date: true,
        has_summary: true,
        has_page_count: true,
        has_credits: true,
        has_cover: true,
        ..Default::default()
    });
    assert_eq!(r.tier, CompletenessTier::Complete);
    assert!(!r.missing_core.contains(&MetadataField::Title.key()));
    assert!(r.missing_recommended.contains(&MetadataField::Title.key()));
}

#[test]
fn matched_issue_with_small_gap_is_partial() {
    let r = assess_issue(&IssueCompletenessInput {
        has_external_id: true,
        has_title: true,
        has_cover_date: true,
        has_summary: false,
        has_page_count: true,
        has_credits: true,
        has_cover: true,
        ..Default::default()
    });
    assert_eq!(r.tier, CompletenessTier::Partial);
    assert_eq!(r.missing_core, vec![MetadataField::Summary.key()]);
    assert!(2 * r.present_weight > r.total_weight && r.present_weight < r.total_weight);
}

#[test]
fn matched_issue_with_majority_missing_needs_metadata() {
    let r = assess_issue(&IssueCompletenessInput { has_external_id: true, has_cover: true, ..Default::default() });
    assert_eq!(r.tier, CompletenessTier::NeedsMetadata);
}

#[test]
fn series_complete_and_needs_metadata() {
    let complete = assess_series(&SeriesCompletenessInput {
        has_external_id: true,
        has_summary: true,
        has_publisher: true,
        has_status: true,
        has_total_issues: true,
        has_year_began: true,
        has_genres: true,
    });
    assert_eq!(complete.tier, CompletenessTier::Complete);
    let bare = assess_series(&SeriesCompletenessInput::default());
    assert_eq!(bare.tier, CompletenessTier::NeedsMetadata);
    assert!(bare.missing_core.contains(&EXTERNAL_ID_KEY.to_owned()));
}

#[test]
fn helpers_validate_year_and_strings() {
    assert!(plausible_year(Some(1994)));
    assert!(!plausible_year(Some(1200)));
    assert!(!plausible_year(None));
    assert!(non_empty(Some("x")));
    assert!(!non_empty(Some("   ")));
    assert!(!non_empty(None));
}

#[test]
fn accepted_tier_unless_complete() {
    assert_eq!(CompletenessTier::Partial.with_acceptance(true), CompletenessTier::Accepted);
    assert_eq!(CompletenessTier::Complete.with_acceptance(true), CompletenessTier::Complete);
    assert_eq!(CompletenessTier::Partial.with_acceptance(false), CompletenessTier::Partial);
}

// ───────── preview decisions ─────────

fn make_args(mode: ApplyMode, override_user: bool) -> ApplyArgs {
    ApplyArgs {
        run_id: 0,
        ordinal: 0,
        mode,
        apply_cover: false,
        cover_overwrite_policy: CoverOverwritePolicy::WhenMissing,
        override_user_edits: override_user,
        actor_id: None,
        selected_fields: None,
        override_external_id_sources: Vec::new(),
    }
}

#[test]
fn classify_returns_would_fill_when_db_empty() {
    let provenance = ProvenanceMap::new();
    let d = classify_field(None, Some("Saga"), &provenance, MetadataField::Title, &make_args(ApplyMode::FillMissing, false));
    assert_eq!(d, DiffDecision::WouldFill);
    assert!(d.would_change());
}

#[test]
fn classify_blocks_user_set_unless_override() {
    let mut provenance = ProvenanceMap::new();
    provenance.insert("title".to_owned(), "user".to_owned());
    let d = classify_field(Some("My Title"), Some("Saga"), &provenance, MetadataField::Title, &make_args(ApplyMode::ReplaceAll, false));
    assert_eq!(d, DiffDecision::BlockedByUser);
    assert!(!d.would_change());
    let d2 = classify_field(Some("My Title"), Some("Saga"), &provenance, MetadataField::Title, &make_args(ApplyMode::ReplaceAll, true));
    assert_eq!(d2, DiffDecision::WouldReplace);
}

#[test]
fn classify_no_change_when_values_equal() {
    let provenance = ProvenanceMap::new();
    let d = classify_field(Some("Saga"), Some("Saga"), &provenance, MetadataField::Title, &make_args(ApplyMode::ReplaceAll, false));
    assert_eq!(d, DiffDecision::NoChange);
}

#[test]
fn classify_no_incoming_value() {
    let provenance = ProvenanceMap::new();
    let d = classify_field(Some("Saga"), None, &provenance, MetadataField::Title, &make_args(ApplyMode::ReplaceAll, false));
    assert_eq!(d, DiffDecision::NoIncomingValue);
}

#[test]
fn classify_skipped_fill_missing_when_db_has_other_value() {
    let provenance = ProvenanceMap::new();
    let d = classify_field(Some("Old"), Some("New"), &provenance, MetadataField::Title, &make_args(ApplyMode::FillMissing, false));
    assert_eq!(d, DiffDecision::SkippedFillMissingHasValue);
    assert!(!d.would_change());
}

// ───────── sidecar composition ─────────

fn make_series(name: &str) -> ComposeSeries {
    ComposeSeries {
        name: name.to_owned(),
        volume: Some(1),
        total_issues: Some(12),
        publisher: Some("Image Comics".to_owned()),
        imprint: None,
        series_group: None,
    }
}

fn make_issue(title: &str) -> ComposeIssue {
    ComposeIssue {
        title: Some(title.to_owned()),
        number_raw: Some("1".into()),
        year: Some(2020),
        month: Some(3),
        day: Some(15),
        language_code: Some("en".into()),
        black_and_white: Some(false),
        page_count: Some(20),
        ..Default::default()
    }
}

fn credit(name: &str, role: &str) -> CreditCandidate {
    CreditCandidate { name: name.into(), role: role.into(), ordinal: Some(0), identifiers: vec![] }
}

fn make_provider() -> GenericMetadata {
    let mut p = GenericMetadata::default();
    p.series_name = Some("Saga".into());
    p.series_type = Some("ongoing".into());
    p.volume = Some(1);
    p.year_began = Some(2012);
    p.issue_number = Some("1".into());
    p.publisher = Some("Image Comics".into());
    p.title = Some("The Boy from Mars".into());
    p.description = Some("An interplanetary love story.".into());
    p.cover_date = Some(CalendarDate { year: 2012, month: 3, day: 14 });
    p.credits = vec![credit("Brian K. Vaughan", "Writer"), credit("Fiona Staples", "Penciller")];
    p.characters = vec![EntityCandidate {
        name: "Alana".into(),
        identifiers: vec![],
        is_first_appearance: false,
        died_in_issue: None,
        disbanded_in_issue: None,
        position_in_arc: None,
    }];
    p.tags = vec!["science-fiction".into(), "romance".into()];
    p.page_count = Some(44);
    p.age_rating = Some("Mature 17+".into());
    p.source_provider = Some(Source::ComicVine);
    p.source_external_id = Some("4000-12345".into());
    p.source_url = Some("https://comicvine.gamespot.com/saga-1/4000-12345/".into());
    p
}

fn ids(pairs: &[(&str, &str)]) -> Vec<(String, String)> {
    pairs.iter().map(|(a, b)| (a.to_string(), b.to_string())).collect()
}

fn pins(keys: &[&str]) -> Vec<String> {
    keys.iter().map(|k| k.to_string()).collect()
}

#[test]
fn compose_comicinfo_uses_provider_when_no_pins() {
    let series = make_series("Saga");
    let issue = make_issue("Untitled");
    let provider = make_provider();
    let (e, p) = (ids(&[]), pins(&[]));
    let ctx = ComposeContext {
        provider: &provider,
        issue: &issue,
        series: &series,
        issue_external_ids: &e,
        series_external_ids: &e,
        issue_user_pins: &p,
        series_user_pins: &p,
    };
    let ci = compose_comicinfo(&ctx);
    assert_eq!(ci.title.as_deref(), Some("The Boy from Mars"));
    assert_eq!(ci.series.as_deref(), Some("Saga"));
    assert_eq!(ci.number.as_deref(), Some("1"));
    assert_eq!(ci.summary.as_deref(), Some("An interplanetary love story."));
    assert_eq!(ci.year, Some(2012));
    assert_eq!(ci.month, Some(3));
    assert_eq!(ci.day, Some(14));
    assert_eq!(ci.page_count, Some(44));
    assert_eq!(ci.publisher.as_deref(), Some("Image Comics"));
    assert_eq!(ci.writer.as_deref(), Some("Brian K. Vaughan"));
    assert_eq!(ci.penciller.as_deref(), Some("Fiona Staples"));
    assert_eq!(ci.characters.as_deref(), Some("Alana"));
    assert_eq!(ci.tags.as_deref(), Some("science-fiction, romance"));
    assert_eq!(ci.age_rating.as_deref(), Some("Mature 17+"));
}

#[test]
fn compose_comicinfo_preserves_user_pinned_title() {
    let series = make_series("Saga");
    let mut issue = make_issue("My Custom Title");
    let ipins = pins(&["title", "summary"]);
    issue.summary = Some("My own summary".into());
    let provider = make_provider();
    let (e, p) = (ids(&[]), pins(&[]));
    let ctx = ComposeContext {
        provider: &provider,
        issue: &issue,
        series: &series,
        issue_external_ids: &e,
        series_external_ids: &e,
        issue_user_pins: &ipins,
        series_user_pins: &p,
    };
    let ci = compose_comicinfo(&ctx);
    assert_eq!(ci.title.as_deref(), Some("My Custom Title"));
    assert_eq!(ci.summary.as_deref(), Some("My own summary"));
    assert_eq!(ci.year, Some(2012));
    assert_eq!(ci.writer.as_deref(), Some("Brian K. Vaughan"));
}

#[test]
fn compose_comicinfo_falls_back_to_db_when_provider_absent() {
    let series = make_series("Saga");
    let mut issue = make_issue("DB Title");
    issue.summary = Some("DB summary".into());
    let provider = GenericMetadata::default();
    let (e, p) = (ids(&[]), pins(&[]));
    let ctx = ComposeContext {
        provider: &provider,
        issue: &issue,
        series: &series,
        issue_external_ids: &e,
        series_external_ids: &e,
        issue_user_pins: &p,
        series_user_pins: &p,
    };
    let ci = compose_comicinfo(&ctx);
    assert_eq!(ci.title.as_deref(), Some("DB Title"));
    assert_eq!(ci.summary.as_deref(), Some("DB summary"));
    assert_eq!(ci.series.as_deref(), Some("Saga"));
}

#[test]
fn compose_appends_attribution_for_comicvine_source() {
    let series = make_series("Saga");
    let issue = make_issue("X");
    let provider = make_provider();
    let iids = ids(&[("comicvine", "12345")]);
    let (e, p) = (ids(&[]), pins(&[]));
    let ctx = ComposeContext {
        provider: &provider,
        issue: &issue,
        series: &series,
        issue_external_ids: &iids,
        series_external_ids: &e,
        issue_user_pins: &p,
        series_user_pins: &p,
    };
    let ci = compose_comicinfo(&ctx);
    let notes = ci.notes.expect("attribution emits Notes even when none existed");
    assert!(notes.contains("ComicVine (id=12345)"), "{notes}");
    assert!(notes.contains("CC-BY-NC-SA"), "{notes}");
    assert_eq!(notes, "Sources: ComicVine (id=12345) — CC-BY-NC-SA where applicable");
}

#[test]
fn compose_attribution_skipped_when_user_pinned_notes() {
    let series = make_series("Saga");
    let mut issue = make_issue("X");
    issue.notes = Some("Hand-curated notes — keep me intact.".into());
    let ipins = pins(&["notes"]);
    let provider = make_provider();
    let iids = ids(&[("comicvine", "12345")]);
    let (e, p) = (ids(&[]), pins(&[]));
    let ctx = ComposeContext {
        provider: &provider,
        issue: &issue,
        series: &series,
        issue_external_ids: &iids,
        series_external_ids: &e,
        issue_user_pins: &ipins,
        series_user_pins: &p,
    };
    let ci = compose_comicinfo(&ctx);
    assert_eq!(ci.notes.as_deref(), Some("Hand-curated notes — keep me intact."));
}

#[test]
fn compose_attribution_concatenates_with_existing_notes() {
    let series = make_series("Saga");
    let mut issue = make_issue("X");
    issue.notes = Some("Scanner identified file: saga-001.cbz.".into());
    let provider = make_provider();
    let iids = ids(&[("comicvine", "12345")]);
    let (e, p) = (ids(&[]), pins(&[]));
    let ctx = ComposeContext {
        provider: &provider,
        issue: &issue,
        series: &series,
        issue_external_ids: &iids,
        series_external_ids: &e,
        issue_user_pins: &p,
        series_user_pins: &p,
    };
    let ci = compose_comicinfo(&ctx);
    let notes = ci.notes.unwrap();
    assert!(notes.starts_with("Scanner identified file: saga-001.cbz."), "{notes}");
    assert!(notes.contains("CC-BY-NC-SA"), "{notes}");
    assert!(notes.contains("\n\nSources: "), "{notes}");
}

#[test]
fn compose_attribution_not_repeated() {
    let series = make_series("Saga");
    let mut issue = make_issue("X");
    issue.notes = Some("Old. Sources: Metron (id=7) — CC-BY-NC-SA where applicable".into());
    let mut provider = make_provider();
    provider.source_provider = Some(Source::Metron);
    let iids = ids(&[("metron", "7")]);
    let (e, p) = (ids(&[]), pins(&[]));
    let ctx = ComposeContext {
        provider: &provider,
        issue: &issue,
        series: &series,
        issue_external_ids: &iids,
        series_external_ids: &e,
        issue_user_pins: &p,
        series_user_pins: &p,
    };
    let ci = compose_comicinfo(&ctx);
    assert_eq!(ci.notes, issue.notes);
}

#[test]
fn compose_external_ids_round_trip() {
    let series = make_series("Saga");
    let issue = make_issue("X");
    let provider = make_provider();
    let iids = ids(&[("comicvine", "12345"), ("metron", "987"), ("gtin", "9781632154002")]);
    let sids = ids(&[("comicvine", "49901")]);
    let p = pins(&[]);
    let ctx = ComposeContext {
        provider: &provider,
        issue: &issue,
        series: &series,
        issue_external_ids: &iids,
        series_external_ids: &sids,
        issue_user_pins: &p,
        series_user_pins: &p,
    };
    let ci = compose_comicinfo(&ctx);
    assert_eq!(ci.comicvine_id, Some(12345));
    assert_eq!(ci.metron_id, Some(987));
    assert_eq!(ci.comicvine_series_id, Some(49901));
    assert_eq!(ci.gtin.as_deref(), Some("9781632154002"));
}

#[test]
fn compose_metroninfo_uses_provider_when_no_pins() {
    let series = make_series("Saga");
    let issue = make_issue("Untitled");
    let provider = make_provider();
    let (e, p) = (ids(&[]), pins(&[]));
    let ctx = ComposeContext {
        provider: &provider,
        issue: &issue,
        series: &series,
        issue_external_ids: &e,
        series_external_ids: &e,
        issue_user_pins: &p,
        series_user_pins: &p,
    };
    let mi = compose_metroninfo(&ctx);
    assert_eq!(mi.title.as_deref(), Some("The Boy from Mars"));
    assert_eq!(mi.series.as_deref(), Some("Saga"));
    let role = |r: &str| mi.credits.iter().find(|(k, _)| k == r).map(|(_, v)| v.clone());
    assert_eq!(role("Writer"), Some(vec!["Brian K. Vaughan".to_string()]));
    assert_eq!(role("Penciller"), Some(vec!["Fiona Staples".to_string()]));
    assert_eq!(mi.characters, vec!["Alana".to_string()]);
    assert_eq!(mi.tags, vec!["science-fiction".to_string(), "romance".into()]);
}

#[test]
fn compose_metroninfo_credits_pin_reads_from_db_columns() {
    let series = make_series("Saga");
    let mut issue = make_issue("X");
    issue.writer = Some("Hand-fixed Writer".into());
    issue.penciller = Some("Hand-fixed Penciller A, Hand-fixed Penciller B".into());
    let ipins = pins(&["credits"]);
    let provider = make_provider();
    let (e, p) = (ids(&[]), pins(&[]));
    let ctx = ComposeContext {
        provider: &provider,
        issue: &issue,
        series: &series,
        issue_external_ids: &e,
        series_external_ids: &e,
        issue_user_pins: &ipins,
        series_user_pins: &p,
    };
    let mi = compose_metroninfo(&ctx);
    let role = |r: &str| mi.credits.iter().find(|(k, _)| k == r).map(|(_, v)| v.clone());
    assert_eq!(role("Writer"), Some(vec!["Hand-fixed Writer".to_string()]));
    assert_eq!(
        role("Penciller"),
        Some(vec!["Hand-fixed Penciller A".to_string(), "Hand-fixed Penciller B".into()])
    );
    assert_eq!(mi.credits.len(), 2);
}

#[test]
fn compose_metroninfo_merges_series_ids_under_suffix() {
    let series = make_series("Saga");
    let issue = make_issue("X");
    let provider = make_provider();
    let iids = ids(&[("comicvine", "1"), ("metron_series", "kept")]);
    let sids = ids(&[("comicvine", "49901"), ("metron", "77")]);
    let p = pins(&[]);
    let ctx = ComposeContext {
        provider: &provider,
        issue: &issue,
        series: &series,
        issue_external_ids: &iids,
        series_external_ids: &sids,
        issue_user_pins: &p,
        series_user_pins: &p,
    };
    let mi = compose_metroninfo(&ctx);
    let get = |k: &str| mi.ids.iter().find(|(a, _)| a == k).map(|(_, b)| b.as_str());
    assert_eq!(get("comicvine"), Some("1"));
    assert_eq!(get("comicvine_series"), Some("49901"));
    assert_eq!(get("metron_series"), Some("kept"));
    assert_eq!(mi.ids.len(), 3);
}

#[test]
fn compose_user_pin_blocks_provider_override_on_credit() {
    let series = make_series("Saga");
    let mut issue = make_issue("X");
    issue.writer = Some("My Pinned Writer".into());
    let ipins = pins(&["writer"]);
    let provider = make_provider();
    let (e, p) = (ids(&[]), pins(&[]));
    let ctx = ComposeContext {
        provider: &provider,
        issue: &issue,
        series: &series,
        issue_external_ids: &e,
        series_external_ids: &e,
        issue_user_pins: &ipins,
        series_user_pins: &p,
    };
    let ci = compose_comicinfo(&ctx);
    assert_eq!(ci.writer.as_deref(), Some("My Pinned Writer"));
    assert_eq!(ci.penciller.as_deref(), Some("Fiona Staples"));
}

#[test]
fn compose_attribution_omitted_for_non_cv_metron_source() {
    let series = make_series("Saga");
    let issue = make_issue("X");
    let mut provider = make_provider();
    provider.source_provider = Some(Source::Gcd);
    provider.notes = None;
    let (e, p) = (ids(&[]), pins(&[]));
    let ctx = ComposeContext {
        provider: &provider,
        issue: &issue,
        series: &series,
        issue_external_ids: &e,
        series_external_ids: &e,
        issue_user_pins: &p,
        series_user_pins: &p,
    };
    let ci = compose_comicinfo(&ctx);
    assert!(ci.notes.is_none(), "GCD source must not emit CC-BY-NC-SA line");
}

#[test]
fn suppressed_pins_list_issue_then_series_keys() {
    let series = make_series("Saga");
    let issue = make_issue("X");
    let provider = make_provider();
    let e = ids(&[]);
    let ipins = pins(&["writer", "title", "unrelated"]);
    let spins = pins(&["volume"]);
    let ctx = ComposeContext {
        provider: &provider,
        issue: &issue,
        series: &series,
        issue_external_ids: &e,
        series_external_ids: &e,
        issue_user_pins: &ipins,
        series_user_pins: &spins,
    };
    assert_eq!(enumerate_suppressed_pins(&ctx), vec!["title", "writer", "volume"]);
}

// ───────── Metron ─────────

fn named(id: i64, name: &str) -> MNamedRef {
    MNamedRef { id: Some(id), name: Some(name.into()) }
}

#[test]
fn series_detail_promotes_cv_and_gcd_ids() {
    let detail = MSeriesDetail {
        id: Some(123),
        name: Some("Saga".into()),
        sort_name: Some("Saga".into()),
        volume: Some(1),
        series_type: Some(named(1, "Ongoing Series")),
        publisher: Some(named(5, "Image Comics")),
        imprint: None,
        year_began: Some(2012),
        year_end: None,
        desc: Some("Sci-fi epic.".into()),
        issue_count: Some(60),
        genres: vec![named(1, "Science-Fiction")],
        associated: vec![named(9, "Saga: Compendium")],
        cv_id: Some(12345),
        gcd_id: Some(98765),
        resource_url: Some("https://metron.cloud/series/saga-2012/".into()),
        modified: Some("2024-01-15T12:34:56.123456Z".into()),
    };
    let m = series_detail_to_metadata(detail);
    assert_eq!(m.series_name.as_deref(), Some("Saga"));
    assert_eq!(m.year_began, Some(2012));
    assert_eq!(m.publisher.as_deref(), Some("Image Comics"));
    assert_eq!(m.aliases, vec!["Saga: Compendium"]);
    assert_eq!(m.identifiers.len(), 3);
    let by_source = |s: Source| m.identifiers.iter().find(|i| i.source == s);
    assert_eq!(by_source(Source::Metron).map(|i| i.id.as_str()), Some("123"));
    assert_eq!(by_source(Source::ComicVine).map(|i| i.id.as_str()), Some("12345"));
    assert_eq!(by_source(Source::Gcd).map(|i| i.id.as_str()), Some("98765"));
    assert_eq!(m.upstream_modified_at_ms, Some(1_705_322_096_123));
}

#[test]
fn issue_detail_explodes_multi_role_credits_and_carries_barcodes() {
    let detail = MIssueDetail {
        id: Some(456),
        publisher: Some(named(5, "Image Comics")),
        imprint: None,
        series: Some(MIssueSeriesRef {
            id: Some(123),
            name: Some("Saga".into()),
            sort_name: Some("Saga".into()),
            volume: Some(1),
            year_began: Some(2012),
            series_type: Some(named(1, "Ongoing Series")),
        }),
        number: Some("1".into()),
        title: Some("Chapter One".into()),
        name: vec!["Chapter One".into()],
        cover_date: Some("2012-03-14".into()),
        store_date: Some("2012-03-14".into()),
        foc_date: None,
        price: Some("2.99".into()),
        rating: Some(named(1, "Teen Plus")),
        sku: Some("JAN120494".into()),
        isbn: Some("".into()),
        upc: Some("75960608437600111".into()),
        page: Some(36),
        desc: Some("Premiere issue.".into()),
        image: Some("https://static.metron.cloud/saga-1.jpg".into()),
        arcs: vec![named(10, "Beginning")],
        credits: vec![
            MCredit {
                creator: Some("Brian K. Vaughan".into()),
                creator_id: Some(7),
                role: vec![named(1, "Writer"), named(9, "Cover")],
            },
            MCredit { creator: Some("Fiona Staples".into()), creator_id: Some(8), role: vec![named(2, "Artist")] },
        ],
        characters: vec![named(100, "Hazel")],
        teams: vec![],
        universes: vec![],
        reprints: vec![],
        variants: vec![],
        cv_id: Some(67890),
        gcd_id: Some(11111),
        resource_url: Some("https://metron.cloud/issue/saga-1-2012/".into()),
        modified: Some("2024-02-20T08:00:00Z".into()),
    };
    let m = issue_detail_to_metadata(detail, Some(2.99f64.to_bits()));
    assert_eq!(m.issue_number.as_deref(), Some("1"));
    assert_eq!(m.title.as_deref(), Some("Chapter One"));
    assert_eq!(m.price_bits.map(f64::from_bits), Some(2.99));
    assert_eq!(m.page_count, Some(36));
    assert_eq!(m.age_rating.as_deref(), Some("Teen Plus"));
    assert_eq!(m.series_name.as_deref(), Some("Saga"));
    assert_eq!(m.volume, Some(1));
    assert_eq!(m.credits.len(), 3);
    assert!(m.credits.iter().any(|c| c.role == "Writer"));
    assert!(m.credits.iter().any(|c| c.role == "CoverArtist"));
    assert!(m.credits.iter().any(|c| c.role == "Penciller"));
    let ids: Vec<_> = m.identifiers.iter().map(|i| i.source).collect();
    assert!(ids.contains(&Source::Metron));
    assert!(ids.contains(&Source::ComicVine));
    assert!(ids.contains(&Source::Gcd));
    assert!(ids.contains(&Source::Upc));
    assert!(!ids.contains(&Source::Isbn));
    assert_eq!(m.characters.len(), 1);
    assert_eq!(m.story_arcs.len(), 1);
    assert_eq!(m.cover_date, Some(CalendarDate { year: 2012, month: 3, day: 14 }));
}

#[test]
fn parses_metron_rfc3339_timestamps() {
    let ts = parse_metron_timestamp(&Some("2024-01-15T12:34:56Z".into()));
    assert!(ts.is_some());
    assert!(parse_metron_timestamp(&Some("nonsense".into())).is_none());
    assert!(parse_metron_timestamp(&Some("  ".into())).is_none());
}

// ───────── range overrides ─────────

fn range(source: &str, id: &str, low: Option<&str>, high: Option<&str>, year: Option<i32>) -> ProviderRange {
    ProviderRange {
        source: source.into(),
        provider_series_id: id.into(),
        range_low: low.map(str::to_owned),
        range_high: high.map(str::to_owned),
        declared_year: year,
        provider_series_name: Some("Fantastic Four (2012)".into()),
        provider_series_url: Some("https://metron.cloud/series/fantastic-four-2012/".into()),
    }
}

fn ext(source: &str, id: &str) -> SeriesExternalId {
    SeriesExternalId {
        source: source.into(),
        external_id: id.into(),
        external_url: Some("https://comicvine.example/volume".into()),
    }
}

#[test]
fn range_wins_over_series_default() {
    let ranges = vec![range("metron", "2012-series", Some("600"), Some("611"), Some(2012))];
    let series = vec![ext("metron", "main-run"), ext("comicvine", "cv-volume")];
    // Issue #600 lies in [600, 611].
    let got = fold_targets(&ranges, &series, &vec![true]);
    let metron = got.iter().find(|t| t.source == Source::Metron).unwrap();
    assert_eq!(metron.provider_series_id, "2012-series");
    assert_eq!(metron.declared_year, Some(2012));
    assert!(metron.via_range);
    let cv = got.iter().find(|t| t.source == Source::ComicVine).unwrap();
    assert_eq!(cv.provider_series_id, "cv-volume");
    assert_eq!(cv.declared_year, None);
    assert!(!cv.via_range);
}

#[test]
fn outside_range_falls_back_to_series_default() {
    let ranges = vec![range("metron", "2012-series", Some("600"), Some("611"), Some(2012))];
    let series = vec![ext("metron", "main-run")];
    // Issue #5 is outside [600, 611].
    let got = fold_targets(&ranges, &series, &vec![false]);
    let metron = got.iter().find(|t| t.source == Source::Metron).unwrap();
    assert_eq!(metron.provider_series_id, "main-run");
    assert!(!metron.via_range);
}

#[test]
fn range_without_series_default_still_resolves_in_range() {
    let ranges = vec![range("gcd", "62349", Some("600"), Some("611"), Some(2012))];
    let series: Vec<SeriesExternalId> = vec![];
    let in_range = fold_targets(&ranges, &series, &vec![true]);
    assert_eq!(in_range.len(), 1);
    assert!(in_range[0].via_range);
    let outside = fold_targets(&ranges, &series, &vec![false]);
    assert!(outside.is_empty());
}

#[test]
fn fold_targets_orders_sources_by_first_mention() {
    let ranges = vec![range("gcd", "g", None, None, None), range("banana", "b", None, None, None)];
    let series = vec![ext("comicvine", "c"), ext("gcd", "g2")];
    let got = fold_targets(&ranges, &series, &vec![false, true]);
    let order: Vec<(Source, &str)> = got.iter().map(|t| (t.source, t.provider_series_id.as_str())).collect();
    assert_eq!(order, vec![(Source::Gcd, "g2"), (Source::ComicVine, "c")]);
}

// ───────── drift, backfill, batches ─────────

#[test]
fn drift_predicate_and_summary() {
    assert!(pin_drifted(10, None));
    assert!(pin_drifted(10, Some(5)));
    assert!(!pin_drifted(5, Some(10)));
    let none = drift_summary(Some((0, 0)), vec![1, 2]);
    assert!(none.is_empty());
    assert!(none.affected_series_ids.is_empty());
    let ids: Vec<u128> = (0..250).collect();
    let some = drift_summary(Some((7, 3)), ids);
    assert_eq!((some.drifted_issue_count, some.drifted_series_count), (7, 3));
    assert_eq!(some.affected_series_ids.len(), 200);
    assert!(drift_summary(None, vec![]).is_empty());
}

#[test]
fn backfill_tally_counts_each_row() {
    let results = vec![BackfillRowResult::Hashed, BackfillRowResult::Skipped, BackfillRowResult::Hashed, BackfillRowResult::Errored];
    let o = BackfillOutcome::tally(&results);
    assert_eq!((o.considered, o.hashed, o.skipped, o.errored), (4, 2, 1, 1));
    assert_eq!(cover_page(-3), 0);
    assert_eq!(cover_page(4), 4);
}

#[test]
fn csv_rebuild_batch_queues_each_issue_once() {
    let mut b = CsvRebuildBatch::new();
    assert!(b.is_empty());
    b.queue("a");
    b.queue("b");
    b.queue("a");
    let mut drained = b.drain();
    drained.sort();
    assert_eq!(drained, vec!["a".to_string(), "b".to_string()]);
    assert!(b.is_empty());
}

// ───────── middleware ─────────

#[test]
fn nonce_is_22_url_safe_chars() {
    let n = fresh_nonce();
    assert_eq!(n.0.len(), 22);
    assert!(n.0.chars().all(|c| c.is_ascii_alphanumeric() || c == '-' || c == '_'));
    assert_eq!(nonce_of(&[0u8; 16]).0, "AAAAAAAAAAAAAAAAAAAAAA");
    assert_eq!(nonce_of(&[0xffu8; 16]).0, "_____________________w");
    let counting: Vec<u8> = (0u8..16).collect();
    assert_eq!(nonce_of(&counting).0, "AAECAwQFBgcICQoLDA0ODw");
    let mixed = [251u8, 255, 191, 0, 1, 2, 3, 4, 5, 6, 7, 8, 9, 10, 11, 12];
    assert_eq!(nonce_of(&mixed).0, "-_-_AAECAwQFBgcICQoLDA");
}

#[test]
fn nonces_differ_between_calls() {
    assert_ne!(fresh_nonce().0, fresh_nonce().0);
}

#[test]
fn rate_limit_envelope_for_each_outcome() {
    let e = envelope_for_outcome("login", LimiterOutcome::TooManyRequests { wait_time: 12 });
    assert_eq!((e.status, e.code, e.message.as_str(), e.retry_after_seconds), (429, "rate_limited", "rate limit exceeded for login; retry in 12s", 12));
    let e = envelope_for_outcome("login", LimiterOutcome::UnableToExtractKey);
    assert_eq!((e.status, e.code), (500, "internal"));
    let e = envelope_for_outcome("login", LimiterOutcome::Other { code: 503, msg: None });
    assert_eq!((e.status, e.message.as_str()), (503, "rate limited"));
    assert!(sends_retry_after(1));
    assert!(!sends_retry_after(0));
}

#[test]
fn csp_with_nonce_and_oidc_origin() {
    let t = CspTemplate::new(Some("https://auth.example.com/realms/x"), "https://comics.example.com/");
    let csp = build_csp(&t, Some("abc"), false);
    assert!(csp.contains("script-src 'self' 'nonce-abc' 'strict-dynamic';"), "{csp}");
    assert!(csp.contains("connect-src 'self' https://auth.example.com wss://comics.example.com;"), "{csp}");
    assert!(csp.contains("require-trusted-types-for 'script'; "), "{csp}");
    let dev = build_csp(&t, None, true);
    assert!(dev.contains("script-src 'self' 'unsafe-inline' 'unsafe-eval';"), "{dev}");
    assert!(!dev.contains("require-trusted-types-for"), "{dev}");
}

#[test]
fn referrer_policy_for_auth_pages() {
    assert!(path_needs_no_referrer("/app/sign-in"));
    assert!(!path_needs_no_referrer("/app/library"));
    assert_eq!(referrer_policy(true), "no-referrer");
    assert_eq!(referrer_policy(false), "strict-origin-when-cross-origin");
}

#[test]
fn satisfied_sql_names_the_alias_everywhere() {
    let a = "i";
    let expected = format!(
        "{a}.metadata_review_accepted_at IS NOT NULL OR ( \
         {a}.year IS NOT NULL AND {a}.year >= 1800 \
         AND COALESCE(btrim({a}.summary), '') <> '' \
         AND {a}.page_count IS NOT NULL AND {a}.page_count > 0 \
         AND (COALESCE({a}.writer, '') <> '' OR COALESCE({a}.penciller, '') <> '' \
           OR COALESCE({a}.inker, '') <> '' OR COALESCE({a}.colorist, '') <> '' \
           OR COALESCE({a}.letterer, '') <> '' OR COALESCE({a}.cover_artist, '') <> '' \
           OR COALESCE({a}.editor, '') <> '' OR COALESCE({a}.translator, '') <> '') \
         AND EXISTS (SELECT 1 FROM external_ids x \
           WHERE x.entity_type = 'issue' AND x.entity_id = {a}.id \
           AND x.source IN ('comicvine', 'metron')))"
    );
    assert_eq!(issue_metadata_satisfied_sql(a), expected);
}

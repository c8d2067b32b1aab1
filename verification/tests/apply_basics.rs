use folio_metadata::apply::{
    classify_field, cover_ext_from_url, should_apply, ApplyArgs, ApplyMode, DiffDecision,
    ProvenanceMap,
};
use folio_metadata::auto_split::{contiguous_uncovered, LocalIssue};
use folio_metadata::cache::CacheEntity;
use folio_metadata::comicvine::{
    best_image_url, cv_issue_to_metadata, cv_volume_to_candidate, parse_date, split_aliases,
    CvImage, CvIssue, CvNamedRef, CvPersonCredit, CvVolume,
};
use folio_metadata::field::MetadataField;
use folio_metadata::identifier::Source;
use folio_metadata::provider::CalendarDate;
use folio_metadata::writers::CoverOverwritePolicy;

fn args(mode: ApplyMode, override_user: bool) -> ApplyArgs {
    ApplyArgs {
        run_id: 0,
        ordinal: 0,
        mode,
        apply_cover: false,
        cover_overwrite_policy: CoverOverwritePolicy::WhenMissing,
        override_user_edits: override_user,
        actor_id: None,
        selected_fields: None,
        override_external_id_sources: Vec::new(),
    }
}

#[test]
fn decision_matrix_empty_db_applies_under_both_modes() {
    let prov = ProvenanceMap::new();
    assert!(should_apply(false, &prov, MetadataField::Title, &args(ApplyMode::FillMissing, false)));
    assert!(should_apply(false, &prov, MetadataField::Title, &args(ApplyMode::ReplaceAll, false)));
}

#[test]
fn decision_matrix_user_set_is_sacred_unless_override() {
    let mut prov = ProvenanceMap::new();
    prov.insert(MetadataField::Title.key(), "user".to_string());
    assert!(!should_apply(false, &prov, MetadataField::Title, &args(ApplyMode::FillMissing, false)));
    assert!(!should_apply(false, &prov, MetadataField::Title, &args(ApplyMode::ReplaceAll, false)));
    assert!(should_apply(false, &prov, MetadataField::Title, &args(ApplyMode::FillMissing, true)));
    assert!(should_apply(true, &prov, MetadataField::Title, &args(ApplyMode::ReplaceAll, true)));
}

#[test]
fn decision_matrix_non_user_provenance_respects_mode() {
    let mut prov = ProvenanceMap::new();
    prov.insert(MetadataField::Title.key(), "comicinfo".to_string());
    assert!(!should_apply(true, &prov, MetadataField::Title, &args(ApplyMode::FillMissing, false)));
    assert!(should_apply(true, &prov, MetadataField::Title, &args(ApplyMode::ReplaceAll, false)));
}

#[test]
fn cover_ext_picks_extension() {
    assert_eq!(cover_ext_from_url("https://x/img.JPG"), Some("jpg"));
    assert_eq!(cover_ext_from_url("https://x/img.png"), Some("png"));
    assert_eq!(cover_ext_from_url("https://x/img.webp"), Some("webp"));
    assert_eq!(cover_ext_from_url("https://x/img"), None);
}

#[test]
fn cover_ext_reads_jpeg_and_gif() {
    assert_eq!(cover_ext_from_url("https://x/a.jpeg"), Some("jpg"));
    assert_eq!(cover_ext_from_url("https://x/a.GIF"), Some("gif"));
}

#[test]
fn classify_covers_each_decision() {
    let empty = ProvenanceMap::new();
    let fill = args(ApplyMode::FillMissing, false);
    let replace = args(ApplyMode::ReplaceAll, false);
    assert_eq!(classify_field(None, Some("New"), &empty, MetadataField::Title, &fill), DiffDecision::WouldFill);
    assert_eq!(classify_field(Some("  "), Some("New"), &empty, MetadataField::Title, &fill), DiffDecision::WouldFill);
    assert_eq!(classify_field(Some("Old"), Some("New"), &empty, MetadataField::Title, &replace), DiffDecision::WouldReplace);
    assert_eq!(classify_field(Some("Same"), Some(" Same "), &empty, MetadataField::Title, &replace), DiffDecision::NoChange);
    assert_eq!(classify_field(Some("Old"), Some("New"), &empty, MetadataField::Title, &fill), DiffDecision::SkippedFillMissingHasValue);
    assert_eq!(classify_field(Some("Old"), None, &empty, MetadataField::Title, &fill), DiffDecision::NoIncomingValue);
    let mut user = ProvenanceMap::new();
    user.insert(MetadataField::Title.key(), "user".to_string());
    assert_eq!(classify_field(Some("Old"), Some("New"), &user, MetadataField::Title, &replace), DiffDecision::BlockedByUser);
    assert_eq!(
        classify_field(Some("Old"), Some("New"), &user, MetadataField::Title, &args(ApplyMode::ReplaceAll, true)),
        DiffDecision::WouldReplace
    );
}

fn li(n: &str) -> LocalIssue {
    LocalIssue { canonical: n.to_owned(), year: None }
}

fn strings(v: &[&str]) -> Vec<String> {
    v.iter().map(|s| s.to_string()).collect()
}

#[test]
fn contiguous_uncovered_finds_the_tail_block() {
    let local = vec![li("1"), li("2"), li("3"), li("600"), li("601"), li("611")];
    let covered = strings(&["1", "2", "3"]);
    let runs = contiguous_uncovered(&local, &covered);
    assert_eq!(runs.len(), 1);
    assert_eq!(runs[0].first().unwrap().canonical, "600");
    assert_eq!(runs[0].last().unwrap().canonical, "611");
}

#[test]
fn contiguous_uncovered_splits_separate_blocks() {
    let local = vec![li("1"), li("50"), li("100"), li("200")];
    let covered = strings(&["1", "100"]);
    let runs = contiguous_uncovered(&local, &covered);
    assert_eq!(runs.len(), 2);
    assert_eq!(runs[0][0].canonical, "50");
    assert_eq!(runs[1][0].canonical, "200");
}

#[test]
fn no_gaps_when_all_covered() {
    let local = vec![li("1"), li("2")];
    let covered = strings(&["1", "2"]);
    assert!(contiguous_uncovered(&local, &covered).is_empty());
}

#[test]
fn uncovered_runs_hold_every_uncovered_issue_once() {
    let local = vec![li("1"), li("2"), li("3"), li("4"), li("5")];
    let covered = strings(&["3"]);
    let runs = contiguous_uncovered(&local, &covered);
    let flat: Vec<&str> = runs.iter().flat_map(|r| r.iter().map(|i| i.canonical.as_str())).collect();
    assert_eq!(flat, vec!["1", "2", "4", "5"]);
    assert_eq!(runs.len(), 2);
}

#[test]
fn default_ttls_match_plan() {
    let ttl = |e: CacheEntity| chrono::Duration::hours(e.default_ttl());
    assert_eq!(ttl(CacheEntity::Issue), chrono::Duration::hours(24));
    assert_eq!(ttl(CacheEntity::Series), chrono::Duration::hours(168));
    assert_eq!(ttl(CacheEntity::Publisher), chrono::Duration::hours(720));
    assert_eq!(ttl(CacheEntity::Character), chrono::Duration::hours(720));
}

#[test]
fn cache_entity_strings_are_snake_case() {
    assert_eq!(CacheEntity::StoryArc.as_str(), "story_arc");
    assert_eq!(CacheEntity::Person.as_str(), "person");
}

#[test]
fn parses_cv_dates() {
    assert_eq!(
        parse_date(&Some("2024-01-15".into())),
        Some(CalendarDate { year: 2024, month: 1, day: 15 }),
    );
    assert!(parse_date(&Some("not-a-date".into())).is_none());
    assert!(parse_date(&None).is_none());
    assert!(parse_date(&Some("".into())).is_none());
}

#[test]
fn parses_cv_dates_rejects_impossible_day() {
    assert!(parse_date(&Some("2023-02-29".into())).is_none());
    assert_eq!(
        parse_date(&Some(" 2024-02-29 ".into())),
        Some(CalendarDate { year: 2024, month: 2, day: 29 }),
    );
}

#[test]
fn parses_cv_aliases_newline_delimited() {
    let v = split_aliases(&Some("Spider-Man\nWebslinger\n  Wall-Crawler  ".into()));
    assert_eq!(v, vec!["Spider-Man", "Webslinger", "Wall-Crawler"]);
}

#[test]
fn picks_largest_image() {
    let img = Some(CvImage {
        icon_url: Some("icon".into()),
        medium_url: Some("medium".into()),
        screen_url: Some("screen".into()),
        super_url: Some("super".into()),
        original_url: Some("original".into()),
        thumb_url: Some("thumb".into()),
    });
    let (chosen, alts) = best_image_url(&img);
    assert_eq!(chosen.as_deref(), Some("super"));
    assert!(alts.contains(&"original".to_owned()));
    assert!(alts.contains(&"medium".to_owned()));
}

#[test]
fn falls_back_when_super_missing() {
    let img = Some(CvImage {
        icon_url: Some("icon".into()),
        medium_url: None,
        screen_url: None,
        super_url: None,
        original_url: Some("original".into()),
        thumb_url: None,
    });
    let (chosen, alts) = best_image_url(&img);
    assert_eq!(chosen.as_deref(), Some("original"));
    assert_eq!(alts, vec!["icon".to_owned()]);
}

fn saga_volume() -> CvVolume {
    CvVolume {
        id: Some(12345),
        name: Some("Saga".into()),
        start_year: Some("2012".into()),
        publisher: Some(CvNamedRef {
            id: Some(99),
            name: Some("Image Comics".into()),
            site_detail_url: None,
        }),
        deck: Some("Sci-fi epic".into()),
        description: None,
        image: None,
        count_of_issues: Some(60),
        site_detail_url: Some("https://comicvine.gamespot.com/volume/4050-12345/".into()),
        date_last_updated: Some("2024-01-15 12:34:56".into()),
        aliases: None,
    }
}

#[test]
fn maps_cv_volume_to_candidate() {
    let v = saga_volume();
    let c = cv_volume_to_candidate(&v).unwrap();
    assert_eq!(c.source, Source::ComicVine);
    assert_eq!(c.external_id, "12345");
    assert_eq!(c.name, "Saga");
    assert_eq!(c.year, Some(2012));
    assert_eq!(c.publisher.as_deref(), Some("Image Comics"));
    assert_eq!(c.issue_count, Some(60));
}

#[test]
fn cv_volume_metadata_carries_ids_and_timestamp() {
    let m = folio_metadata::comicvine::cv_volume_to_metadata(saga_volume());
    assert_eq!(m.series_name.as_deref(), Some("Saga"));
    assert_eq!(m.year_began, Some(2012));
    assert_eq!(m.identifiers.len(), 2);
    assert_eq!(m.identifiers[0].id, "12345");
    assert_eq!(m.identifiers[1].source, Source::ComicVine);
    assert_eq!(m.identifiers[1].id, "99");
    assert_eq!(m.source_external_id.as_deref(), Some("12345"));
    assert_eq!(m.upstream_modified_at_ms, Some(1_705_322_096_000));
    assert!(m.fetched_at_ms.is_some());
}

fn vaughan_issue() -> CvIssue {
    CvIssue {
        id: Some(1),
        name: None,
        issue_number: Some("1".into()),
        cover_date: None,
        store_date: None,
        deck: None,
        description: None,
        image: None,
        person_credits: Some(vec![CvPersonCredit {
            id: Some(7),
            name: Some("Brian K. Vaughan".into()),
            role: Some("writer, cover".into()),
            site_detail_url: None,
        }]),
        character_credits: None,
        team_credits: None,
        location_credits: None,
        concept_credits: None,
        object_credits: None,
        story_arc_credits: None,
        volume: None,
        site_detail_url: None,
        date_last_updated: None,
        aliases: None,
    }
}

#[test]
fn issue_metadata_explodes_multi_role_credits() {
    let m = cv_issue_to_metadata(vaughan_issue());
    assert_eq!(m.credits.len(), 2);
    assert!(m.credits.iter().any(|c| c.role == "writer"));
    assert!(m.credits.iter().any(|c| c.role == "cover"));
    assert!(m.credits.iter().all(|c| c.name == "Brian K. Vaughan"));
    assert!(m.credits.iter().all(|c| c.identifiers.len() == 1));
}

#[test]
fn cv_credit_without_role_is_unknown_and_blank_name_dropped() {
    let mut issue = vaughan_issue();
    issue.person_credits = Some(vec![
        CvPersonCredit { id: None, name: Some("A".into()), role: None, site_detail_url: None },
        CvPersonCredit { id: Some(3), name: Some("  ".into()), role: Some("writer".into()), site_detail_url: None },
        CvPersonCredit { id: None, name: Some("B".into()), role: Some(" Penciler , INKER".into()), site_detail_url: None },
    ]);
    let m = cv_issue_to_metadata(issue);
    let roles: Vec<(&str, &str)> = m.credits.iter().map(|c| (c.name.as_str(), c.role.as_str())).collect();
    assert_eq!(roles, vec![("A", "unknown"), ("B", "penciler"), ("B", "inker")]);
    assert!(m.credits[0].identifiers.is_empty());
}

use folio_metadata::auto_split::{
    alternate_from_candidate, alternate_search_query, contiguous_uncovered, gap_bounds,
    gaps_to_resolve, probe_order, record_gap, should_probe, start_detection, AltSeries,
    LocalIssue, ALTERNATE_SEARCH_LIMIT, MAX_DETAIL_PROBES,
};
use folio_metadata::identifier::Source;
use folio_metadata::matcher::Confidence;
use folio_metadata::orchestrator::{configured_providers, run_tally, ProviderSettings, RunTally};
use folio_metadata::provider::IssueCandidate;
use folio_metadata::rate_limit::{snapshot_of, BucketDef};

fn local(n: &str) -> LocalIssue {
    LocalIssue { canonical: n.to_owned(), year: None }
}

fn hit(series_id: Option<&str>) -> IssueCandidate {
    IssueCandidate {
        source: Source::Metron,
        external_id: "1".into(),
        external_url: None,
        issue_number: Some("600".into()),
        name: None,
        cover_date: None,
        series_name: Some("Amazing Spider-Man".into()),
        series_year: Some(2003),
        series_external_id: series_id.map(|s| s.to_owned()),
        cover_image_url: None,
        alternate_cover_urls: Vec::new(),
    }
}

#[test]
fn gap_bounds_name_each_run_ends() {
    let issues = vec![local("1"), local("2"), local("600"), local("601"), local("602"), local("700")];
    let covered = vec!["1".to_string(), "2".to_string(), "601".to_string()];
    let runs = contiguous_uncovered(&issues, &covered);
    let bounds = gap_bounds(&runs);
    assert_eq!(
        bounds,
        vec![("600".to_string(), "600".to_string()), ("602".to_string(), "700".to_string())]
    );
}

#[test]
fn alternate_series_comes_from_a_different_series_id() {
    let a = alternate_from_candidate(&hit(Some("812")), "400").unwrap();
    assert_eq!(a.series_id, "812");
    assert_eq!(a.series_name.as_deref(), Some("Amazing Spider-Man"));
    assert_eq!(a.year_began, Some(2003));
    assert!(alternate_from_candidate(&hit(Some("400")), "400").is_none());
    assert!(alternate_from_candidate(&hit(Some("")), "400").is_none());
    assert!(alternate_from_candidate(&hit(None), "400").is_none());
}

#[test]
fn probes_stop_at_the_cap() {
    assert!(should_probe(&hit(None), 0));
    assert!(!should_probe(&hit(None), MAX_DETAIL_PROBES));
    assert!(!should_probe(&hit(Some("812")), 0));
}

#[test]
fn run_tally_counts_buckets() {
    let t = run_tally(&vec![Confidence::High, Confidence::Low, Confidence::Medium, Confidence::Low]);
    assert_eq!(t, RunTally { total: 4, high: 1, medium: 1, low: 2, no_match: 0 });
    let empty = run_tally(&Vec::new());
    assert_eq!(empty, RunTally { total: 0, high: 0, medium: 0, low: 0, no_match: 1 });
}

#[test]
fn providers_need_switch_and_credentials() {
    let mut cfg = ProviderSettings {
        metron_enabled: true,
        metron_username: Some("me".into()),
        metron_password: Some("pw".into()),
        comicvine_enabled: true,
        comicvine_api_key: Some("key".into()),
    };
    assert_eq!(configured_providers(&cfg), vec![Source::Metron, Source::ComicVine]);
    cfg.metron_password = Some("  ".into());
    assert_eq!(configured_providers(&cfg), vec![Source::ComicVine]);
    cfg.comicvine_enabled = false;
    assert!(configured_providers(&cfg).is_empty());
}

#[test]
fn bucket_snapshot_reads_absent_key_as_full() {
    let b = BucketDef::metron_min();
    assert_eq!(b.key, "metron:min");
    assert_eq!((b.capacity, b.window_secs), (30, 60));
    assert_eq!(snapshot_of(b.capacity, None), (30, 0));
    assert_eq!(snapshot_of(b.capacity, Some((12, 41))), (12, 41));
    assert_eq!(snapshot_of(b.capacity, Some((-3, -1))), (0, 0));
}

#[test]
fn alternate_search_asks_for_the_representative_issue() {
    let rep = LocalIssue { canonical: "600".to_string(), year: Some(2009) };
    let q = alternate_search_query("Amazing Spider-Man", Some(1963), &rep);
    assert!(q.series_external_id.is_none());
    assert_eq!(q.series_name.as_deref(), Some("Amazing Spider-Man"));
    assert_eq!(q.series_year, Some(1963));
    assert_eq!(q.issue_number, "600");
    assert_eq!(q.cover_year, Some(2009));
    assert_eq!(q.limit, ALTERNATE_SEARCH_LIMIT);
    assert_eq!(q.limit, 25);
}

#[test]
fn probe_order_puts_number_matches_first_stably() {
    assert_eq!(probe_order(&vec![false, true, false, true]), vec![1, 3, 0, 2]);
    assert_eq!(probe_order(&vec![true, true]), vec![0, 1]);
    assert!(probe_order(&Vec::new()).is_empty());
}

#[test]
fn detection_stops_when_the_series_lists_nothing() {
    let issues = vec![local("1"), local("2")];
    let out = start_detection(&issues, &Vec::new());
    assert_eq!(out.covered_count, 0);
    assert!(out.gaps.is_empty() && out.created.is_empty());
}

#[test]
fn detection_names_gaps_and_records_resolved_ones() {
    let issues = vec![local("1"), local("2"), local("600"), local("601"), local("3"), local("700")];
    let covered = vec!["1".to_string(), "2".to_string(), "3".to_string()];
    let mut out = start_detection(&issues, &covered);
    assert_eq!(out.covered_count, 3);
    assert_eq!(
        out.gaps,
        vec![("600".to_string(), "601".to_string()), ("700".to_string(), "700".to_string())]
    );
    // The first gap overlaps a declared range and is skipped.
    assert_eq!(gaps_to_resolve(&vec![true, false]), vec![1]);
    record_gap(&mut out, Source::Metron, "700", "700", None);
    assert!(out.created.is_empty());
    let alt = AltSeries { series_id: "812".to_string(), series_name: Some("Saga".to_string()), year_began: Some(2018) };
    record_gap(&mut out, Source::Metron, "700", "700", Some(alt));
    assert_eq!(out.created.len(), 1);
    let c = &out.created[0];
    assert_eq!(c.source, Source::Metron);
    assert_eq!(c.provider_series_id, "812");
    assert_eq!(c.provider_series_name.as_deref(), Some("Saga"));
    assert_eq!((c.range_low.as_str(), c.range_high.as_str()), ("700", "700"));
    assert_eq!(c.declared_year, Some(2018));
}

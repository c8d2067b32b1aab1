use folio_metadata::identifier::Source;
use folio_metadata::match_outcome::MatchOutcomeKind;
use folio_metadata::matcher::{Confidence, IssueQueryFacts, SeriesQueryFacts};
use folio_metadata::orchestrator::{
    cover_urls_for_candidate, gap_guard, note_provider_error, pre_filter_issue, pre_filter_series,
    run_end, PreFilter, RunEnd,
};
use folio_metadata::provider::{canonicalize_role, GenericMetadata, IssueCandidate, ProviderError, SeriesCandidate};
use folio_metadata::rate_limit::{parse_reply, redis_key, BucketDef, BucketError, Reservation};
use folio_metadata::refresh::{EnqueueResult, RefreshOutcome, RefreshScope};

fn series_cand(ext_id: &str, year: Option<i32>, publisher: Option<&str>) -> SeriesCandidate {
    SeriesCandidate {
        source: Source::ComicVine,
        external_id: ext_id.into(),
        external_url: None,
        name: ext_id.into(),
        year,
        publisher: publisher.map(str::to_owned),
        issue_count: None,
        cover_image_url: None,
        deck: None,
        alternate_cover_urls: Vec::new(),
    }
}

fn series_facts(year: Option<i32>) -> SeriesQueryFacts {
    SeriesQueryFacts { name: "Saga".into(), year, publisher: None, volume: None }
}

#[test]
fn pre_filter_drops_year_too_far_in_future() {
    let facts = series_facts(Some(2012));
    let candidates = vec![series_cand("keep", Some(2012), None), series_cand("drop", Some(2018), None)];
    let out = pre_filter_series(candidates, &facts, &PreFilter::default());
    assert_eq!(out.len(), 1);
    assert_eq!(out[0].external_id, "keep");
}

#[test]
fn pre_filter_year_gate_allows_plus_one() {
    let facts = series_facts(Some(2012));
    let candidates = vec![series_cand("plus_one", Some(2013), None)];
    let out = pre_filter_series(candidates, &facts, &PreFilter::default());
    assert_eq!(out.len(), 1);
}

#[test]
fn pre_filter_year_gate_inactive_when_local_year_unknown() {
    let facts = series_facts(None);
    let candidates = vec![series_cand("future", Some(2099), None)];
    let out = pre_filter_series(candidates, &facts, &PreFilter::default());
    assert_eq!(out.len(), 1);
}

#[test]
fn pre_filter_drops_blacklisted_publisher() {
    let facts = series_facts(Some(2012));
    let filter = PreFilter { publisher_blacklist: vec!["DC Comics".into()] };
    let candidates = vec![
        series_cand("image", Some(2012), Some("Image Comics")),
        series_cand("dc", Some(2012), Some("DC Comics")),
    ];
    let out = pre_filter_series(candidates, &facts, &filter);
    assert_eq!(out.len(), 1);
    assert_eq!(out[0].external_id, "image");
}

#[test]
fn pre_filter_blacklist_is_case_insensitive_and_sanitized() {
    let facts = series_facts(Some(2012));
    let filter_partial = PreFilter { publisher_blacklist: vec!["DC".into()] };
    let candidates = vec![series_cand("dc", Some(2012), Some("DC Comics"))];
    let out = pre_filter_series(candidates.clone(), &facts, &filter_partial);
    assert_eq!(out.len(), 1, "partial-key shouldn't accidentally match");
    let filter_full = PreFilter { publisher_blacklist: vec!["dc comics".into()] };
    let out = pre_filter_series(candidates, &facts, &filter_full);
    assert_eq!(out.len(), 0, "lowercase blacklist matches sanitized form");
}

#[test]
fn pre_filter_blacklist_from_library_column_skips_non_strings() {
    let f = PreFilter::from_library(&Some(vec![Some("Marvel".into()), None, Some("DC".into())]));
    assert_eq!(f.publisher_blacklist, vec!["Marvel".to_string(), "DC".to_string()]);
    assert!(PreFilter::from_library(&None).publisher_blacklist.is_empty());
}

#[test]
fn cover_urls_includes_primary_and_caps_alternates() {
    let alts: Vec<String> = (0..5).map(|i| format!("alt-{i}")).collect();
    let urls = cover_urls_for_candidate(Some("primary"), &alts, 3);
    assert_eq!(urls.len(), 4);
    assert_eq!(urls[0], Some("primary"));
    assert_eq!(urls[1], Some("alt-0"));
    assert_eq!(urls[2], Some("alt-1"));
    assert_eq!(urls[3], Some("alt-2"));
}

#[test]
fn cover_urls_cap_zero_emits_primary_only() {
    let alts: Vec<String> = vec!["alt".into()];
    let urls = cover_urls_for_candidate(Some("primary"), &alts, 0);
    assert_eq!(urls.len(), 1);
    assert_eq!(urls[0], Some("primary"));
}

#[test]
fn cover_urls_primary_none_preserves_slot() {
    let alts: Vec<String> = vec!["alt-a".into(), "alt-b".into()];
    let urls = cover_urls_for_candidate(None, &alts, 3);
    assert_eq!(urls.len(), 3);
    assert_eq!(urls[0], None);
    assert_eq!(urls[1], Some("alt-a"));
    assert_eq!(urls[2], Some("alt-b"));
}

fn issue_cand(ext: &str, series_year: Option<i32>) -> IssueCandidate {
    IssueCandidate {
        source: Source::ComicVine,
        external_id: ext.into(),
        external_url: None,
        issue_number: Some("1".into()),
        name: None,
        cover_date: None,
        series_name: Some("Saga".into()),
        series_year,
        series_external_id: None,
        cover_image_url: None,
        alternate_cover_urls: Vec::new(),
    }
}

#[test]
fn pre_filter_issue_runs_year_gate_only() {
    let facts = IssueQueryFacts {
        series_name: "Saga".into(),
        series_year: Some(2012),
        publisher: None,
        volume: None,
        issue_number: "1".into(),
    };
    let candidates = vec![issue_cand("keep", Some(2012)), issue_cand("drop_future", Some(2099))];
    let out = pre_filter_issue(candidates, &facts);
    assert_eq!(out.len(), 1);
    assert_eq!(out[0].external_id, "keep");
}

#[test]
fn gap_guard_downgrades_close_cover_winner() {
    let mut buckets = vec![Confidence::High, Confidence::Medium];
    gap_guard(&mut buckets, &vec![Some(6), Some(9)]);
    assert_eq!(buckets, vec![Confidence::Medium, Confidence::Medium]);
}

#[test]
fn gap_guard_keeps_distant_cover_winner() {
    let mut buckets = vec![Confidence::High, Confidence::Low];
    gap_guard(&mut buckets, &vec![Some(4), Some(18)]);
    assert_eq!(buckets, vec![Confidence::High, Confidence::Low]);
}

#[test]
fn gap_guard_noop_on_empty_or_single() {
    let mut empty: Vec<Confidence> = vec![];
    gap_guard(&mut empty, &vec![]);
    assert!(empty.is_empty());
    let mut one = vec![Confidence::High];
    gap_guard(&mut one, &vec![Some(4)]);
    assert_eq!(one, vec![Confidence::High]);
}

#[test]
fn provider_error_transience_classification() {
    assert!(ProviderError::QuotaExceeded { retry_after_secs: 30 }.is_transient());
    assert!(ProviderError::Transport("dns".into()).is_transient());
    assert!(ProviderError::Upstream("503".into()).is_transient());
    assert!(!ProviderError::Unauthorized("bad key".into()).is_transient());
    assert!(!ProviderError::NotFound("4000-123".into()).is_transient());
    assert!(!ProviderError::InvalidResponse("schema".into()).is_transient());
}

#[test]
fn provider_error_messages() {
    assert_eq!(ProviderError::QuotaExceeded { retry_after_secs: 30 }.message(), "quota exceeded; retry in 30s");
    assert_eq!(ProviderError::NotFound("4000-1".into()).message(), "not found: 4000-1");
    assert_eq!(ProviderError::Unauthorized("k".into()).message(), "provider rejected credentials: k");
}

#[test]
fn generic_metadata_default_is_empty() {
    let m = GenericMetadata::default();
    assert!(m.series_name.is_none());
    assert!(m.credits.is_empty());
    assert!(m.identifiers.is_empty());
}

#[test]
fn canonicalize_role_maps_provider_idioms_to_comic_info_names() {
    assert_eq!(canonicalize_role("cover"), Some("CoverArtist"));
    assert_eq!(canonicalize_role("Cover"), Some("CoverArtist"));
    assert_eq!(canonicalize_role("cover artist"), Some("CoverArtist"));
    assert_eq!(canonicalize_role("penciler"), Some("Penciller"));
    assert_eq!(canonicalize_role("penciller"), Some("Penciller"));
    assert_eq!(canonicalize_role("artist"), Some("Penciller"));
    assert_eq!(canonicalize_role("scripter"), Some("Writer"));
    assert_eq!(canonicalize_role("colourist"), Some("Colorist"));
    assert_eq!(canonicalize_role("editor in chief"), Some("Editor"));
    assert_eq!(canonicalize_role("journalist"), None);
    assert_eq!(canonicalize_role("other"), None);
    assert_eq!(canonicalize_role("production"), None);
    assert_eq!(canonicalize_role(""), None);
    assert_eq!(canonicalize_role("   "), None);
}

#[test]
fn parse_reply_grants() {
    let r = parse_reply(&[1, 42, 3600]).unwrap();
    assert_eq!(r, Reservation::Granted { remaining: 42, seconds_until_reset: 3600 });
}

#[test]
fn parse_reply_denies_with_floor() {
    let r = parse_reply(&[0, 0, 0]).unwrap();
    assert_eq!(r, Reservation::Denied { retry_after_secs: 1 });
}

#[test]
fn parse_reply_rejects_unexpected_shape() {
    let err = parse_reply(&[1]).unwrap_err();
    assert!(matches!(err, BucketError::InvalidReply(_)));
}

#[test]
fn parse_reply_clamps_negative_values() {
    let r = parse_reply(&[1, -5, -1]).unwrap();
    assert_eq!(r, Reservation::Granted { remaining: 0, seconds_until_reset: 0 });
    assert_eq!(parse_reply(&[0, 0, 42]).unwrap(), Reservation::Denied { retry_after_secs: 42 });
}

#[test]
fn bucket_definitions_and_keys() {
    let cv = BucketDef::comicvine_hour();
    assert_eq!((cv.key, cv.capacity, cv.window_secs), ("comicvine:hour", 200, 3600));
    let day = BucketDef::metron_day();
    assert_eq!((day.capacity, day.window_secs), (5000, 86_400));
    assert_eq!(redis_key("metron:min"), "metadata:bucket:metron:min");
}

#[test]
fn classify_no_match_on_empty() {
    assert_eq!(MatchOutcomeKind::classify(&[]), MatchOutcomeKind::NoMatch);
}

#[test]
fn classify_single_good_on_lone_high() {
    assert_eq!(MatchOutcomeKind::classify(&[Confidence::High]), MatchOutcomeKind::SingleGood);
}

#[test]
fn classify_single_bad_cover_on_lone_medium_or_low() {
    for c in [Confidence::Medium, Confidence::Low] {
        assert_eq!(MatchOutcomeKind::classify(&[c]), MatchOutcomeKind::SingleBadCover);
    }
}

#[test]
fn classify_multi_good_on_top_high() {
    assert_eq!(MatchOutcomeKind::classify(&[Confidence::High, Confidence::Medium]), MatchOutcomeKind::MultiGood);
}

#[test]
fn classify_multi_bad_cover_on_top_below_high() {
    assert_eq!(MatchOutcomeKind::classify(&[Confidence::Medium, Confidence::Low]), MatchOutcomeKind::MultiBadCover);
}

#[test]
fn refresh_scope_round_trips() {
    for s in [RefreshScope::Unmatched, RefreshScope::Stale, RefreshScope::All, RefreshScope::Recent] {
        assert_eq!(RefreshScope::from_str(s.as_str()), Ok(s));
    }
    assert!(RefreshScope::from_str("everything").is_err());
}

#[test]
fn refresh_outcome_counts_each_result() {
    let mut o = RefreshOutcome::new(3);
    o.record(EnqueueResult::Enqueued);
    o.record(EnqueueResult::Coalesced);
    o.record(EnqueueResult::Failed);
    assert_eq!((o.jobs_enqueued, o.jobs_coalesced, o.jobs_failed), (1, 1, 1));
}

#[test]
fn canonical_role_names_map_to_themselves() {
    for name in ["Writer", "Penciller", "Inker", "Colorist", "Letterer", "CoverArtist", "Editor", "Translator"] {
        assert_eq!(canonicalize_role(name), Some(name));
    }
    assert_eq!(canonicalize_role("  Cover   ARTIST "), canonicalize_role("cover artist"));
    assert_eq!(canonicalize_role("colourist"), Some("Colorist"));
}

#[test]
fn canonicalize_role_ignores_case_padding_and_inner_runs() {
    assert_eq!(canonicalize_role("  Cover   ARTIST "), canonicalize_role("cover artist"));
    assert_eq!(canonicalize_role("  Cover   ARTIST "), Some("CoverArtist"));
    assert_eq!(canonicalize_role("\tEditor\n in  Chief"), Some("Editor"));
    for raw in ["cover", "penciler", "colourist", "scripter", "translation", "editor in chief"] {
        let c = canonicalize_role(raw).unwrap();
        assert_eq!(canonicalize_role(c), Some(c));
    }
}

#[test]
fn quota_refusal_with_no_candidates_awaits_quota() {
    let mut quota = None;
    let mut last = None;
    note_provider_error(&mut quota, &mut last, ProviderError::Transport("reset".into()));
    note_provider_error(&mut quota, &mut last, ProviderError::QuotaExceeded { retry_after_secs: 90 });
    assert_eq!(quota, Some(90));
    assert!(matches!(last, Some(ProviderError::Transport(ref m)) if m == "reset"));
    match run_end(true, quota, last) {
        RunEnd::AwaitingQuota { retry_after_secs } => assert_eq!(retry_after_secs, 90),
        _ => panic!("expected awaiting quota"),
    }
}

#[test]
fn provider_failure_with_no_candidates_fails_the_run() {
    let mut quota = None;
    let mut last = None;
    note_provider_error(&mut quota, &mut last, ProviderError::Upstream("502".into()));
    assert_eq!(quota, None);
    match run_end(true, quota, last) {
        RunEnd::Failed(ProviderError::Upstream(m)) => assert_eq!(m, "502"),
        _ => panic!("expected a failed run"),
    }
}

#[test]
fn run_with_candidates_or_no_trouble_is_finalized() {
    assert!(matches!(run_end(false, Some(30), Some(ProviderError::NotFound("x".into()))), RunEnd::Finalized));
    assert!(matches!(run_end(true, None, None), RunEnd::Finalized));
}

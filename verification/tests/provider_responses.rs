use folio_metadata::comicvine::{cv_envelope_error, cv_http_error, cv_issue_to_candidate, CvImage, CvIssue, CvVolume};
use folio_metadata::identifier::Source;
use folio_metadata::metron::{
    issue_list_to_candidate, metron_http_error, series_list_to_candidate, MIssueListItem,
    MIssueSeriesRef, MSeriesList,
};
use folio_metadata::provider::{CalendarDate, ProviderError};

fn bare_issue(id: Option<i64>) -> CvIssue {
    CvIssue {
        id,
        name: Some("The Beginning".into()),
        issue_number: Some("1".into()),
        cover_date: Some("2012-03-14".into()),
        store_date: None,
        deck: None,
        description: None,
        image: None,
        person_credits: None,
        character_credits: None,
        team_credits: None,
        location_credits: None,
        concept_credits: None,
        object_credits: None,
        story_arc_credits: None,
        volume: None,
        site_detail_url: None,
        date_last_updated: None,
        aliases: None,
    }
}

#[test]
fn cv_issue_hit_needs_an_id() {
    assert!(cv_issue_to_candidate(&bare_issue(None)).is_none());
}

#[test]
fn cv_issue_hit_carries_series_and_cover() {
    let mut issue = bare_issue(Some(6001));
    issue.volume = Some(CvVolume {
        id: Some(4050),
        name: Some("Saga".into()),
        start_year: Some("2012".into()),
        publisher: None,
        deck: None,
        description: None,
        image: None,
        count_of_issues: None,
        site_detail_url: None,
        date_last_updated: None,
        aliases: None,
    });
    issue.image = Some(CvImage {
        icon_url: None,
        medium_url: None,
        screen_url: None,
        super_url: Some("https://cv/super.jpg".into()),
        original_url: Some("https://cv/original.jpg".into()),
        thumb_url: None,
    });
    let c = cv_issue_to_candidate(&issue).unwrap();
    assert_eq!(c.source, Source::ComicVine);
    assert_eq!(c.external_id, "6001");
    assert_eq!(c.external_url.as_deref(), Some("https://comicvine.gamespot.com/issue/4000-6001/"));
    assert_eq!(c.issue_number.as_deref(), Some("1"));
    assert_eq!(c.cover_date, Some(CalendarDate { year: 2012, month: 3, day: 14 }));
    assert_eq!(c.series_name.as_deref(), Some("Saga"));
    assert_eq!(c.series_year, Some(2012));
    assert_eq!(c.series_external_id.as_deref(), Some("4050"));
    assert_eq!(c.cover_image_url.as_deref(), Some("https://cv/super.jpg"));
    assert!(c.alternate_cover_urls.is_empty());
}

#[test]
fn cv_http_status_errors() {
    assert!(cv_http_error(200, "200 OK", "").is_none());
    assert!(cv_http_error(404, "404 Not Found", "").is_none());
    assert!(matches!(
        cv_http_error(429, "429 Too Many Requests", ""),
        Some(ProviderError::QuotaExceeded { retry_after_secs: 60 })
    ));
    match cv_http_error(503, "503 Service Unavailable", "down") {
        Some(ProviderError::Upstream(m)) => assert_eq!(m, "HTTP 503 Service Unavailable: down"),
        _ => panic!("expected an upstream error"),
    }
}

#[test]
fn cv_envelope_codes() {
    assert!(cv_envelope_error(None, &None).is_none());
    assert!(cv_envelope_error(Some(1), &Some("OK".into())).is_none());
    match cv_envelope_error(Some(100), &Some("Invalid API Key".into())) {
        Some(ProviderError::Unauthorized(m)) => assert_eq!(m, "Invalid API Key"),
        _ => panic!("expected unauthorized"),
    }
    match cv_envelope_error(Some(101), &Some("Object Not Found".into())) {
        Some(ProviderError::NotFound(m)) => assert_eq!(m, "Object Not Found"),
        _ => panic!("expected not found"),
    }
    assert!(matches!(
        cv_envelope_error(Some(107), &None),
        Some(ProviderError::QuotaExceeded { retry_after_secs: 3600 })
    ));
    match cv_envelope_error(Some(105), &Some("Filter Error".into())) {
        Some(ProviderError::Upstream(m)) => assert_eq!(m, "ComicVine status_code=105: Filter Error"),
        _ => panic!("expected upstream"),
    }
}

#[test]
fn metron_series_hit() {
    assert!(series_list_to_candidate(&MSeriesList {
        id: None,
        series: Some("Saga".into()),
        year_began: None,
        issue_count: None,
        modified: None,
    })
    .is_none());
    let c = series_list_to_candidate(&MSeriesList {
        id: Some(812),
        series: Some("Saga".into()),
        year_began: Some(2012),
        issue_count: Some(66),
        modified: None,
    })
    .unwrap();
    assert_eq!(c.source, Source::Metron);
    assert_eq!(c.external_id, "812");
    assert_eq!(c.external_url.as_deref(), Some("https://metron.cloud/series/812/"));
    assert_eq!(c.name, "Saga");
    assert_eq!(c.year, Some(2012));
    assert_eq!(c.issue_count, Some(66));
    assert!(c.publisher.is_none());
}

#[test]
fn metron_issue_hit_falls_back_to_issue_field() {
    let item = MIssueListItem {
        id: Some(9001),
        series: Some(MIssueSeriesRef {
            id: Some(812),
            name: Some("Saga".into()),
            sort_name: None,
            volume: None,
            year_began: Some(2012),
            series_type: None,
        }),
        number: None,
        issue: Some("3".into()),
        name: Some(vec!["First story".into(), "Second".into()]),
        cover_date: Some("2012-05-01".into()),
        image: Some("https://metron/3.jpg".into()),
    };
    let c = issue_list_to_candidate(&item).unwrap();
    assert_eq!(c.external_id, "9001");
    assert_eq!(c.external_url.as_deref(), Some("https://metron.cloud/issue/9001/"));
    assert_eq!(c.issue_number.as_deref(), Some("3"));
    assert_eq!(c.name.as_deref(), Some("First story"));
    assert_eq!(c.cover_date, Some(CalendarDate { year: 2012, month: 5, day: 1 }));
    assert_eq!(c.series_name.as_deref(), Some("Saga"));
    assert_eq!(c.series_external_id.as_deref(), Some("812"));
}

#[test]
fn metron_http_status_errors() {
    assert!(metron_http_error(204, "204 No Content", "").is_none());
    match metron_http_error(401, "401 Unauthorized", "bad creds") {
        Some(ProviderError::Unauthorized(m)) => assert_eq!(m, "bad creds"),
        _ => panic!("expected unauthorized"),
    }
    match metron_http_error(404, "404 Not Found", "nope") {
        Some(ProviderError::NotFound(m)) => assert_eq!(m, "nope"),
        _ => panic!("expected not found"),
    }
    assert!(matches!(
        metron_http_error(429, "429 Too Many Requests", ""),
        Some(ProviderError::QuotaExceeded { retry_after_secs: 60 })
    ));
    match metron_http_error(502, "502 Bad Gateway", "x") {
        Some(ProviderError::Upstream(m)) => assert_eq!(m, "HTTP 502 Bad Gateway"),
        _ => panic!("expected upstream"),
    }
    match metron_http_error(418, "418 I'm a teapot", "tea") {
        Some(ProviderError::Upstream(m)) => assert_eq!(m, "HTTP 418 I'm a teapot: tea"),
        _ => panic!("expected upstream"),
    }
}

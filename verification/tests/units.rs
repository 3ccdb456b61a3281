use crawler::config::{parse_usize, worker_count_config};
use crawler::engine::{
    classify_response, record_of_outcome, should_expand, site_fetch, Database, FetchOutcome, Page,
};
use crawler::extract::extract_hrefs;
use crawler::is_error_status;
use crawler::urls::{parse_url, resolve_href};
use crawler::visited::VisitedSet;

#[test]
fn extractor_finds_double_quoted_href() {
    let r = extract_hrefs("<a href=\"https://a.example/x\">go</a>");
    assert_eq!(r, vec!["https://a.example/x".to_string()]);
}

#[test]
fn extractor_finds_single_quoted_href() {
    let r = extract_hrefs("<a href='abc'>go</a>");
    assert_eq!(r, vec!["abc".to_string()]);
}

#[test]
fn extractor_keeps_order_of_occurrence() {
    let r = extract_hrefs("<a href=\"one\">1</a> text <a href=\"two\">2</a>");
    assert_eq!(r, vec!["one".to_string(), "two".to_string()]);
}

#[test]
fn extractor_on_empty_body_finds_nothing() {
    let r = extract_hrefs("");
    assert!(r.is_empty());
}

#[test]
fn extractor_stops_at_an_unclosed_quote() {
    let r = extract_hrefs("<a href=\"never closed");
    assert!(r.is_empty());
}

#[test]
fn extractor_ignores_unquoted_href() {
    let r = extract_hrefs("<a href=x>go</a>");
    assert!(r.is_empty());
}

#[test]
fn extractor_takes_empty_target() {
    let r = extract_hrefs("<a href=\"\">go</a>");
    assert_eq!(r, vec![String::new()]);
}

#[test]
fn parse_usize_reads_decimal() {
    assert_eq!(parse_usize("7"), Some(7));
    assert_eq!(parse_usize("042"), Some(42));
    assert_eq!(parse_usize("0"), Some(0));
}

#[test]
fn parse_usize_rejects_junk() {
    assert_eq!(parse_usize(""), None);
    assert_eq!(parse_usize("12a"), None);
    assert_eq!(parse_usize("+5"), None);
    assert_eq!(parse_usize(" 5"), None);
}

#[test]
fn parse_usize_rejects_overflow() {
    assert_eq!(parse_usize("99999999999999999999999999999999"), None);
}

#[test]
fn worker_count_defaults_to_one_when_absent() {
    assert_eq!(worker_count_config(None), Some(1));
    assert_eq!(worker_count_config(Some("5")), Some(5));
    assert_eq!(worker_count_config(Some("five")), None);
}

#[test]
fn claim_grants_only_the_first_caller() {
    let mut v = VisitedSet::new();
    let u = "https://a.example/".to_string();
    assert!(v.claim(&u));
    assert!(!v.claim(&u));
    assert!(!v.claim(&u));
    assert!(v.contains(&u));
    assert_eq!(v.len(), 1);
}

#[test]
fn claim_tracks_distinct_urls_separately() {
    let mut v = VisitedSet::new();
    let a = "https://a.example/a".to_string();
    let b = "https://a.example/b".to_string();
    assert!(v.claim(&a));
    assert!(v.claim(&b));
    assert!(!v.claim(&a));
    assert_eq!(v.len(), 2);
}

#[test]
fn status_classes() {
    assert!(!is_error_status(200));
    assert!(!is_error_status(399));
    assert!(is_error_status(400));
    assert!(is_error_status(404));
    assert!(is_error_status(599));
    assert!(!is_error_status(600));
}

#[test]
fn classify_splits_on_error_ranges() {
    assert!(matches!(
        classify_response(404, "x".to_string()),
        FetchOutcome::ClientOrServerError { status: 404 }
    ));
    assert!(matches!(
        classify_response(200, "x".to_string()),
        FetchOutcome::Success { status: 200, .. }
    ));
}

#[test]
fn transport_failure_emits_no_record() {
    let u = parse_url("https://a.example/").unwrap();
    let o = FetchOutcome::TransportFailure { reason: "refused".to_string() };
    assert!(record_of_outcome(&u, &o).is_none());
}

#[test]
fn error_response_emits_a_record() {
    let u = parse_url("https://a.example/").unwrap();
    let o = FetchOutcome::ClientOrServerError { status: 503 };
    let rec = record_of_outcome(&u, &o).unwrap();
    assert_eq!(rec.url, "https://a.example/");
    assert_eq!(rec.status, 503);
}

#[test]
fn expansion_needs_success_and_same_host() {
    let host = "a.example".to_string();
    let same = parse_url("https://a.example/p").unwrap();
    let other = parse_url("https://b.other/p").unwrap();
    let ok = FetchOutcome::Success { status: 200, body: String::new() };
    let bad = FetchOutcome::ClientOrServerError { status: 500 };
    assert!(should_expand(&host, &same, &ok));
    assert!(!should_expand(&host, &other, &ok));
    assert!(!should_expand(&host, &same, &bad));
    let lost = FetchOutcome::TransportFailure { reason: "x".to_string() };
    assert!(!should_expand(&host, &same, &lost));
}

#[test]
fn parse_url_normalizes_and_reads_host() {
    let u = parse_url("HTTPS://A.Example/p?q=1#frag").unwrap();
    assert_eq!(u.host, "a.example");
    assert!(u.text.starts_with("https://a.example/p"));
    assert!(parse_url("not a url").is_none());
}

#[test]
fn resolve_href_handles_relative_and_absolute() {
    let base = parse_url("https://a.example/dir/page").unwrap();
    let child = resolve_href(&base, "sub").unwrap();
    assert_eq!(child.text, "https://a.example/dir/sub");
    assert_eq!(child.host, "a.example");
    let abs = resolve_href(&base, "https://b.other/x").unwrap();
    assert_eq!(abs.host, "b.other");
}

#[test]
fn site_fetch_finds_the_page() {
    let site = vec![Page {
        url: "https://a.example/".to_string(),
        outcome: FetchOutcome::ClientOrServerError { status: 410 },
    }];
    let url = "https://a.example/".to_string();
    assert!(matches!(
        site_fetch(&site, &url),
        Some(FetchOutcome::ClientOrServerError { status: 410 })
    ));
    let missing = "https://a.example/none".to_string();
    assert!(site_fetch(&site, &missing).is_none());
}

#[test]
fn termination_check_fires_only_when_idle_and_empty() {
    let mut db = Database::new("a.example".to_string());
    db.start_unit();
    assert!(!db.finish_unit(false));
    assert!(!db.closed);
    db.start_unit();
    db.start_unit();
    assert!(!db.finish_unit(true));
    assert!(db.finish_unit(true));
    assert!(db.closed);
    db.start_unit();
    assert!(!db.finish_unit(true));
}

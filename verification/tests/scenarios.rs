use crawler::UrlData;
use crawler::engine::{run_crawl, CrawlError, FetchOutcome, Page};

fn page_ok(url: &str, body: &str) -> Page {
    Page {
        url: url.to_string(),
        outcome: FetchOutcome::Success { status: 200, body: body.to_string() },
    }
}

fn has_record(recs: &[UrlData], url: &str, status: u16) -> bool {
    recs.iter().any(|r| r.url == url && r.status == status)
}

#[test]
fn seed_with_one_in_domain_and_one_foreign_link() {
    let site = vec![
        page_ok(
            "https://a.example/",
            "<a href=\"https://a.example/x\">in</a><a href=\"https://b.other/y\">out</a>",
        ),
        page_ok("https://a.example/x", ""),
        page_ok("https://b.other/y", "<a href=\"https://b.other/z\">further</a>"),
        page_ok("https://b.other/z", ""),
    ];
    let rep = run_crawl("https://a.example/", &site).unwrap();
    let recs = rep.records;
    assert_eq!(recs.len(), 3);
    assert!(has_record(&recs, "https://a.example/", 200));
    assert!(has_record(&recs, "https://a.example/x", 200));
    assert!(has_record(&recs, "https://b.other/y", 200));
    assert!(!has_record(&recs, "https://b.other/z", 200));
}

#[test]
fn seed_returning_404_yields_one_record_and_stops() {
    let site = vec![Page {
        url: "https://a.example/".to_string(),
        outcome: FetchOutcome::ClientOrServerError { status: 404 },
    }];
    let rep = run_crawl("https://a.example/", &site).unwrap();
    let recs = rep.records;
    assert_eq!(recs.len(), 1);
    assert_eq!(recs[0].url, "https://a.example/");
    assert_eq!(recs[0].status, 404);
}

#[test]
fn error_page_is_recorded_but_not_expanded() {
    let site = vec![
        page_ok("https://a.example/", "<a href=\"https://a.example/gone\">x</a>"),
        Page {
            url: "https://a.example/gone".to_string(),
            outcome: FetchOutcome::ClientOrServerError { status: 500 },
        },
        page_ok("https://a.example/hidden", ""),
    ];
    let rep = run_crawl("https://a.example/", &site).unwrap();
    let recs = rep.records;
    assert_eq!(recs.len(), 2);
    assert!(has_record(&recs, "https://a.example/", 200));
    assert!(has_record(&recs, "https://a.example/gone", 500));
    assert!(!has_record(&recs, "https://a.example/hidden", 200));
}

#[test]
fn duplicate_links_fetch_once() {
    let site = vec![
        page_ok(
            "https://a.example/",
            "<a href=\"https://a.example/t\">one</a><a href=\"https://a.example/t\">two</a>",
        ),
        page_ok("https://a.example/t", ""),
    ];
    let rep = run_crawl("https://a.example/", &site).unwrap();
    let recs = rep.records;
    assert_eq!(recs.len(), 2);
    assert!(has_record(&recs, "https://a.example/", 200));
    assert!(has_record(&recs, "https://a.example/t", 200));
    let t_count = recs.iter().filter(|r| r.url == "https://a.example/t").count();
    assert_eq!(t_count, 1);
}

#[test]
fn fifty_way_fanout_yields_fifty_one_records() {
    let mut body = String::new();
    let mut site = Vec::new();
    for i in 0..50 {
        let child = format!("https://a.example/p{}", i);
        body.push_str(&format!("<a href=\"{}\">l</a>", child));
        site.push(page_ok(&child, ""));
    }
    site.push(page_ok("https://a.example/", &body));
    let rep = run_crawl("https://a.example/", &site).unwrap();
    let recs = rep.records;
    assert_eq!(recs.len(), 51);
    assert!(has_record(&recs, "https://a.example/", 200));
    for i in 0..50 {
        let child = format!("https://a.example/p{}", i);
        let n = recs.iter().filter(|r| r.url == child).count();
        assert_eq!(n, 1);
    }
}

#[test]
fn transport_failure_is_skipped_and_crawl_goes_on() {
    let site = vec![
        page_ok(
            "https://a.example/",
            "<a href=\"https://a.example/dead\">d</a><a href=\"https://a.example/live\">l</a>",
        ),
        Page {
            url: "https://a.example/dead".to_string(),
            outcome: FetchOutcome::TransportFailure { reason: "connection refused".to_string() },
        },
        page_ok("https://a.example/live", ""),
    ];
    let rep = run_crawl("https://a.example/", &site).unwrap();
    // the failed URL still counts as visited, so it is never retried
    assert!(rep.db.visited.contains(&"https://a.example/dead".to_string()));
    let recs = rep.records;
    assert_eq!(recs.len(), 2);
    assert!(has_record(&recs, "https://a.example/", 200));
    assert!(has_record(&recs, "https://a.example/live", 200));
    assert!(!recs.iter().any(|r| r.url == "https://a.example/dead"));
}

#[test]
fn cyclic_links_terminate() {
    let site = vec![
        page_ok("https://a.example/", "<a href=\"https://a.example/b\">b</a>"),
        page_ok(
            "https://a.example/b",
            "<a href=\"https://a.example/\">back</a><a href=\"https://a.example/b\">self</a>",
        ),
    ];
    let rep = run_crawl("https://a.example/", &site).unwrap();
    let recs = rep.records;
    assert_eq!(recs.len(), 2);
    assert!(has_record(&recs, "https://a.example/", 200));
    assert!(has_record(&recs, "https://a.example/b", 200));
}

#[test]
fn relative_links_resolve_against_the_page() {
    let site = vec![
        page_ok("https://a.example/dir/", "<a href=\"sub\">s</a>"),
        page_ok("https://a.example/dir/sub", ""),
    ];
    let rep = run_crawl("https://a.example/dir/", &site).unwrap();
    let recs = rep.records;
    assert_eq!(recs.len(), 2);
    assert!(has_record(&recs, "https://a.example/dir/sub", 200));
}

#[test]
fn unknown_link_is_claimed_but_unrecorded() {
    let site = vec![page_ok("https://a.example/", "<a href=\"https://a.example/nowhere\">n</a>")];
    let rep = run_crawl("https://a.example/", &site).unwrap();
    assert!(rep.db.visited.contains(&"https://a.example/nowhere".to_string()));
    assert_eq!(rep.db.visited.len(), 2);
    let recs = rep.records;
    assert_eq!(recs.len(), 1);
    assert!(has_record(&recs, "https://a.example/", 200));
}

#[test]
fn invalid_seed_is_fatal() {
    let site: Vec<Page> = Vec::new();
    let r = run_crawl("not a url", &site);
    assert!(matches!(r, Err(CrawlError::InvalidSeed)));
}

#[test]
fn hostless_seed_is_fatal() {
    let site: Vec<Page> = Vec::new();
    let r = run_crawl("data:text/plain,hello", &site);
    assert!(matches!(r, Err(CrawlError::SeedHostMissing)));
}

use crawler::Crawler;
use crawler::FetchOutcome;
use crawler::PageUrl;
use crawler::Report;
use crawler::Step;

/// Drives one crawl to completion, serving pages from `pages`: a URL
/// listed with a body is fetched successfully, anything else fails.
fn run_crawl(
    query: &str,
    depth: usize,
    range: usize,
    pages: &[(&str, Option<&str>)],
) -> Report {
    let seed = PageUrl {
        full: "http://example.com/".to_string(),
        host: "example.com".to_string(),
    };
    let mut c = Crawler::new(seed, query.to_string(), depth, range);
    loop {
        match c.next_step() {
            Step::Done => break,
            Step::Idle => panic!("a single-threaded run has no idle state"),
            Step::Skipped => continue,
            Step::Fetch(t) => {
                let outcome = match pages.iter().find(|(u, _)| *u == t.url.full) {
                    Some((_, Some(body))) => FetchOutcome::Fetched((*body).to_string()),
                    _ => FetchOutcome::Failed,
                };
                c.finish_task(&t, outcome);
            }
        }
    }
    assert!(c.is_done());
    c.report()
}

#[test]
fn depth_zero_crawls_nothing() {
    let pages = [("http://example.com/", Some("the query is right here"))];
    let report = run_crawl("query", 0, 3, &pages);
    assert_eq!(report.pages_attempted, 0);
    assert!(report.matches.is_empty());
}

#[test]
fn lone_page_without_match() {
    let pages = [("http://example.com/", Some("<p>nothing of note</p>"))];
    let report = run_crawl("crawler", 2, 3, &pages);
    assert_eq!(report.pages_attempted, 1);
    assert!(report.matches.is_empty());
}

#[test]
fn seed_match_is_keyed_by_seed_url() {
    let pages = [("http://example.com/", Some("<p>hello crawler world</p>"))];
    let report = run_crawl("crawler", 2, 3, &pages);
    assert_eq!(report.pages_attempted, 1);
    assert_eq!(report.matches.len(), 1);
    assert_eq!(report.matches[0].url, "http://example.com/");
    assert!(report.matches[0].snippet.text.contains("crawler"));
}

#[test]
fn same_host_link_is_followed() {
    let pages = [
        ("http://example.com/", Some("<a href=\"/next\">go</a>")),
        ("http://example.com/next", Some("<p>the treasure</p>")),
    ];
    let report = run_crawl("treasure", 2, 3, &pages);
    assert_eq!(report.pages_attempted, 2);
    assert_eq!(report.matches.len(), 1);
    assert_eq!(report.matches[0].url, "http://example.com/next");
    assert!(report.matches[0].snippet.text.contains("treasure"));
}

#[test]
fn foreign_host_is_never_fetched() {
    // The foreign page would match; it must never be claimed or fetched.
    let pages = [
        ("http://example.com/", Some("<a href=\"http://other.com/\">out</a>")),
        ("http://other.com/", Some("<p>the treasure</p>")),
    ];
    let report = run_crawl("treasure", 3, 3, &pages);
    assert_eq!(report.pages_attempted, 1);
    assert!(report.matches.is_empty());
}

#[test]
fn failed_fetch_leaves_siblings_processed() {
    // "/gone" is served by nobody; its failure must not keep "/kept"
    // from being fetched, nor keep the run from finishing.
    let pages = [
        (
            "http://example.com/",
            Some("<a href=\"/gone\">a</a><a href=\"/kept\">b</a>"),
        ),
        ("http://example.com/kept", Some("<p>the treasure</p>")),
    ];
    let report = run_crawl("treasure", 2, 3, &pages);
    assert_eq!(report.pages_attempted, 3);
    assert_eq!(report.matches.len(), 1);
    assert_eq!(report.matches[0].url, "http://example.com/kept");
}

#[test]
fn each_url_is_fetched_once() {
    // Two links to the same page, which links back to the seed: two
    // pages in all, each claimed once, and the run terminates.
    let pages = [
        (
            "http://example.com/",
            Some("<a href=\"/same\">a</a><a href=\"/same\">b</a>"),
        ),
        ("http://example.com/same", Some("<a href=\"/\">back</a>")),
    ];
    let report = run_crawl("absent", 4, 3, &pages);
    assert_eq!(report.pages_attempted, 2);
    assert!(report.matches.is_empty());
}

#[test]
fn depth_bounds_the_walk() {
    let pages = [
        ("http://example.com/", Some("<a href=\"/1\">n</a>")),
        ("http://example.com/1", Some("<a href=\"/2\">n</a>")),
        ("http://example.com/2", Some("<p>too deep</p>")),
    ];
    let report = run_crawl("deep", 2, 3, &pages);
    // The seed spends one hop, "/1" the second; "/2" is enqueued with no
    // depth left and discarded unfetched.
    assert_eq!(report.pages_attempted, 2);
    assert!(report.matches.is_empty());
}

#[test]
fn finite_chain_terminates_with_depth_to_spare() {
    let pages = [
        ("http://example.com/", Some("<a href=\"/1\">n</a>")),
        ("http://example.com/1", Some("<a href=\"/2\">n</a>")),
        ("http://example.com/2", Some("<a href=\"/3\">n</a>")),
        ("http://example.com/3", Some("<p>the end</p>")),
    ];
    let report = run_crawl("end", 50, 3, &pages);
    assert_eq!(report.pages_attempted, 4);
    assert_eq!(report.matches.len(), 1);
    assert_eq!(report.matches[0].url, "http://example.com/3");
}

#[test]
fn match_snippet_respects_range() {
    let pages = [("http://example.com/", Some("<p>ab treasure cd</p>"))];
    let report = run_crawl("treasure", 1, 2, &pages);
    assert_eq!(report.matches.len(), 1);
    assert_eq!(report.matches[0].snippet.text, "b treasure c");
}

#[test]
fn attribute_text_is_not_searched() {
    // The query appears only inside an href attribute, not in the
    // page's visible text: no match may be reported.
    let pages = [("http://example.com/", Some("<a href=\"/treasure\">x</a>"))];
    let report = run_crawl("treasure", 1, 3, &pages);
    assert_eq!(report.pages_attempted, 1);
    assert!(report.matches.is_empty());
}

#[test]
fn every_matching_page_is_reported() {
    let pages = [
        ("http://example.com/", Some("<p>treasure up top</p><a href=\"/deep\">n</a>")),
        ("http://example.com/deep", Some("<p>more treasure below</p>")),
    ];
    let report = run_crawl("treasure", 2, 3, &pages);
    assert_eq!(report.pages_attempted, 2);
    assert_eq!(report.matches.len(), 2);
    assert_eq!(report.matches[0].url, "http://example.com/");
    assert_eq!(report.matches[1].url, "http://example.com/deep");
    assert!(report.matches[0].snippet.text.contains("treasure"));
    assert!(report.matches[1].snippet.text.contains("treasure"));
}

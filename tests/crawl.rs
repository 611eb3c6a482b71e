use crawler::crawl::{crawl, Crawl, CrawlError};
use crawler::token::{Attribute, Tag, TagKind, Token};
use crawler::web_url::WebUrl;

fn web(s: &str) -> WebUrl {
    WebUrl::parse(s).unwrap()
}

fn anchor(href: &str) -> Token {
    Token::TagToken(Tag {
        kind: TagKind::StartTag,
        name: "a".to_string(),
        attrs: vec![Attribute { name: "href".to_string(), value: href.to_string() }],
    })
}

/// A small web: the page for each URL, or a fetch failure.
fn fetch(u: &WebUrl) -> Result<Vec<Token>, String> {
    match u.as_str() {
        "https://a.example/" => Ok(vec![anchor("https://b.example/"), anchor("https://c.example/")]),
        "https://b.example/" => Ok(vec![Token::Other]),
        "https://c.example/" => Ok(vec![]),
        "https://bad.example/" => Ok(vec![anchor("http://[::1"), anchor("https://b.example/")]),
        "https://fail.example/" => Ok(vec![anchor("https://b.example/"), anchor("https://down.example/")]),
        other => Err(format!("no route to {}", other)),
    }
}

/// Runs a crawl to its end, recording each fetch with its depth.
fn run(mut c: Crawl) -> (Result<(), CrawlError>, Vec<(String, u8)>) {
    let mut fetched = vec![];
    while !c.is_done() {
        let depth = c.depth();
        let mut pages = vec![];
        for u in c.frontier() {
            fetched.push((u.as_str().to_string(), depth));
            pages.push(fetch(u));
        }
        c.on_level_fetched(pages);
    }
    (c.outcome(), fetched)
}

fn f(s: &str, d: u8) -> (String, u8) {
    (s.to_string(), d)
}

#[test]
fn past_max_depth_fetches_nothing() {
    let c = crawl(vec![web("https://a.example/"), web("https://x.example/")], 3, 2);
    assert!(c.is_done());
    assert!(c.frontier().is_empty());
    let (outcome, fetched) = run(c);
    assert!(outcome.is_ok());
    assert!(fetched.is_empty());
}

#[test]
fn empty_frontier_fetches_nothing() {
    let (outcome, fetched) = run(crawl(vec![], 1, 2));
    assert!(outcome.is_ok());
    assert!(fetched.is_empty());
}

#[test]
fn two_levels_fetch_page_then_its_links() {
    let (outcome, fetched) = run(crawl(vec![web("https://a.example/")], 1, 2));
    assert!(outcome.is_ok());
    assert_eq!(
        fetched,
        vec![f("https://a.example/", 1), f("https://b.example/", 2), f("https://c.example/", 2)]
    );
}

#[test]
fn max_depth_equal_to_current_fetches_one_level() {
    let (outcome, fetched) = run(crawl(vec![web("https://a.example/")], 1, 1));
    assert!(outcome.is_ok());
    assert_eq!(fetched, vec![f("https://a.example/", 1)]);
}

#[test]
fn failed_fetch_fails_crawl_but_not_siblings() {
    let (outcome, fetched) = run(crawl(vec![web("https://fail.example/")], 1, 2));
    match outcome {
        Err(CrawlError::Fetch(m)) => assert_eq!(m, "no route to https://down.example/"),
        _ => panic!("the crawl should fail on its fetch"),
    }
    assert_eq!(
        fetched,
        vec![f("https://fail.example/", 1), f("https://b.example/", 2), f("https://down.example/", 2)]
    );
}

#[test]
fn malformed_link_fails_branch_without_fetching_its_links() {
    let (outcome, fetched) = run(crawl(vec![web("https://bad.example/")], 1, 3));
    match outcome {
        Err(CrawlError::MalformedLink(h)) => assert_eq!(h, "http://[::1"),
        _ => panic!("the crawl should fail on the malformed link"),
    }
    assert_eq!(fetched, vec![f("https://bad.example/", 1)]);
}

#[test]
fn failed_branch_leaves_sibling_subtree_running() {
    let seeds = vec![web("https://down.example/"), web("https://a.example/")];
    let (outcome, fetched) = run(crawl(seeds, 1, 2));
    assert!(matches!(outcome, Err(CrawlError::Fetch(_))));
    assert_eq!(
        fetched,
        vec![
            f("https://down.example/", 1),
            f("https://a.example/", 1),
            f("https://b.example/", 2),
            f("https://c.example/", 2),
        ]
    );
}

#[test]
fn depth_grows_by_one_per_level() {
    let mut c = crawl(vec![web("https://a.example/")], 4, 9);
    assert_eq!(c.depth(), 4);
    c.on_level_fetched(vec![fetch(&web("https://a.example/"))]);
    assert_eq!(c.depth(), 5);
    assert_eq!(c.frontier().len(), 2);
}

#[test]
fn largest_depth_ends_without_overflow() {
    let (outcome, fetched) = run(crawl(vec![web("https://a.example/")], 255, 255));
    assert!(outcome.is_ok());
    assert_eq!(fetched, vec![f("https://a.example/", 255)]);
}

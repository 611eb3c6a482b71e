use crawler::links::get_links;
use crawler::token::{Attribute, LinkQueue, Tag, TagKind, Token};
use crawler::web_url::{UrlError, WebUrl};

fn web(s: &str) -> WebUrl {
    WebUrl::parse(s).unwrap()
}

fn attr(name: &str, value: &str) -> Attribute {
    Attribute { name: name.to_string(), value: value.to_string() }
}

fn start(name: &str, attrs: Vec<Attribute>) -> Token {
    Token::TagToken(Tag { kind: TagKind::StartTag, name: name.to_string(), attrs })
}

fn end(name: &str) -> Token {
    Token::TagToken(Tag { kind: TagKind::EndTag, name: name.to_string(), attrs: vec![] })
}

fn anchor(href: &str) -> Token {
    start("a", vec![attr("href", href)])
}

fn texts(links: &[WebUrl]) -> Vec<String> {
    links.iter().map(|u| u.as_str().to_string()).collect()
}

#[test]
fn parse_keeps_absolute_url() {
    assert_eq!(web("https://example.com/x").as_str(), "https://example.com/x");
}

#[test]
fn parse_tells_relative_from_invalid() {
    assert!(matches!(WebUrl::parse("/docs"), Err(UrlError::RelativeUrlWithoutBase)));
    assert!(matches!(WebUrl::parse("http://[::1"), Err(UrlError::Invalid)));
}

#[test]
fn origin_drops_path_and_query() {
    assert_eq!(web("https://example.com/page?q=1").origin().as_str(), "https://example.com/");
}

#[test]
fn process_token_takes_hrefs_of_anchor_start_tags() {
    let mut q = LinkQueue::new();
    q.process_token(&start("a", vec![attr("href", "/one"), attr("class", "x"), attr("href", "/two")]));
    q.process_token(&start("link", vec![attr("href", "/style.css")]));
    q.process_token(&end("a"));
    q.process_token(&Token::Other);
    assert_eq!(q.links(), &vec!["/one".to_string(), "/two".to_string()]);
}

#[test]
fn page_without_anchors_has_no_links() {
    let toks = vec![start("p", vec![]), Token::Other, end("p"), start("img", vec![attr("href", "/i")])];
    let links = get_links(&web("https://example.com/"), &toks).unwrap();
    assert!(links.is_empty());
}

#[test]
fn empty_page_has_no_links() {
    let links = get_links(&web("https://example.com/"), &vec![]).unwrap();
    assert!(links.is_empty());
}

#[test]
fn absolute_href_is_kept() {
    let toks = vec![anchor("https://example.com/x")];
    let links = get_links(&web("https://other.org/a/b"), &toks).unwrap();
    assert_eq!(texts(&links), vec!["https://example.com/x".to_string()]);
    assert_eq!(links[0].as_str(), web("https://example.com/x").as_str());
}

#[test]
fn root_relative_href_resolves_on_origin() {
    let toks = vec![anchor("/docs")];
    let links = get_links(&web("https://example.com/page?q=1"), &toks).unwrap();
    assert_eq!(texts(&links), vec!["https://example.com/docs".to_string()]);
}

#[test]
fn path_relative_href_resolves_on_origin_not_page() {
    let toks = vec![anchor("guide/intro.html"), anchor("../up")];
    let links = get_links(&web("https://example.com/a/b/page.html?x=2"), &toks).unwrap();
    assert_eq!(
        texts(&links),
        vec!["https://example.com/guide/intro.html".to_string(), "https://example.com/up".to_string()]
    );
}

#[test]
fn links_keep_document_order_and_duplicates() {
    let toks = vec![
        anchor("/b"),
        Token::Other,
        start("a", vec![attr("href", "/c"), attr("href", "https://example.com/b")]),
        anchor("/b"),
    ];
    let links = get_links(&web("https://example.com/"), &toks).unwrap();
    assert_eq!(
        texts(&links),
        vec![
            "https://example.com/b".to_string(),
            "https://example.com/c".to_string(),
            "https://example.com/b".to_string(),
            "https://example.com/b".to_string(),
        ]
    );
}

#[test]
fn malformed_href_fails_extraction() {
    let toks = vec![anchor("/fine"), anchor("http://[::1"), anchor("https://exa mple.com/")];
    let err = get_links(&web("https://example.com/"), &toks).unwrap_err();
    assert_eq!(err.href, "http://[::1");
}

#[test]
fn scheme_with_bad_character_is_a_relative_reference() {
    let toks = vec![anchor("ht!tp://")];
    let links = get_links(&web("https://example.com/"), &toks).unwrap();
    assert_eq!(texts(&links), vec!["https://example.com/ht!tp://".to_string()]);
}

#[test]
fn extraction_is_idempotent() {
    let base = web("https://example.com/page?q=1");
    let toks = vec![anchor("/docs"), anchor("https://example.org/"), anchor("x")];
    let first = texts(&get_links(&base, &toks).unwrap());
    let second = texts(&get_links(&base, &toks).unwrap());
    assert_eq!(first, second);
}

use crawl_core::urls::{parse_url, resolve_href};

#[test]
fn parse_gives_components() {
    let u = parse_url("https://example.com/dir/page?q=1#frag").unwrap();
    assert_eq!(u.text, "https://example.com/dir/page?q=1#frag");
    assert_eq!(u.host, "example.com");
    assert_eq!(u.path, "/dir/page");
}

#[test]
fn normalize_strips_query_and_fragment() {
    let u = parse_url("https://example.com/dir/page?q=1#frag").unwrap();
    let n = u.normalize();
    assert_eq!(n.text, "https://example.com/dir/page");
    assert_eq!(n.host, "example.com");
    assert_eq!(n.path, "/dir/page");
}

#[test]
fn normalize_is_idempotent() {
    for s in [
        "https://example.com/dir/page?q=1#frag",
        "https://example.com/",
        "https://example.com/a?b#c",
        "https://user@example.com:8080/x%3Fy?z",
    ] {
        let u = parse_url(s).unwrap();
        let once = u.normalize();
        let twice = once.normalize();
        assert_eq!(once.text, twice.text);
        assert_eq!(once.host, twice.host);
        assert_eq!(once.path, twice.path);
    }
}

#[test]
fn relative_href_joins_against_page() {
    let page = parse_url("https://a.example/dir/page").unwrap();
    let r = resolve_href(&page, "../x").unwrap();
    assert_eq!(r.text, "https://a.example/x");
}

#[test]
fn absolute_href_kept_unchanged() {
    let page = parse_url("https://a.example/dir/page").unwrap();
    let r = resolve_href(&page, "https://b.example/y").unwrap();
    assert_eq!(r.text, "https://b.example/y");
}

#[test]
fn protocol_relative_and_fragment_hrefs_resolve() {
    let page = parse_url("https://a.example/dir/page").unwrap();
    let r = resolve_href(&page, "//b.example/z").unwrap();
    assert_eq!(r.text, "https://b.example/z");
    let f = resolve_href(&page, "#sec").unwrap();
    assert_eq!(f.text, "https://a.example/dir/page#sec");
}

#[test]
fn unparseable_seed_is_rejected() {
    assert!(parse_url("not a url").is_none());
    assert!(parse_url("/relative/only").is_none());
}

use crawl_core::extract::{body_text, extract_links};
use crawl_core::urls::parse_url;

#[test]
fn body_text_replaces_invalid_utf8() {
    let bytes: Vec<u8> = vec![0xff, b'o', b'k'];
    let text = body_text(&bytes);
    assert_eq!(text, "\u{FFFD}ok");
    let clean: Vec<u8> = b"plain".to_vec();
    assert_eq!(body_text(&clean), "plain");
}

#[test]
fn extract_links_resolves_in_order_and_drops_bad_hrefs() {
    let page = parse_url("https://a.example/dir/page").unwrap();
    let body = "<a href=\"../x\">up</a>\
                <a href=\"https://b.example/y\">abs</a>\
                <a href=\"http://[bad\">broken</a>\
                <a>no href</a>";
    let links = extract_links(&page, body);
    let texts: Vec<&str> = links.iter().map(|u| u.text.as_str()).collect();
    assert_eq!(texts, vec!["https://a.example/x", "https://b.example/y"]);
}

#[test]
fn unparseable_page_yields_no_links() {
    let page = parse_url("https://a.example/").unwrap();
    let links = extract_links(&page, "just words, no anchors");
    assert!(links.is_empty());
}

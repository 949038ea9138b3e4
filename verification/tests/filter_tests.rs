use crawl_core::filter::{default_config, is_forbidden};
use crawl_core::urls::parse_url;

#[test]
fn forbidden_host_substring_is_rejected() {
    let config = default_config(false);
    for s in [
        "https://google.com/x",
        "https://www.google.com/search",
        "https://youtube.com/watch",
        "https://music.apple.com/album",
        "https://x.com/feed",
    ] {
        let u = parse_url(s).unwrap().normalize();
        assert!(is_forbidden(&config, &u), "{s} should be forbidden");
    }
}

#[test]
fn forbidden_path_substring_is_rejected() {
    let config = default_config(false);
    for s in [
        "https://example.com/legal/terms",
        "https://example.com/about/privacy",
        "https://example.com/support",
        "https://example.com/community-guidelines",
    ] {
        let u = parse_url(s).unwrap().normalize();
        assert!(is_forbidden(&config, &u), "{s} should be forbidden");
    }
}

#[test]
fn ordinary_urls_pass_the_filter() {
    let config = default_config(false);
    for s in [
        "https://example.com/a",
        "https://other.com/c",
        "https://axis.com/",
    ] {
        let u = parse_url(s).unwrap().normalize();
        assert!(!is_forbidden(&config, &u), "{s} should pass");
    }
}

#[test]
fn match_is_case_sensitive_substring() {
    let config = default_config(false);
    let upper = parse_url("https://GOOGLE.com/x").unwrap().normalize();
    // the url crate lowercases registrable hosts, so this one is caught
    assert!(is_forbidden(&config, &upper));
    let inner = parse_url("https://notgoogleatall.example/x").unwrap().normalize();
    assert!(is_forbidden(&config, &inner));
}

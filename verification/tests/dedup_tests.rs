use crawl_core::dedup::DedupSet;

#[test]
fn first_claim_wins_repeats_refused() {
    let mut set = DedupSet::new();
    let key = String::from("https://example.com/a");
    assert!(set.claim(&key));
    assert!(!set.claim(&key));
    assert!(!set.claim(&key));
    assert_eq!(set.len(), 1);
}

#[test]
fn size_counts_distinct_keys_only() {
    let mut set = DedupSet::new();
    let urls = [
        "https://example.com/a",
        "https://example.com/b",
        "https://example.com/a",
        "https://other.com/c",
        "https://example.com/b",
    ];
    let mut granted = 0;
    for u in urls {
        if set.claim(&String::from(u)) {
            granted += 1;
        }
    }
    assert_eq!(granted, 3);
    assert_eq!(set.len(), 3);
    let listed = set.list();
    assert_eq!(listed.len(), 3);
    assert!(listed.contains(&String::from("https://example.com/a")));
    assert!(listed.contains(&String::from("https://example.com/b")));
    assert!(listed.contains(&String::from("https://other.com/c")));
}

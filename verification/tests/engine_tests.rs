use crawl_core::codec::{cache_key, encode_entry, decode_entry};
use crawl_core::engine::{Crawler, Monitor, Phase, next_phase};
use crawl_core::extract::body_text;
use crawl_core::filter::default_config;
use crawl_core::urls::{parse_url, CrawlUrl};

/// A fixed page graph standing in for the network, plus an in-memory stand-in
/// for the on-disk cache. Returns the sorted visited set, the URLs actually
/// fetched from the "network", and the final detector phase.
fn run_crawl(
    seed: &str,
    pages: &[(&str, &str)],
    cache: &mut Vec<(String, Vec<u8>)>,
    count_words: bool,
) -> (Vec<String>, Vec<String>, Phase, Crawler) {
    let mut crawler = Crawler::new(default_config(count_words));
    let mut monitor = Monitor::new();
    let mut frontier: Vec<CrawlUrl> = Vec::new();
    let mut network_fetches: Vec<String> = Vec::new();

    let seed = parse_url(seed).expect("malformed seed URL");
    frontier.push(seed);
    monitor.on_submitted();

    let mut phase = Phase::Running;
    while let Some(message) = frontier.pop() {
        if let Some(page) = crawler.claim_url(&message) {
            let key = cache_key(&page);
            let cached = cache.iter().find(|(k, _)| *k == key).map(|(_, v)| v.clone());
            let body: Option<Vec<u8>> = match cached {
                Some(entry) => decode_entry(&entry).ok(),
                None => {
                    network_fetches.push(page.text.clone());
                    let found = pages.iter().find(|(u, _)| *u == page.text);
                    // an unknown URL stands for a transport failure
                    found.map(|(_, b)| {
                        let bytes = b.as_bytes().to_vec();
                        cache.push((key.clone(), encode_entry(&bytes)));
                        bytes
                    })
                }
            };
            if let Some(bytes) = body {
                let text = body_text(&bytes);
                for link in crawler.record_page(&page, &text) {
                    frontier.push(link);
                    monitor.on_submitted();
                }
            }
        }
        monitor.on_processed();
        phase = next_phase(phase, monitor.quiescent(frontier.len()));
    }
    let mut visited = crawler.visited_list().clone();
    visited.sort();
    (visited, network_fetches, phase, crawler)
}

const GRAPH_A: &[(&str, &str)] = &[
    (
        "https://example.com/a",
        "<html><body><a href=\"/b\">b</a><a href=\"https://other.com/c\">c</a>\
         <a href=\"https://google.com/x\">x</a></body></html>",
    ),
    ("https://example.com/b", "<html><body></body></html>"),
    ("https://other.com/c", "<html><body></body></html>"),
];

#[test]
fn crawl_visits_reachable_pages_and_skips_forbidden() {
    let mut cache = Vec::new();
    let (visited, fetched, phase, _) = run_crawl("https://example.com/a", GRAPH_A, &mut cache, false);
    assert_eq!(
        visited,
        vec![
            String::from("https://example.com/a"),
            String::from("https://example.com/b"),
            String::from("https://other.com/c"),
        ],
    );
    assert!(!fetched.contains(&String::from("https://google.com/x")));
    assert_eq!(phase, Phase::Done);
}

const GRAPH_CYCLE: &[(&str, &str)] = &[
    ("https://example.com/a", "<a href=\"https://example.com/b\">b</a>"),
    ("https://example.com/b", "<a href=\"https://example.com/a\">a</a>"),
];

#[test]
fn cyclic_graph_terminates_each_page_fetched_once() {
    let mut cache = Vec::new();
    let (visited, fetched, phase, _) =
        run_crawl("https://example.com/a", GRAPH_CYCLE, &mut cache, false);
    assert_eq!(
        visited,
        vec![
            String::from("https://example.com/a"),
            String::from("https://example.com/b"),
        ],
    );
    let a_fetches = fetched.iter().filter(|u| **u == "https://example.com/a").count();
    let b_fetches = fetched.iter().filter(|u| **u == "https://example.com/b").count();
    assert_eq!(a_fetches, 1);
    assert_eq!(b_fetches, 1);
    assert_eq!(phase, Phase::Done);
}

#[test]
fn second_run_hits_cache_and_visits_the_same_set() {
    let mut cache = Vec::new();
    let (first_visited, first_fetched, _, _) =
        run_crawl("https://example.com/a", GRAPH_A, &mut cache, false);
    assert!(!first_fetched.is_empty());
    let (second_visited, second_fetched, phase, _) =
        run_crawl("https://example.com/a", GRAPH_A, &mut cache, false);
    assert_eq!(second_visited, first_visited);
    assert_eq!(second_fetched.len(), 0);
    assert_eq!(phase, Phase::Done);
}

const GRAPH_WORDS: &[(&str, &str)] = &[
    (
        "https://example.com/a",
        "<p>Hello World</p><a href=\"/b\">go</a>",
    ),
    ("https://example.com/b", "<p>hello again</p>"),
];

#[test]
fn crawl_tallies_words_across_pages() {
    let mut cache = Vec::new();
    let (_, _, _, crawler) = run_crawl("https://example.com/a", GRAPH_WORDS, &mut cache, true);
    let words = crawler.word_list();
    let get = |w: &str| {
        words.iter().find(|p| p.0 == w).map(|p| p.1).unwrap_or(0)
    };
    assert_eq!(get("hello"), 2);
    assert_eq!(get("world"), 1);
    assert_eq!(get("again"), 1);
    assert_eq!(get("go"), 1);
}

#[test]
fn detector_stays_running_while_work_is_outstanding() {
    let mut monitor = Monitor::new();
    monitor.on_submitted();
    assert!(!monitor.quiescent(1));
    assert!(!monitor.quiescent(0));
    monitor.on_processed();
    assert!(monitor.quiescent(0));
    assert!(!monitor.quiescent(3));
    assert_eq!(next_phase(Phase::Running, false), Phase::Running);
    assert_eq!(next_phase(Phase::Running, true), Phase::Done);
    assert_eq!(next_phase(Phase::Done, false), Phase::Done);
}

use crawl_core::tally::WordTally;
use crawl_core::extract::page_tokens;
use crawl_core::report::sort_by_count;

fn tally_of_tokens(tokens: &[String]) -> WordTally {
    let mut t = WordTally::new();
    for w in tokens {
        t.bump(w);
    }
    t
}

#[test]
fn page_tokens_are_lowercased_splits() {
    let tokens = page_tokens("<html><body><p>Hello World</p></body></html>");
    assert_eq!(tokens, vec![String::from("hello"), String::from("world")]);
}

#[test]
fn merge_of_two_pages_counts_all_words() {
    let a = page_tokens("<p>Hello World</p>");
    let b = page_tokens("<p>hello again</p>");

    let mut first = tally_of_tokens(&a);
    let second = tally_of_tokens(&b);
    first.merge(&second);

    assert_eq!(first.get(&String::from("hello")), 2);
    assert_eq!(first.get(&String::from("world")), 1);
    assert_eq!(first.get(&String::from("again")), 1);
    assert_eq!(first.get(&String::from("absent")), 0);
}

#[test]
fn merge_result_is_order_independent() {
    let a = page_tokens("<p>Hello World</p>");
    let b = page_tokens("<p>hello again</p>");

    let mut ab = tally_of_tokens(&a);
    ab.merge(&tally_of_tokens(&b));
    let mut ba = tally_of_tokens(&b);
    ba.merge(&tally_of_tokens(&a));

    for w in ["hello", "world", "again", "never"] {
        let w = String::from(w);
        assert_eq!(ab.get(&w), ba.get(&w));
    }
}

#[test]
fn counts_saturate_instead_of_overflowing() {
    let mut t = WordTally::new();
    let w = String::from("word");
    t.bump_by(&w, u64::MAX - 1);
    t.bump(&w);
    assert_eq!(t.get(&w), u64::MAX);
    t.bump(&w);
    assert_eq!(t.get(&w), u64::MAX);
}

#[test]
fn report_rows_are_sorted_by_count() {
    let mut t = WordTally::new();
    for (w, n) in [("cc", 3u64), ("a", 1), ("bb", 2), ("dddd", 4)] {
        t.bump_by(&String::from(w), n);
    }
    let rows = sort_by_count(t.entries_list());
    let counts: Vec<u64> = rows.iter().map(|p| p.1).collect();
    assert_eq!(counts, vec![1, 2, 3, 4]);
    let words: Vec<&str> = rows.iter().map(|p| p.0.as_str()).collect();
    assert_eq!(words, vec!["a", "bb", "cc", "dddd"]);
}

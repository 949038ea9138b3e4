//! The crawl engine's per-message logic and the completion protocol. A
//! worker that pulled a URL from the frontier first calls `claim_url`
//! (normalize, filter, dedup admission); only a granted claim may be
//! fetched. After the fetch it calls `record_page`, which yields the
//! resolved outbound links to feed back to the frontier and folds the
//! page's words into the global tally. The `Monitor` counts submitted and
//! processed messages; the crawl is done when they agree and the frontier
//! is empty.

use vstd::prelude::*;
use vstd::string::*;
use crate::urls::{CrawlUrl, UrlModel};
use crate::filter::{Config, forbidden_spec, is_forbidden};
use crate::dedup::{DedupSet, claim_granted};
use crate::tally::{WordTally, bump_spec, merge_spec};
use crate::extract::{extract_links, page_tokens, links_spec, tokens_spec, hrefs_of, texts_of};
use crate::text::strip_spec;

verus! {

/// The tally of a sequence of tokens, counted in order.
pub open spec fn tally_of(tokens: Seq<Seq<char>>) -> Map<Seq<char>, u64>
    decreases tokens.len(),
{
    if tokens.len() == 0 {
        Map::empty()
    } else {
        bump_spec(tally_of(tokens.drop_last()), tokens.last(), 1)
    }
}

/// A page's own word tally, built from its text alone: every token of
/// every text-bearing tag, lowercased and counted. Touches no shared
/// state, so a worker runs it outside any critical section and merges the
/// result afterwards (`Crawler::merge_tally`).
pub fn page_tally(body: &str) -> (r: WordTally)
    ensures
        r.wf(),
        r@ == tally_of(tokens_spec(texts_of(body@))),
{
    let tokens = page_tokens(body);
    let ghost tk = tokens.deep_view();
    let mut local = WordTally::new();
    let n = tokens.len();
    let mut j: usize = 0;
    proof {
        assert(tally_of(tk.take(0)) =~= Map::<Seq<char>, u64>::empty());
    }
    while j < n
        invariant
            local.wf(),
            n == tokens.len(),
            tk == tokens.deep_view(),
            j <= n,
            local@ == tally_of(tk.take(j as int)),
        decreases n - j,
    {
        assert(tk[j as int] == tokens@[j as int]@);
        local.bump(&tokens[j]);
        proof {
            assert(tk.take(j + 1).drop_last() =~= tk.take(j as int));
            assert(tk.take(j + 1).last() == tk[j as int]);
        }
        j += 1;
    }
    proof {
        assert(tk.take(n as int) =~= tk);
    }
    local
}

/// The shared state of a crawl: options, the dedup set and the global word
/// tally. Workers touch it only through `claim_url` and `record_page`.
pub struct Crawler {
    config: Config,
    visited: DedupSet,
    words: WordTally,
}

impl Crawler {
    pub closed spec fn wf(&self) -> bool {
        self.visited.wf() && self.words.wf()
    }

    /// The options the crawl was started with.
    pub closed spec fn options(&self) -> Config {
        self.config
    }

    /// The normalized serializations claimed so far.
    pub closed spec fn visited_set(&self) -> Set<Seq<char>> {
        self.visited@
    }

    /// The global word tally so far.
    pub closed spec fn word_counts(&self) -> Map<Seq<char>, u64> {
        self.words@
    }

    pub fn new(config: Config) -> (r: Crawler)
        ensures
            r.wf(),
            r.options() == config,
            r.visited_set() == Set::<Seq<char>>::empty(),
            r.word_counts() == Map::<Seq<char>, u64>::empty(),
    {
        Crawler { config, visited: DedupSet::new(), words: WordTally::new() }
    }

    /// The admission pipeline for one frontier message: normalize it, drop
    /// it if forbidden, then claim it in the dedup set. Returns the
    /// normalized URL exactly when this call claimed it — the only case in
    /// which the caller may fetch. Forbidden URLs are never claimed, so
    /// they are never fetched.
    pub fn claim_url(&mut self, raw: &CrawlUrl) -> (r: Option<CrawlUrl>)
        requires
            old(self).wf(),
        ensures
            final(self).wf(),
            final(self).options() == old(self).options(),
            final(self).word_counts() == old(self).word_counts(),
            final(self).visited_set() == claim_step(
                old(self).visited_set(),
                raw@,
                old(self).options().forbidden_hosts.deep_view(),
                old(self).options().forbidden_paths.deep_view(),
            ),
            forbidden_spec(
                old(self).options().forbidden_hosts.deep_view(),
                old(self).options().forbidden_paths.deep_view(),
                raw@.norm(),
            ) ==> r is None && final(self).visited_set() == old(self).visited_set(),
            !forbidden_spec(
                old(self).options().forbidden_hosts.deep_view(),
                old(self).options().forbidden_paths.deep_view(),
                raw@.norm(),
            ) ==> {
                &&& final(self).visited_set() == old(self).visited_set().insert(
                    strip_spec(raw@.text),
                )
                &&& (r is Some <==> claim_granted(old(self).visited_set(), strip_spec(raw@.text)))
                &&& (r matches Some(u) ==> u@ == raw@.norm())
            },
    {
        let norm = raw.normalize();
        if is_forbidden(&self.config, &norm) {
            return None;
        }
        if self.visited.claim(&norm.text) {
            Some(norm)
        } else {
            None
        }
    }

    /// Record a fetched page: resolve and return its outbound links (in
    /// order, unresolvable hrefs dropped), and, when word tallying is on,
    /// merge the page's token tally into the global one.
    pub fn record_page(&mut self, page: &CrawlUrl, body: &str) -> (r: Vec<CrawlUrl>)
        requires
            old(self).wf(),
        ensures
            final(self).wf(),
            final(self).options() == old(self).options(),
            final(self).visited_set() == old(self).visited_set(),
            r@.map_values(|u: CrawlUrl| u@) == links_spec(page@.text, hrefs_of(body@)),
            old(self).options().count_words ==> final(self).word_counts() == merge_spec(
                old(self).word_counts(),
                tally_of(tokens_spec(texts_of(body@))),
            ),
            !old(self).options().count_words ==> final(self).word_counts() == old(
                self,
            ).word_counts(),
    {
        let links = extract_links(page, body);
        if self.config.count_words {
            let local = page_tally(body);
            self.merge_tally(&local);
        }
        links
    }

    /// Merge a locally built page tally into the global one. This is the
    /// only shared-state step of the tally path; the parse and tokenize
    /// work (`page_tally`) runs outside the caller's critical section.
    pub fn merge_tally(&mut self, local: &WordTally)
        requires
            old(self).wf(),
            local.wf(),
        ensures
            final(self).wf(),
            final(self).options() == old(self).options(),
            final(self).visited_set() == old(self).visited_set(),
            final(self).word_counts() == merge_spec(old(self).word_counts(), local@),
    {
        self.words.merge(local);
    }

    /// The visited report: the claimed normalized serializations, one each.
    pub fn visited_list(&self) -> (r: &Vec<String>)
        requires
            self.wf(),
        ensures
            r.deep_view().to_set() == self.visited_set(),
            r.deep_view().no_duplicates(),
    {
        self.visited.list()
    }

    /// The tallied words and counts, one entry per word.
    pub fn word_list(&self) -> (r: &Vec<(String, u64)>)
        requires
            self.wf(),
        ensures
            crate::tally::map_of(r@.map_values(|p: (String, u64)| (p.0@, p.1)))
                == self.word_counts(),
            crate::tally::unique_keys(r@.map_values(|p: (String, u64)| (p.0@, p.1))),
    {
        self.words.entries_list()
    }
}

/// The completion detector's counters: messages submitted to the frontier
/// and messages fully processed (links pushed back before being counted).
/// Processing never outruns submission.
pub struct Monitor {
    submitted: u64,
    processed: u64,
}

impl Monitor {
    pub open spec fn wf(&self) -> bool {
        self.processed_count() <= self.submitted_count()
    }

    pub closed spec fn submitted_count(&self) -> u64 {
        self.submitted
    }

    pub closed spec fn processed_count(&self) -> u64 {
        self.processed
    }

    pub fn new() -> (r: Monitor)
        ensures
            r.wf(),
            r.submitted_count() == 0,
            r.processed_count() == 0,
    {
        Monitor { submitted: 0, processed: 0 }
    }

    /// A message entered the frontier (counted before any dequeue of it can
    /// be processed, which closes the poll-race window).
    pub fn on_submitted(&mut self)
        requires
            old(self).wf(),
            old(self).submitted_count() < u64::MAX,
        ensures
            final(self).wf(),
            final(self).submitted_count() == old(self).submitted_count() + 1,
            final(self).processed_count() == old(self).processed_count(),
    {
        self.submitted = self.submitted + 1;
    }

    /// A dequeued message was fully processed, its discovered links already
    /// submitted.
    pub fn on_processed(&mut self)
        requires
            old(self).wf(),
            old(self).processed_count() < old(self).submitted_count(),
        ensures
            final(self).wf(),
            final(self).processed_count() == old(self).processed_count() + 1,
            final(self).submitted_count() == old(self).submitted_count(),
    {
        self.processed = self.processed + 1;
    }

    /// Messages submitted so far.
    pub fn submitted(&self) -> (r: u64)
        ensures
            r == self.submitted_count(),
    {
        self.submitted
    }

    /// Messages fully processed so far.
    pub fn processed(&self) -> (r: u64)
        ensures
            r == self.processed_count(),
    {
        self.processed
    }

    /// Quiescence: every submitted message was fully processed and the
    /// frontier holds nothing.
    pub fn quiescent(&self, frontier_len: usize) -> (r: bool)
        ensures
            r <==> (self.processed_count() == self.submitted_count() && frontier_len == 0),
    {
        self.processed == self.submitted && frontier_len == 0
    }
}

/// The completion detector's state.
#[derive(Clone, Copy, PartialEq, Eq, Structural, Debug)]
pub enum Phase {
    Running,
    Done,
}

/// One sampling step of the completion detector: the crawl is declared done
/// exactly when it was already done or the sample was quiescent.
pub fn next_phase(current: Phase, quiet: bool) -> (r: Phase)
    ensures
        r is Done <==> (current is Done || quiet),
{
    match current {
        Phase::Done => Phase::Done,
        Phase::Running => if quiet {
            Phase::Done
        } else {
            Phase::Running
        },
    }
}

/// One `claim_url` transition at the visited-set level: a forbidden
/// message leaves the set alone, any other has its normalized
/// serialization inserted (a repeat changes nothing).
pub open spec fn claim_step(
    s: Set<Seq<char>>,
    m: UrlModel,
    hosts: Seq<Seq<char>>,
    paths: Seq<Seq<char>>,
) -> Set<Seq<char>> {
    if forbidden_spec(hosts, paths, m.norm()) {
        s
    } else {
        s.insert(strip_spec(m.text))
    }
}

/// The visited set after a whole run of claims, applied in order.
pub open spec fn run_claims(
    s: Set<Seq<char>>,
    msgs: Seq<UrlModel>,
    hosts: Seq<Seq<char>>,
    paths: Seq<Seq<char>>,
) -> Set<Seq<char>>
    decreases msgs.len(),
{
    if msgs.len() == 0 {
        s
    } else {
        claim_step(run_claims(s, msgs.drop_last(), hosts, paths), msgs.last(), hosts, paths)
    }
}

/// The normalized serializations that the non-forbidden messages of a run
/// contribute.
pub open spec fn claimed_keys(
    msgs: Seq<UrlModel>,
    hosts: Seq<Seq<char>>,
    paths: Seq<Seq<char>>,
) -> Set<Seq<char>> {
    Set::new(
        |k: Seq<char>|
            exists|i: int|
                0 <= i < msgs.len() && !forbidden_spec(hosts, paths, msgs[i].norm()) && k
                    == strip_spec(msgs[i].text),
    )
}

/// A whole run of claims — any finite sequence of `claim_url` calls, in
/// whatever order the workers serialized them — ends with exactly the
/// initial keys plus the normalized serialization of every non-forbidden
/// message: nothing is ever removed, forbidden messages contribute
/// nothing, and (the set being a set) the final size is the number of
/// distinct normalized URLs ever admitted.
pub proof fn lemma_run_claims(
    s0: Set<Seq<char>>,
    msgs: Seq<UrlModel>,
    hosts: Seq<Seq<char>>,
    paths: Seq<Seq<char>>,
)
    ensures
        run_claims(s0, msgs, hosts, paths) == s0.union(claimed_keys(msgs, hosts, paths)),
        s0.subset_of(run_claims(s0, msgs, hosts, paths)),
    decreases msgs.len(),
{
    if msgs.len() == 0 {
        assert(run_claims(s0, msgs, hosts, paths) =~= s0.union(claimed_keys(msgs, hosts, paths)));
    } else {
        let prefix = msgs.drop_last();
        let m = msgs.last();
        lemma_run_claims(s0, prefix, hosts, paths);
        assert forall|k: Seq<char>| claimed_keys(msgs, hosts, paths).contains(k) implies (
        claimed_keys(prefix, hosts, paths).contains(k) || (!forbidden_spec(hosts, paths, m.norm())
            && k == strip_spec(m.text))) by {
            let i = choose|i: int|
                0 <= i < msgs.len() && !forbidden_spec(hosts, paths, msgs[i].norm()) && k
                    == strip_spec(msgs[i].text);
            if i < msgs.len() - 1 {
                assert(prefix[i] == msgs[i]);
            }
        };
        assert forall|k: Seq<char>| claimed_keys(prefix, hosts, paths).contains(k)
            implies claimed_keys(msgs, hosts, paths).contains(k) by {
            let i = choose|i: int|
                0 <= i < prefix.len() && !forbidden_spec(hosts, paths, prefix[i].norm()) && k
                    == strip_spec(prefix[i].text);
            assert(msgs[i] == prefix[i]);
        };
        if !forbidden_spec(hosts, paths, m.norm()) {
            assert(msgs[msgs.len() - 1] == m);
            assert(claimed_keys(msgs, hosts, paths).contains(strip_spec(m.text)));
        }
        assert(run_claims(s0, msgs, hosts, paths) =~= s0.union(claimed_keys(msgs, hosts, paths)));
    }
}

} // verus!

//! The dedup set: the set of normalized URL serializations already claimed
//! for crawling. `claim` is the single admission gate — it inserts the key
//! if and only if it is absent and reports whether this caller performed the
//! insertion, the crawl's at-most-once-fetch guarantee.

use vstd::prelude::*;
use vstd::string::*;

verus! {

pub struct DedupSet {
    items: Vec<String>,
}

impl View for DedupSet {
    type V = Set<Seq<char>>;

    closed spec fn view(&self) -> Set<Seq<char>> {
        self.items.deep_view().to_set()
    }
}

/// Whether a `claim` of `key` against a set whose claimed keys are `s`
/// is granted.
pub open spec fn claim_granted(s: Set<Seq<char>>, key: Seq<char>) -> bool {
    !s.contains(key)
}

impl DedupSet {
    pub closed spec fn wf(&self) -> bool {
        self.items.deep_view().no_duplicates()
    }

    pub fn new() -> (r: DedupSet)
        ensures
            r.wf(),
            r@ == Set::<Seq<char>>::empty(),
    {
        let r = DedupSet { items: Vec::new() };
        proof {
            assert(r.items.deep_view() =~= Seq::<Seq<char>>::empty());
            assert(r.items.deep_view().to_set() =~= Set::<Seq<char>>::empty());
        }
        r
    }

    /// Atomic check-and-insert: returns true only to the caller that
    /// actually inserted `key`; later calls with the same key get false and
    /// leave the set unchanged.
    pub fn claim(&mut self, key: &String) -> (r: bool)
        requires
            old(self).wf(),
        ensures
            final(self).wf(),
            r == claim_granted(old(self)@, key@),
            final(self)@ == old(self)@.insert(key@),
    {
        let ghost keys = self.items.deep_view();
        let n = self.items.len();
        let mut i: usize = 0;
        while i < n
            invariant
                self.items == old(self).items,
                self.wf(),
                n == self.items.len(),
                keys == self.items.deep_view(),
                i <= n,
                forall|k: int| 0 <= k < i ==> keys[k] != key@,
            decreases n - i,
        {
            assert(keys[i as int] == self.items@[i as int]@);
            if self.items[i].eq(key) {
                proof {
                    assert(keys[i as int] == key@);
                    assert(keys.contains(key@));
                    assert(self@.contains(key@));
                    assert(self@.insert(key@) =~= self@);
                }
                return false;
            }
            i += 1;
        }
        proof {
            assert(forall|k: int| 0 <= k < keys.len() ==> keys[k] != key@);
            assert(!keys.contains(key@));
            assert(!self@.contains(key@));
        }
        self.items.push(key.clone());
        proof {
            let pushed = keys.push(key@);
            assert(self.items.deep_view() =~= pushed);
            assert forall|x: Seq<char>| #[trigger] pushed.contains(x)
                implies keys.contains(x) || x == key@ by {
                let idx = choose|idx: int| 0 <= idx < pushed.len() && pushed[idx] == x;
                if idx < keys.len() {
                    assert(keys[idx] == x);
                }
            };
            assert forall|x: Seq<char>| keys.contains(x) || x == key@
                implies #[trigger] pushed.contains(x) by {
                if keys.contains(x) {
                    let idx = choose|idx: int| 0 <= idx < keys.len() && keys[idx] == x;
                    assert(pushed[idx] == x);
                } else {
                    assert(pushed[keys.len() as int] == x);
                }
            };
            assert(pushed.to_set() =~= keys.to_set().insert(key@));
            assert forall|a: int, b: int| 0 <= a < b < pushed.len()
                implies pushed[a] != pushed[b] by {
                if b < keys.len() {
                    assert(pushed[a] == keys[a] && pushed[b] == keys[b]);
                } else {
                    assert(pushed[b] == key@ && keys[a] == pushed[a]);
                    assert(keys.contains(keys[a]));
                }
            };
        }
        true
    }

    /// How many distinct keys have been admitted.
    pub fn len(&self) -> (r: usize)
        requires
            self.wf(),
        ensures
            r == self@.len(),
    {
        proof {
            self.items.deep_view().unique_seq_to_set();
        }
        self.items.len()
    }

    /// The admitted keys, one occurrence each.
    pub fn list(&self) -> (r: &Vec<String>)
        requires
            self.wf(),
        ensures
            r.deep_view().to_set() == self@,
            r.deep_view().no_duplicates(),
    {
        &self.items
    }
}

/// At most one admission of a key is ever granted: once `key` has been
/// admitted, any later `claim` of it — whatever else was admitted in
/// between — is refused.
pub proof fn lemma_claim_at_most_once(s: Set<Seq<char>>, t: Set<Seq<char>>, key: Seq<char>)
    requires
        s.insert(key).subset_of(t),
    ensures
        !claim_granted(t, key),
{
}

/// Admission only grows the set, and a granted admission grows its size by
/// exactly one: the final size is the number of distinct keys ever granted.
pub proof fn lemma_claim_counts(s: Set<Seq<char>>, key: Seq<char>)
    requires
        s.finite(),
    ensures
        s.subset_of(s.insert(key)),
        claim_granted(s, key) ==> s.insert(key).len() == s.len() + 1,
        !claim_granted(s, key) ==> s.insert(key) == s,
{
    vstd::set::axiom_set_insert_len(s, key);
    if !claim_granted(s, key) {
        assert(s.insert(key) =~= s);
    }
}

} // verus!

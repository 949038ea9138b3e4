//! The word tally: a map from lowercased token to occurrence count.
//! Workers build a local tally per page and merge it into the shared global
//! one; merging sums counts per key (saturating), and is commutative and
//! associative, so the merged tally does not depend on the order in which
//! pages finish.

use vstd::prelude::*;
use vstd::string::*;

verus! {

/// Saturating addition of two counts.
pub open spec fn sat_add(x: u64, y: u64) -> u64 {
    if x + y > u64::MAX {
        u64::MAX
    } else {
        (x + y) as u64
    }
}

/// The count of `k` in `m`, zero when absent.
pub open spec fn count_of(m: Map<Seq<char>, u64>, k: Seq<char>) -> u64 {
    if m.contains_key(k) {
        m[k]
    } else {
        0
    }
}

/// One occurrence group added to a tally: the count of `k` grows by `n`.
pub open spec fn bump_spec(m: Map<Seq<char>, u64>, k: Seq<char>, n: u64) -> Map<Seq<char>, u64> {
    m.insert(k, sat_add(count_of(m, k), n))
}

/// Two tallies merged: counts summed per key.
pub open spec fn merge_spec(
    a: Map<Seq<char>, u64>,
    b: Map<Seq<char>, u64>,
) -> Map<Seq<char>, u64> {
    Map::new(
        |k: Seq<char>| a.contains_key(k) || b.contains_key(k),
        |k: Seq<char>| sat_add(count_of(a, k), count_of(b, k)),
    )
}

/// The map an association list denotes (later entries win; with unique keys
/// the order is immaterial).
pub open spec fn map_of(entries: Seq<(Seq<char>, u64)>) -> Map<Seq<char>, u64>
    decreases entries.len(),
{
    if entries.len() == 0 {
        Map::empty()
    } else {
        map_of(entries.drop_last()).insert(entries.last().0, entries.last().1)
    }
}

/// Unique keys in an association list.
pub open spec fn unique_keys(entries: Seq<(Seq<char>, u64)>) -> bool {
    forall|i: int, j: int|
        0 <= i < j < entries.len() ==> entries[i].0 != entries[j].0
}

proof fn lemma_map_of_lookup(entries: Seq<(Seq<char>, u64)>, k: Seq<char>)
    ensures
        map_of(entries).contains_key(k) <==> (exists|i: int|
            0 <= i < entries.len() && entries[i].0 == k),
        unique_keys(entries) ==> forall|i: int|
            0 <= i < entries.len() && entries[i].0 == k ==> map_of(entries)[k] == entries[i].1,
    decreases entries.len(),
{
    if entries.len() > 0 {
        let prefix = entries.drop_last();
        lemma_map_of_lookup(prefix, k);
        assert(forall|i: int| 0 <= i < prefix.len() ==> prefix[i] == entries[i]);
        if map_of(entries).contains_key(k) {
            if entries.last().0 != k {
                let w = choose|i: int| 0 <= i < prefix.len() && prefix[i].0 == k;
                assert(entries[w].0 == k);
            } else {
                assert(entries[entries.len() - 1].0 == k);
            }
        }
    }
}

/// A tally as an association list with unique keys.
pub struct WordTally {
    entries: Vec<(String, u64)>,
}

impl WordTally {
    pub closed spec fn pairs(&self) -> Seq<(Seq<char>, u64)> {
        self.entries@.map_values(|p: (String, u64)| (p.0@, p.1))
    }

    pub closed spec fn wf(&self) -> bool {
        unique_keys(self.pairs())
    }
}

impl View for WordTally {
    type V = Map<Seq<char>, u64>;

    closed spec fn view(&self) -> Map<Seq<char>, u64> {
        map_of(self.pairs())
    }
}

impl WordTally {
    pub fn new() -> (r: WordTally)
        ensures
            r.wf(),
            r@ == Map::<Seq<char>, u64>::empty(),
    {
        let r = WordTally { entries: Vec::new() };
        proof {
            assert(r.pairs() =~= Seq::<(Seq<char>, u64)>::empty());
        }
        r
    }

    /// The count recorded for a word (zero when the word was never seen).
    pub fn get(&self, word: &String) -> (r: u64)
        requires
            self.wf(),
        ensures
            r == count_of(self@, word@),
    {
        proof {
            lemma_map_of_lookup(self.pairs(), word@);
        }
        let n = self.entries.len();
        let mut i: usize = 0;
        while i < n
            invariant
                self.wf(),
                n == self.entries.len(),
                i <= n,
                forall|k: int| 0 <= k < i ==> self.pairs()[k].0 != word@,
                map_of(self.pairs()).contains_key(word@) <==> (exists|k: int|
                    0 <= k < n && self.pairs()[k].0 == word@),
                forall|k: int|
                    0 <= k < n && self.pairs()[k].0 == word@ ==> map_of(self.pairs())[word@]
                        == self.pairs()[k].1,
            decreases n - i,
        {
            assert(self.pairs()[i as int] == (self.entries@[i as int].0@, self.entries@[i as int].1));
            if self.entries[i].0.eq(word) {
                return self.entries[i].1;
            }
            i += 1;
        }
        0
    }

    /// Add `n` occurrences of `word`.
    pub fn bump_by(&mut self, word: &String, n: u64)
        requires
            old(self).wf(),
        ensures
            final(self).wf(),
            final(self)@ == bump_spec(old(self)@, word@, n),
    {
        proof {
            lemma_map_of_lookup(self.pairs(), word@);
        }
        let ghost orig = self.pairs();
        let len = self.entries.len();
        let mut i: usize = 0;
        while i < len
            invariant
                self.entries == old(self).entries,
                self.wf(),
                orig == self.pairs(),
                len == self.entries.len(),
                i <= len,
                forall|k: int| 0 <= k < i ==> orig[k].0 != word@,
            decreases len - i,
        {
            assert(orig[i as int] == (self.entries@[i as int].0@, self.entries@[i as int].1));
            if self.entries[i].0.eq(word) {
                let c = self.entries[i].1;
                let (key, _) = self.entries.remove(i);
                self.entries.insert(i, (key, c.saturating_add(n)));
                proof {
                    let updated = self.pairs();
                    assert(updated =~= orig.update(i as int, (word@, sat_add(c, n))));
                    lemma_map_of_update(orig, i as int, sat_add(c, n));
                    assert(orig[i as int].0 == word@ && orig[i as int].1 == c);
                    lemma_map_of_lookup(orig, word@);
                    assert(map_of(orig).contains_key(word@));
                    assert(map_of(orig)[word@] == c);
                    assert(c == count_of(old(self)@, word@));
                }
                return;
            }
            i += 1;
        }
        proof {
            assert(forall|k: int| 0 <= k < orig.len() ==> orig[k].0 != word@);
            lemma_map_of_lookup(orig, word@);
            assert(!map_of(orig).contains_key(word@));
        }
        let ghost pre = self.pairs();
        self.entries.push((word.clone(), n));
        proof {
            assert(self.pairs() =~= pre.push((word@, n)));
            assert(self.pairs().drop_last() =~= pre);
            assert(count_of(old(self)@, word@) == 0);
            assert(self@ =~= bump_spec(old(self)@, word@, n));
            assert forall|a: int, b: int| 0 <= a < b < self.pairs().len()
                implies self.pairs()[a].0 != self.pairs()[b].0 by {
                if b < pre.len() {
                    assert(pre[a].0 != pre[b].0);
                } else {
                    assert(self.pairs()[b].0 == word@ && self.pairs()[a] == pre[a]);
                }
            };
        }
    }

    /// Record one occurrence of `word`.
    pub fn bump(&mut self, word: &String)
        requires
            old(self).wf(),
        ensures
            final(self).wf(),
            final(self)@ == bump_spec(old(self)@, word@, 1),
    {
        self.bump_by(word, 1);
    }

    /// Merge another tally into this one: counts summed per key.
    pub fn merge(&mut self, other: &WordTally)
        requires
            old(self).wf(),
            other.wf(),
        ensures
            final(self).wf(),
            final(self)@ == merge_spec(old(self)@, other@),
    {
        let ghost op = other.pairs();
        let n = other.entries.len();
        let mut i: usize = 0;
        proof {
            lemma_merge_empty(old(self)@);
            assert(map_of(op.take(0)) =~= Map::<Seq<char>, u64>::empty());
        }
        while i < n
            invariant
                self.wf(),
                other.wf(),
                op == other.pairs(),
                n == other.entries.len(),
                i <= n,
                self@ == merge_spec(old(self)@, map_of(op.take(i as int))),
            decreases n - i,
        {
            assert(op[i as int] == (other.entries@[i as int].0@, other.entries@[i as int].1));
            let ghost before = self@;
            self.bump_by(&other.entries[i].0, other.entries[i].1);
            proof {
                let prefix = op.take(i as int);
                assert(op.take(i + 1).drop_last() =~= prefix);
                assert(map_of(op.take(i + 1)) == map_of(prefix).insert(op[i as int].0, op[i as int].1));
                assert(forall|k: int| 0 <= k < i ==> prefix[k].0 != op[i as int].0);
                lemma_map_of_lookup(prefix, op[i as int].0);
                assert(!map_of(prefix).contains_key(op[i as int].0));
                lemma_merge_insert(old(self)@, map_of(prefix), op[i as int].0, op[i as int].1);
            }
            i += 1;
        }
        proof {
            assert(op.take(n as int) =~= op);
        }
    }

    /// The tallied words with their counts, one entry per word.
    pub fn entries_list(&self) -> (r: &Vec<(String, u64)>)
        requires
            self.wf(),
        ensures
            r@.map_values(|p: (String, u64)| (p.0@, p.1)) == self.pairs(),
            unique_keys(self.pairs()),
            map_of(self.pairs()) == self@,
    {
        &self.entries
    }
}

proof fn lemma_map_of_update(entries: Seq<(Seq<char>, u64)>, i: int, v: u64)
    requires
        unique_keys(entries),
        0 <= i < entries.len(),
    ensures
        map_of(entries.update(i, (entries[i].0, v))) == map_of(entries).insert(entries[i].0, v),
    decreases entries.len(),
{
    let k = entries[i].0;
    let updated = entries.update(i, (k, v));
    if i == entries.len() - 1 {
        assert(updated.drop_last() =~= entries.drop_last());
        assert(map_of(updated) == map_of(entries.drop_last()).insert(k, v));
        assert(map_of(entries).insert(k, v) =~= map_of(entries.drop_last()).insert(
            entries.last().0,
            entries.last().1,
        ).insert(k, v));
    } else {
        let prefix = entries.drop_last();
        assert(forall|a: int, b: int| 0 <= a < b < prefix.len() ==> prefix[a].0 != prefix[b].0);
        lemma_map_of_update(prefix, i, v);
        assert(updated.drop_last() =~= prefix.update(i, (k, v)));
        assert(updated.last() == entries.last());
        assert(entries.last().0 != k);
        assert(map_of(updated) == map_of(prefix).insert(k, v).insert(
            entries.last().0,
            entries.last().1,
        ));
        assert(map_of(prefix).insert(k, v).insert(entries.last().0, entries.last().1)
            =~= map_of(prefix).insert(entries.last().0, entries.last().1).insert(k, v));
    }
}

proof fn lemma_merge_empty(a: Map<Seq<char>, u64>)
    ensures
        merge_spec(a, Map::<Seq<char>, u64>::empty()) == a,
{
    assert(merge_spec(a, Map::<Seq<char>, u64>::empty()) =~= a);
}

proof fn lemma_merge_insert(
    a: Map<Seq<char>, u64>,
    b: Map<Seq<char>, u64>,
    k: Seq<char>,
    v: u64,
)
    requires
        !b.contains_key(k),
    ensures
        bump_spec(merge_spec(a, b), k, v) == merge_spec(a, b.insert(k, v)),
{
    assert(count_of(merge_spec(a, b), k) == count_of(a, k));
    assert(bump_spec(merge_spec(a, b), k, v) =~= merge_spec(a, b.insert(k, v)));
}

/// Merging tallies is commutative: the global tally does not depend on
/// which of two page tallies lands first.
pub proof fn lemma_merge_commutative(a: Map<Seq<char>, u64>, b: Map<Seq<char>, u64>)
    ensures
        merge_spec(a, b) == merge_spec(b, a),
{
    assert(merge_spec(a, b) =~= merge_spec(b, a));
}

/// Merging tallies is associative: grouping of merges is immaterial, so any
/// merge order yields the tally of sequentially counting all text.
pub proof fn lemma_merge_associative(
    a: Map<Seq<char>, u64>,
    b: Map<Seq<char>, u64>,
    c: Map<Seq<char>, u64>,
)
    ensures
        merge_spec(merge_spec(a, b), c) == merge_spec(a, merge_spec(b, c)),
{
    assert(merge_spec(merge_spec(a, b), c) =~= merge_spec(a, merge_spec(b, c)));
}

} // verus!

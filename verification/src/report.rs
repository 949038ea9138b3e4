//! The crawl summary's computation: the tallied words ordered by count
//! (ascending, as the report prints them), a permutation of the tally's
//! entries. Printing is the caller's business.

use vstd::prelude::*;
use vstd::string::*;
use vstd::seq_lib::lemma_multiset_commutative;

verus! {

/// The word/count pairs a report row is made of.
pub open spec fn row_view(p: (String, u64)) -> (Seq<char>, u64) {
    (p.0@, p.1)
}

/// Counts never decrease along the sequence.
pub open spec fn sorted_by_count(s: Seq<(Seq<char>, u64)>) -> bool {
    forall|i: int, j: int| 0 <= i < j < s.len() ==> s[i].1 <= s[j].1
}

proof fn lemma_insert_to_multiset(s: Seq<(Seq<char>, u64)>, i: int, x: (Seq<char>, u64))
    requires
        0 <= i <= s.len(),
    ensures
        s.insert(i, x).to_multiset() == s.to_multiset().insert(x),
{
    broadcast use vstd::seq_lib::group_to_multiset_ensures;

    let front = s.subrange(0, i);
    let back = s.subrange(i, s.len() as int);
    lemma_multiset_commutative(front.push(x), back);
    lemma_multiset_commutative(front, back);
    assert(s =~= front + back);
    assert(front.push(x).to_multiset() =~= front.to_multiset().insert(x));
    assert(front.to_multiset().insert(x).add(back.to_multiset())
        =~= front.to_multiset().add(back.to_multiset()).insert(x));
}

/// The tally's rows ordered by ascending count: a sorted permutation of the
/// input rows.
pub fn sort_by_count(entries: &Vec<(String, u64)>) -> (r: Vec<(String, u64)>)
    ensures
        r@.len() == entries@.len(),
        sorted_by_count(r@.map_values(|p: (String, u64)| row_view(p))),
        r@.map_values(|p: (String, u64)| row_view(p)).to_multiset() == entries@.map_values(
            |p: (String, u64)| row_view(p),
        ).to_multiset(),
{
    broadcast use vstd::seq_lib::group_to_multiset_ensures;

    let ghost full = entries@.map_values(|p: (String, u64)| row_view(p));
    let n = entries.len();
    let mut out: Vec<(String, u64)> = Vec::new();
    let mut i: usize = 0;
    proof {
        assert(full.take(0) =~= Seq::<(Seq<char>, u64)>::empty());
        assert(out@.map_values(|p: (String, u64)| row_view(p))
            =~= Seq::<(Seq<char>, u64)>::empty());
    }
    while i < n
        invariant
            n == entries.len(),
            full == entries@.map_values(|p: (String, u64)| row_view(p)),
            i <= n,
            out@.len() == i,
            sorted_by_count(out@.map_values(|p: (String, u64)| row_view(p))),
            out@.map_values(|p: (String, u64)| row_view(p)).to_multiset() == full.take(
                i as int,
            ).to_multiset(),
        decreases n - i,
    {
        let word = entries[i].0.clone();
        let count = entries[i].1;
        let m = out.len();
        let mut j: usize = 0;
        while j < m && out[j].1 <= count
            invariant
                m == out@.len(),
                j <= m,
                forall|k: int| 0 <= k < j ==> out@[k].1 <= count,
            decreases m - j,
        {
            j += 1;
        }
        assert(j < m ==> out@[j as int].1 > count);
        let ghost before = out@.map_values(|p: (String, u64)| row_view(p));
        out.insert(j, (word, count));
        proof {
            let after = out@.map_values(|p: (String, u64)| row_view(p));
            assert(after =~= before.insert(j as int, (word@, count)));
            before.insert_ensures(j as int, (word@, count));
            assert forall|a: int, b: int| 0 <= a < b < after.len()
                implies after[a].1 <= after[b].1 by {
                if b < j {
                    assert(after[a] == before[a] && after[b] == before[b]);
                } else if a > j {
                    assert(after[a] == before[a - 1] && after[b] == before[b - 1]);
                } else if a == j {
                    assert(after[a].1 == count && after[b] == before[b - 1]);
                    assert(j < before.len() ==> count < before[j as int].1);
                } else if b == j {
                    assert(after[a] == before[a] && after[b].1 == count);
                    assert(before[a].1 == out@[a].1);
                } else {
                    assert(after[a] == before[a] && after[b] == before[b - 1]);
                    assert(before[a].1 <= count && count < before[j as int].1);
                }
            };
            lemma_insert_to_multiset(before, j as int, (word@, count));
            full.take(i as int).to_multiset_ensures();
            assert(full.take(i + 1) =~= full.take(i as int).push(full[i as int]));
            assert(full.take(i as int).push(full[i as int]).to_multiset() == full.take(
                i as int,
            ).to_multiset().insert(full[i as int]));
            assert(full[i as int] == (word@, count));
            assert(after.to_multiset() == full.take(i + 1).to_multiset());
        }
        i += 1;
    }
    proof {
        assert(full.take(n as int) =~= full);
    }
    out
}

} // verus!

//! Character-sequence logic shared by the URL components: substring search
//! (for the blocklist) and truncation at the first query or fragment
//! delimiter (for normalization).

use vstd::prelude::*;
use vstd::string::*;

verus! {

/// `sub` occurs in `s` starting at index `i`.
pub open spec fn is_sub_at(s: Seq<char>, sub: Seq<char>, i: int) -> bool {
    0 <= i && i + sub.len() <= s.len() && s.subrange(i, i + sub.len() as int) == sub
}

/// `sub` occurs somewhere in `s`.
pub open spec fn has_sub(s: Seq<char>, sub: Seq<char>) -> bool {
    exists|i: int| is_sub_at(s, sub, i)
}

fn matches_at(s: &str, sub: &str, i: usize, n: usize, m: usize) -> (r: bool)
    requires
        n == s@.len(),
        m == sub@.len(),
        i + m <= n,
    ensures
        r == is_sub_at(s@, sub@, i as int),
{
    let mut j: usize = 0;
    while j < m
        invariant
            n == s@.len(),
            m == sub@.len(),
            i + m <= n,
            j <= m,
            forall|k: int| 0 <= k < j ==> s@[i + k] == sub@[k],
        decreases m - j,
    {
        if s.get_char(i + j) != sub.get_char(j) {
            assert(s@.subrange(i as int, i + m as int)[j as int] != sub@[j as int]);
            return false;
        }
        j += 1;
    }
    assert(s@.subrange(i as int, i + m as int) =~= sub@);
    true
}

/// Substring search: whether `sub` occurs anywhere in `s`.
pub fn contains_sub(s: &str, sub: &str) -> (r: bool)
    ensures
        r == has_sub(s@, sub@),
{
    let n = s.unicode_len();
    let m = sub.unicode_len();
    if m > n {
        assert(forall|i: int| !is_sub_at(s@, sub@, i));
        return false;
    }
    if m == 0 {
        assert(s@.subrange(0, 0) =~= sub@);
        assert(is_sub_at(s@, sub@, 0));
        return true;
    }
    let mut i: usize = 0;
    while i <= n - m
        invariant
            n == s@.len(),
            m == sub@.len(),
            0 < m <= n,
            i <= n - m + 1,
            forall|k: int| 0 <= k < i ==> !is_sub_at(s@, sub@, k),
        decreases n - i,
    {
        if matches_at(s, sub, i, n, m) {
            assert(has_sub(s@, sub@));
            return true;
        }
        i += 1;
    }
    assert(forall|k: int| !is_sub_at(s@, sub@, k));
    false
}

/// A character that begins the query or the fragment of a serialized URL.
pub open spec fn is_delim(c: char) -> bool {
    c == '?' || c == '#'
}

/// Index of the first query/fragment delimiter in `s`, or `s.len()` if none.
pub open spec fn delim_pos(s: Seq<char>) -> int
    decreases s.len(),
{
    if s.len() == 0 {
        0
    } else if is_delim(s[0]) {
        0
    } else {
        1 + delim_pos(s.subrange(1, s.len() as int))
    }
}

/// The prefix of `s` before its first query/fragment delimiter.
pub open spec fn strip_spec(s: Seq<char>) -> Seq<char> {
    s.subrange(0, delim_pos(s))
}

pub proof fn lemma_delim_pos_bounds(s: Seq<char>)
    ensures
        0 <= delim_pos(s) <= s.len(),
        forall|k: int| 0 <= k < delim_pos(s) ==> !is_delim(s[k]),
        delim_pos(s) < s.len() ==> is_delim(s[delim_pos(s)]),
    decreases s.len(),
{
    if s.len() == 0 {
    } else if is_delim(s[0]) {
    } else {
        let t = s.subrange(1, s.len() as int);
        lemma_delim_pos_bounds(t);
        assert(forall|k: int| 0 <= k < delim_pos(s) ==> #[trigger] is_delim(s[k]) == {
            if k == 0 {
                is_delim(s[0])
            } else {
                is_delim(t[k - 1])
            }
        });
    }
}

/// The first-delimiter index is pinned by its characterization: no delimiter
/// before `i`, and a delimiter (or the end of `s`) at `i`.
pub proof fn lemma_delim_pos_is(s: Seq<char>, i: int)
    requires
        0 <= i <= s.len(),
        forall|k: int| 0 <= k < i ==> !is_delim(s[k]),
        i < s.len() ==> is_delim(s[i]),
    ensures
        delim_pos(s) == i,
    decreases i,
{
    if s.len() == 0 {
    } else if i == 0 {
    } else {
        assert(!is_delim(s[0]));
        let t = s.subrange(1, s.len() as int);
        assert(forall|k: int| 0 <= k < i - 1 ==> t[k] == s[k + 1] && !is_delim(s[k + 1]));
        lemma_delim_pos_is(t, i - 1);
    }
}

/// Stripping the query and fragment is idempotent.
pub proof fn lemma_strip_idempotent(s: Seq<char>)
    ensures
        strip_spec(strip_spec(s)) == strip_spec(s),
{
    lemma_delim_pos_bounds(s);
    let t = strip_spec(s);
    assert(forall|k: int| 0 <= k < t.len() ==> !is_delim(t[k]));
    lemma_delim_pos_is(t, t.len() as int);
    assert(t.subrange(0, t.len() as int) =~= t);
}

/// Everything in `s` up to (excluding) its first `?` or `#`.
pub fn strip_str(s: &str) -> (r: String)
    ensures
        r@ == strip_spec(s@),
{
    let n = s.unicode_len();
    let mut i: usize = 0;
    while i < n
        invariant
            n == s@.len(),
            i <= n,
            forall|k: int| 0 <= k < i ==> !is_delim(s@[k]),
        decreases n - i,
    {
        let c = s.get_char(i);
        if c == '?' || c == '#' {
            proof {
                lemma_delim_pos_is(s@, i as int);
            }
            return s.substring_char(0, i).to_owned();
        }
        i += 1;
    }
    proof {
        lemma_delim_pos_is(s@, n as int);
    }
    s.substring_char(0, n).to_owned()
}

} // verus!

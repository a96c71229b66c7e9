//! Small verified string helpers shared by the path and probe modules.

use vstd::prelude::*;

verus! {

/// Index of the last occurrence of `c` in `s`, or `-1` if `c` does not occur.
pub open spec fn last_index_of(s: Seq<char>, c: char) -> int
    decreases s.len(),
{
    if s.len() == 0 {
        -1
    } else if s[s.len() - 1] == c {
        s.len() - 1
    } else {
        last_index_of(s.drop_last(), c)
    }
}

pub proof fn lemma_last_index_bounds(s: Seq<char>, c: char)
    ensures
        -1 <= last_index_of(s, c) < s.len(),
        last_index_of(s, c) >= 0 ==> s[last_index_of(s, c)] == c,
    decreases s.len(),
{
    if s.len() > 0 && s[s.len() - 1] != c {
        lemma_last_index_bounds(s.drop_last(), c);
    }
}

/// If no occurrence of `c` lies at or beyond `j`, the last occurrence within
/// the prefix of length `j` is the last occurrence overall.
pub proof fn lemma_last_index_take(s: Seq<char>, c: char, j: int)
    requires
        0 <= j <= s.len(),
        forall|k: int| j <= k < s.len() ==> s[k] != c,
    ensures
        last_index_of(s, c) == last_index_of(s.take(j), c),
    decreases s.len() - j,
{
    if j == s.len() {
        assert(s.take(j) =~= s);
    } else {
        assert(s[s.len() - 1] != c);
        assert(s.drop_last() =~= s.take(s.len() - 1));
        lemma_last_index_take(s.take(s.len() - 1), c, j);
        assert(s.take(s.len() - 1).take(j) =~= s.take(j));
    }
}

/// Scans `s` backwards for the last occurrence of `c`.
pub fn find_last(s: &str, c: char) -> (r: Option<usize>)
    ensures
        match r {
            Some(i) => i < s@.len() && last_index_of(s@, c) == i,
            None => last_index_of(s@, c) == -1,
        },
{
    let n = s.unicode_len();
    let mut j: usize = n;
    while j > 0
        invariant
            0 <= j <= n,
            n == s@.len(),
            forall|k: int| j <= k < s@.len() ==> s@[k] != c,
        decreases j,
    {
        j = j - 1;
        if s.get_char(j) == c {
            proof {
                lemma_last_index_take(s@, c, j + 1);
                assert(s@.take(j + 1)[j as int] == c);
            }
            return Some(j);
        }
    }
    proof {
        lemma_last_index_take(s@, c, 0);
        assert(s@.take(0) =~= Seq::<char>::empty());
    }
    None
}

/// Whether the character range `[a, b)` of `s` spells exactly `t`.
pub fn str_range_eq(s: &str, a: usize, b: usize, t: &str) -> (r: bool)
    requires
        a <= b <= s@.len(),
    ensures
        r == (s@.subrange(a as int, b as int) == t@),
{
    let m = t.unicode_len();
    if b - a != m {
        return false;
    }
    let mut i: usize = 0;
    while i < m
        invariant
            0 <= i <= m,
            a <= b <= s@.len(),
            b - a == m,
            m == t@.len(),
            forall|k: int| 0 <= k < i ==> s@[a + k] == t@[k],
        decreases m - i,
    {
        if s.get_char(a + i) != t.get_char(i) {
            return false;
        }
        i = i + 1;
    }
    proof {
        assert(s@.subrange(a as int, b as int) =~= t@);
    }
    true
}

} // verus!

use vstd::prelude::*;

verus! {

/// True when `needle` occurs in `hay` starting at position `i`.
pub open spec fn occurs_at(hay: Seq<char>, needle: Seq<char>, i: int) -> bool {
    &&& 0 <= i
    &&& i + needle.len() <= hay.len()
    &&& hay.subrange(i, i + needle.len()) == needle
}

/// True when `needle` occurs somewhere in `hay`.
pub open spec fn contains_text(hay: Seq<char>, needle: Seq<char>) -> bool {
    exists|i: int| occurs_at(hay, needle, i)
}

/// Whether `needle` occurs at position `i` of `hay`; `n` and `m` are the
/// character lengths of the two texts.
fn matches_at(hay: &str, needle: &str, i: usize, n: usize, m: usize) -> (r: bool)
    requires
        n == hay@.len(),
        m == needle@.len(),
        i + m <= n,
    ensures
        r == occurs_at(hay@, needle@, i as int),
{
    let mut j: usize = 0;
    while j < m
        invariant
            j <= m,
            n == hay@.len(),
            m == needle@.len(),
            i + m <= n,
            forall|k: int| 0 <= k < j ==> hay@[i + k] == needle@[k],
        decreases m - j,
    {
        if hay.get_char(i + j) != needle.get_char(j) {
            proof {
                assert(hay@.subrange(i as int, i + m)[j as int] == hay@[i + j]);
                assert(hay@.subrange(i as int, i + m) != needle@);
            }
            return false;
        }
        j += 1;
    }
    proof {
        assert(hay@.subrange(i as int, i + m) =~= needle@);
    }
    true
}

/// Naive substring search: decides whether `needle` occurs in `hay`.
pub fn contains_str(hay: &str, needle: &str) -> (r: bool)
    ensures
        r == contains_text(hay@, needle@),
{
    let n = hay.unicode_len();
    let m = needle.unicode_len();
    if m > n {
        proof {
            assert(forall|i: int| !occurs_at(hay@, needle@, i));
        }
        return false;
    }
    if m == 0 {
        proof {
            assert(hay@.subrange(0, 0) =~= needle@);
            assert(occurs_at(hay@, needle@, 0));
        }
        return true;
    }
    let mut i: usize = 0;
    while i <= n - m
        invariant
            n == hay@.len(),
            m == needle@.len(),
            0 < m <= n,
            i <= n - m + 1,
            forall|k: int| 0 <= k < i ==> !occurs_at(hay@, needle@, k),
        decreases n - i,
    {
        if matches_at(hay, needle, i, n, m) {
            return true;
        }
        i += 1;
    }
    proof {
        assert(forall|k: int| occurs_at(hay@, needle@, k) ==> 0 <= k <= n - m);
    }
    false
}

} // verus!

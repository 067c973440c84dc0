//! Character-level helpers over strings.

use vstd::prelude::*;

verus! {

/// Whether `pattern` occurs in `text` starting at index `at`.
pub open spec fn occurs_at(text: Seq<char>, at: int, pattern: Seq<char>) -> bool {
    &&& 0 <= at
    &&& at + pattern.len() <= text.len()
    &&& text.subrange(at, at + pattern.len()) == pattern
}

/// The characters of `s`, in order.
pub fn chars_of(s: &str) -> (v: Vec<char>)
    ensures
        v@ == s@,
{
    let mut v: Vec<char> = Vec::new();
    for c in it: s.chars()
        invariant
            it.seq() == s@,
            v@ == s@.take(it.index() as int),
    {
        v.push(c);
    }
    v
}

/// An owned copy of the characters `from..to` of `s`.
pub fn slice_of(s: &str, from: usize, to: usize) -> (r: String)
    requires
        from <= to <= s@.len(),
    ensures
        r@ == s@.subrange(from as int, to as int),
{
    s.substring_char(from, to).to_owned()
}

/// Tests whether `pattern` occurs in `text` starting at index `at`.
pub fn matches_at(text: &Vec<char>, at: usize, pattern: &Vec<char>) -> (r: bool)
    ensures
        r == occurs_at(text@, at as int, pattern@),
{
    let n: usize = text.len();
    let m: usize = pattern.len();
    if at > n || m > n - at {
        return false;
    }
    let mut i: usize = 0;
    while i < m
        invariant
            i <= m,
            m == pattern@.len(),
            n == text@.len(),
            at + m <= n,
            forall|j: int| 0 <= j < i ==> text@[at + j] == pattern@[j],
        decreases m - i,
    {
        if text[at + i] != pattern[i] {
            assert(text@.subrange(at as int, at + m)[i as int] != pattern@[i as int]);
            return false;
        }
        i += 1;
    }
    assert(text@.subrange(at as int, at + m) =~= pattern@);
    true
}

} // verus!

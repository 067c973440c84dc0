//! The order in which movie titles appear in the digest: character by
//! character, by code point, a title before every longer title that starts
//! with it.

use vstd::prelude::*;

verus! {

/// Whether title `a` comes strictly before title `b`.
pub open spec fn comes_before(a: Seq<char>, b: Seq<char>) -> bool
    decreases a.len(),
{
    if b.len() == 0 {
        false
    } else if a.len() == 0 {
        true
    } else if a[0] != b[0] {
        a[0] < b[0]
    } else {
        comes_before(a.drop_first(), b.drop_first())
    }
}

/// How one title stands to another.
#[derive(Clone, Copy, Debug, PartialEq, Eq, Structural)]
pub enum Place {
    Before,
    Same,
    After,
}

/// No title comes before itself.
pub proof fn lemma_order_irreflexive(a: Seq<char>)
    ensures
        !comes_before(a, a),
    decreases a.len(),
{
    if a.len() > 0 {
        lemma_order_irreflexive(a.drop_first());
    }
}

/// Of two titles at most one comes before the other.
pub proof fn lemma_order_asymmetric(a: Seq<char>, b: Seq<char>)
    requires
        comes_before(a, b),
    ensures
        !comes_before(b, a),
    decreases a.len(),
{
    if a.len() > 0 && b.len() > 0 && a[0] == b[0] {
        lemma_order_asymmetric(a.drop_first(), b.drop_first());
    }
}

/// What comes before a title comes before all that the title comes before.
pub proof fn lemma_order_transitive(a: Seq<char>, b: Seq<char>, c: Seq<char>)
    requires
        comes_before(a, b),
        comes_before(b, c),
    ensures
        comes_before(a, c),
    decreases a.len(),
{
    if a.len() > 0 && b.len() > 0 && c.len() > 0 && a[0] == b[0] && b[0] == c[0] {
        lemma_order_transitive(a.drop_first(), b.drop_first(), c.drop_first());
    }
}

/// Two different titles are ordered one way or the other.
pub proof fn lemma_order_total(a: Seq<char>, b: Seq<char>)
    ensures
        a == b || comes_before(a, b) || comes_before(b, a),
    decreases a.len(),
{
    if a.len() == 0 || b.len() == 0 {
        if a.len() == 0 && b.len() == 0 {
            assert(a =~= b);
        }
    } else if a[0] == b[0] {
        lemma_order_total(a.drop_first(), b.drop_first());
        if a.drop_first() == b.drop_first() {
            assert(a =~= seq![a[0]] + a.drop_first());
            assert(b =~= seq![b[0]] + b.drop_first());
        }
    }
}

/// Two titles that agree on their first `i` characters are ordered as what
/// follows those characters.
pub proof fn lemma_order_after_prefix(a: Seq<char>, b: Seq<char>, i: int)
    requires
        0 <= i <= a.len(),
        i <= b.len(),
        forall|j: int| 0 <= j < i ==> a[j] == b[j],
    ensures
        comes_before(a, b) == comes_before(a.skip(i), b.skip(i)),
        comes_before(b, a) == comes_before(b.skip(i), a.skip(i)),
    decreases i,
{
    if i == 0 {
        assert(a.skip(0) =~= a);
        assert(b.skip(0) =~= b);
    } else {
        assert(a[0] == b[0]);
        let a1 = a.drop_first();
        let b1 = b.drop_first();
        assert forall|j: int| 0 <= j < i - 1 implies a1[j] == b1[j] by {
            assert(a1[j] == a[j + 1]);
            assert(b1[j] == b[j + 1]);
        }
        lemma_order_after_prefix(a1, b1, i - 1);
        assert(a1.skip(i - 1) =~= a.skip(i));
        assert(b1.skip(i - 1) =~= b.skip(i));
    }
}

/// Finds how title `a` stands to title `b`.
pub fn place_of(a: &Vec<char>, b: &Vec<char>) -> (r: Place)
    ensures
        match r {
            Place::Before => comes_before(a@, b@),
            Place::Same => a@ == b@,
            Place::After => comes_before(b@, a@),
        },
{
    let n: usize = a.len();
    let m: usize = b.len();
    let mut i: usize = 0;
    while i < n && i < m
        invariant
            i <= n,
            i <= m,
            n == a@.len(),
            m == b@.len(),
            forall|j: int| 0 <= j < i ==> a@[j] == b@[j],
        decreases n - i,
    {
        if a[i] != b[i] {
            proof {
                lemma_order_after_prefix(a@, b@, i as int);
                assert(a@.skip(i as int)[0] == a@[i as int]);
                assert(b@.skip(i as int)[0] == b@[i as int]);
            }
            if a[i] < b[i] {
                return Place::Before;
            } else {
                return Place::After;
            }
        }
        i += 1;
    }
    proof {
        lemma_order_after_prefix(a@, b@, i as int);
    }
    if n == m {
        assert(a@ =~= b@);
        Place::Same
    } else if i == n {
        Place::Before
    } else {
        Place::After
    }
}

} // verus!

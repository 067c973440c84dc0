//! Reduces a friend's review link to the link of the movie itself.
//!
//! A review link names the feed provider's host, the friend, the word `film`
//! and the movie's slug: `host/friend/film/slug/`. The movie's own link is
//! `https://host/film/slug/`, the same for every friend. A link in which that
//! shape does not occur is left as it is.

use vstd::prelude::*;
use crate::text::{chars_of, matches_at, occurs_at, slice_of};

verus! {

/// The host of the feed provider.
pub const PROVIDER_HOST: &'static str = "letterboxd.com";

/// The path segment between the friend's name and the movie's slug.
pub open spec fn film_marker() -> Seq<char> {
    "/film/"@
}

/// Whether no character of `s` is a slash.
pub open spec fn no_slash(s: Seq<char>) -> bool {
    forall|i: int| 0 <= i < s.len() ==> #[trigger] s[i] != '/'
}

/// Whether the shape of a review link occurs in `s` from index `p`: the host
/// and a slash, a friend's name that ends before index `u`, the film marker,
/// and a slug that ends before index `e`, where a slash follows. Name and slug
/// are not empty and hold no slash.
pub open spec fn shape_at(s: Seq<char>, host: Seq<char>, p: int, u: int, e: int) -> bool {
    let name_start = p + host.len() + 1;
    let slug_start = u + film_marker().len();
    &&& occurs_at(s, p, host.push('/'))
    &&& name_start < u
    &&& no_slash(s.subrange(name_start, u))
    &&& occurs_at(s, u, film_marker())
    &&& slug_start < e < s.len()
    &&& no_slash(s.subrange(slug_start, e))
    &&& s[e] == '/'
}

/// Whether the shape of a review link occurs in `s` from index `p`.
pub open spec fn matches_from(s: Seq<char>, host: Seq<char>, p: int) -> bool {
    exists|u: int, e: int| shape_at(s, host, p, u, e)
}

/// Whether the shape of a review link occurs in `s` from index `p` and from
/// no index before it.
pub open spec fn first_match(s: Seq<char>, host: Seq<char>, p: int) -> bool {
    &&& matches_from(s, host, p)
    &&& forall|q: int| 0 <= q < p ==> !matches_from(s, host, q)
}

/// The link of the movie with the given slug.
pub open spec fn canonical(host: Seq<char>, slug: Seq<char>) -> Seq<char> {
    "https://"@ + host + film_marker() + slug + "/"@
}

/// The movie's link for the review link `s`: built from the slug of the first
/// place in `s` where the shape occurs, and `s` itself where it occurs nowhere.
pub open spec fn normalized_for(host: Seq<char>, s: Seq<char>) -> Seq<char> {
    if exists|p: int| matches_from(s, host, p) {
        let p = choose|p: int| first_match(s, host, p);
        let (u, e) = choose|u: int, e: int| shape_at(s, host, p, u, e);
        canonical(host, s.subrange(u + film_marker().len(), e))
    } else {
        s
    }
}

/// The movie's link for the review link `s` at the feed provider.
pub open spec fn normalized(s: Seq<char>) -> Seq<char> {
    normalized_for(PROVIDER_HOST@, s)
}

/// From a given index the shape occurs in one way at most: the name ends at
/// the first slash after the host, and the slug at the first slash after the
/// film marker.
pub proof fn lemma_shape_unique(
    s: Seq<char>,
    host: Seq<char>,
    p: int,
    u1: int,
    e1: int,
    u2: int,
    e2: int,
)
    requires
        shape_at(s, host, p, u1, e1),
        shape_at(s, host, p, u2, e2),
    ensures
        u1 == u2,
        e1 == e2,
{
    reveal_strlit("/film/");
    let a = p + host.len() + 1;
    assert(s.subrange(u1, u1 + 6)[0] == '/');
    assert(s.subrange(u2, u2 + 6)[0] == '/');
    if u1 < u2 {
        assert(s.subrange(a, u2)[u1 - a] == s[u1]);
    } else if u2 < u1 {
        assert(s.subrange(a, u1)[u2 - a] == s[u2]);
    }
    if e1 < e2 {
        assert(s.subrange(u1 + 6, e2)[e1 - (u1 + 6)] == s[e1]);
    } else if e2 < e1 {
        assert(s.subrange(u1 + 6, e1)[e2 - (u1 + 6)] == s[e2]);
    }
}

/// Where the shape first occurs from index `p`, with the slug between the
/// film marker at `u` and the slash at `e`, the movie's link is built from
/// that slug.
pub proof fn lemma_normalized_match(s: Seq<char>, host: Seq<char>, p: int, u: int, e: int)
    requires
        shape_at(s, host, p, u, e),
        forall|q: int| 0 <= q < p ==> !matches_from(s, host, q),
    ensures
        normalized_for(host, s) == canonical(host, s.subrange(u + film_marker().len(), e)),
{
    assert(matches_from(s, host, p));
    assert(first_match(s, host, p));
    let first = choose|first: int| first_match(s, host, first);
    if first < p {
        assert(matches_from(s, host, first));
        assert(0 <= first) by {
            let (u0, e0) = choose|u0: int, e0: int| shape_at(s, host, first, u0, e0);
        }
    }
    assert(first == p);
    let (u1, e1) = choose|u1: int, e1: int| shape_at(s, host, p, u1, e1);
    lemma_shape_unique(s, host, p, u, e, u1, e1);
}

/// A link in which the shape occurs nowhere is its own normal form.
pub proof fn lemma_normalized_no_match(s: Seq<char>, host: Seq<char>)
    requires
        forall|p: int| !matches_from(s, host, p),
    ensures
        normalized_for(host, s) == s,
{
}

/// The index of the first slash in `text` at or after `from`, or the length
/// of `text` where there is none.
fn next_slash(text: &Vec<char>, from: usize) -> (r: usize)
    requires
        from <= text@.len(),
    ensures
        from <= r <= text@.len(),
        no_slash(text@.subrange(from as int, r as int)),
        r < text@.len() ==> text@[r as int] == '/',
{
    let n: usize = text.len();
    let mut r: usize = from;
    while r < n && text[r] != '/'
        invariant
            from <= r <= n,
            n == text@.len(),
            forall|i: int| from <= i < r ==> text@[i] != '/',
        decreases n - r,
    {
        r += 1;
    }
    r
}

/// Looks for the shape of a review link in `text` from index `p`. Returns the
/// bounds of the slug where it occurs.
fn slug_from(text: &Vec<char>, head: &Vec<char>, marker: &Vec<char>, p: usize) -> (r: Option<
    (usize, usize),
>)
    requires
        head@.len() > 0,
        head@.last() == '/',
        marker@ == film_marker(),
    ensures
        match r {
            Some((b, e)) => shape_at(text@, head@.drop_last(), p as int, b - 6, e as int),
            None => !matches_from(text@, head@.drop_last(), p as int),
        },
{
    proof {
        reveal_strlit("/film/");
    }
    let ghost s = text@;
    let ghost host = head@.drop_last();
    assert(host.push('/') =~= head@);
    let n: usize = text.len();
    if !matches_at(text, p, head) {
        return None;
    }
    let a: usize = p + head.len();
    let u: usize = next_slash(text, a);
    if u == a || !matches_at(text, u, marker) {
        proof {
            if matches_from(s, host, p as int) {
                let (u2, e2) = choose|u2: int, e2: int| shape_at(s, host, p as int, u2, e2);
                assert(s.subrange(u2, u2 + 6)[0] == '/');
                if u2 < u {
                    assert(s.subrange(a as int, u as int)[u2 - a] == s[u2]);
                } else if u < u2 {
                    assert(s.subrange(a as int, u2)[u - a] == s[u as int]);
                }
                assert(false);
            }
        }
        return None;
    }
    let b: usize = u + 6;
    let e: usize = next_slash(text, b);
    if e == b || e >= n {
        proof {
            if matches_from(s, host, p as int) {
                let (u2, e2) = choose|u2: int, e2: int| shape_at(s, host, p as int, u2, e2);
                assert(s.subrange(u2, u2 + 6)[0] == '/');
                assert(s.subrange(u as int, u + 6)[0] == '/');
                if u2 < u {
                    assert(s.subrange(a as int, u as int)[u2 - a] == s[u2]);
                } else if u < u2 {
                    assert(s.subrange(a as int, u2)[u - a] == s[u as int]);
                }
                if e2 < e {
                    assert(s.subrange(b as int, e as int)[e2 - b] == s[e2]);
                } else if e < e2 {
                    assert(s.subrange(b as int, e2)[e - b] == s[e as int]);
                }
                assert(false);
            }
        }
        return None;
    }
    Some((b, e))
}

/// The movie's link for a review link at the provider `host`.
pub fn normalize_link_for(host: &str, link: &str) -> (r: String)
    ensures
        r@ == normalized_for(host@, link@),
{
    let text = chars_of(link);
    let mut head = chars_of(host);
    head.push('/');
    let marker = chars_of("/film/");
    let n: usize = text.len();
    assert(head@.drop_last() =~= host@);
    let mut p: usize = 0;
    while p < n
        invariant
            p <= n,
            n == text@.len(),
            text@ == link@,
            head@.len() > 0,
            head@.last() == '/',
            head@.drop_last() == host@,
            marker@ == film_marker(),
            forall|q: int| 0 <= q < p ==> !matches_from(link@, host@, q),
        decreases n - p,
    {
        match slug_from(&text, &head, &marker, p) {
            Some((b, e)) => {
                proof {
                    reveal_strlit("/film/");
                    lemma_normalized_match(link@, host@, p as int, b - 6, e as int);
                }
                let slug = slice_of(link, b, e);
                let mut out = "https://".to_owned();
                out.append(host);
                out.append("/film/");
                out.append(slug.as_str());
                out.append("/");
                return out;
            },
            None => {},
        }
        p += 1;
    }
    proof {
        assert forall|q: int| !matches_from(link@, host@, q) by {
            if matches_from(link@, host@, q) {
                let (u, e) = choose|u: int, e: int| shape_at(link@, host@, q, u, e);
                assert(0 <= q < n);
            }
        }
    }
    link.to_owned()
}

/// The movie's link for a review link at the feed provider.
pub fn normalize_link(link: &str) -> (r: String)
    ensures
        r@ == normalized(link@),
{
    normalize_link_for(PROVIDER_HOST, link)
}

} // verus!

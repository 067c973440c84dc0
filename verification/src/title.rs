//! Splits a feed item's title into the movie's title and its star rating.
//!
//! A rated title ends with `" - "` and a run of rating glyphs, as in
//! `"Parasite - ★★★★½"`. Any other title is a movie that was watched and
//! not rated.

use vstd::prelude::*;
use crate::text::{chars_of, slice_of};

verus! {

/// The glyph that stands for one full star.
pub const FULL_STAR: char = '★';

/// The glyph that stands for half a star.
pub const HALF_STAR: char = '½';

/// A title as the parser leaves it: the movie's title and the rating token,
/// which is empty where the movie was watched and not rated.
#[derive(Debug)]
pub struct ParsedReview {
    pub movie_title: String,
    pub rating_token: String,
}

/// What a `ParsedReview` holds, as sequences of characters.
pub ghost struct ParsedReviewView {
    pub movie_title: Seq<char>,
    pub rating_token: Seq<char>,
}

impl View for ParsedReview {
    type V = ParsedReviewView;

    open spec fn view(&self) -> ParsedReviewView {
        ParsedReviewView { movie_title: self.movie_title@, rating_token: self.rating_token@ }
    }
}

/// Whether `c` is one of the two rating glyphs.
pub open spec fn is_glyph(c: char) -> bool {
    c == FULL_STAR || c == HALF_STAR
}

/// Whether `s` holds rating glyphs and nothing else.
pub open spec fn all_glyphs(s: Seq<char>) -> bool {
    forall|i: int| 0 <= i < s.len() ==> is_glyph(#[trigger] s[i])
}

/// The separator between a title and its rating: space, hyphen, space.
pub open spec fn separator() -> Seq<char> {
    seq![' ', '-', ' ']
}

/// Whether `s` is a title, the separator at index `k`, and then a rating:
/// one glyph or more, up to the end of `s`.
pub open spec fn splits_at(s: Seq<char>, k: int) -> bool {
    &&& 0 <= k
    &&& k + 3 < s.len()
    &&& s.subrange(k, k + 3) == separator()
    &&& all_glyphs(s.subrange(k + 3, s.len() as int))
}

/// Whether `s` ends with the separator and a rating.
pub open spec fn has_rating_suffix(s: Seq<char>) -> bool {
    exists|k: int| splits_at(s, k)
}

/// The title and the rating that `s` stands for.
pub open spec fn parsed(s: Seq<char>) -> ParsedReviewView {
    if has_rating_suffix(s) {
        let k = choose|k: int| splits_at(s, k);
        ParsedReviewView { movie_title: s.take(k), rating_token: s.skip(k + 3) }
    } else {
        ParsedReviewView { movie_title: s, rating_token: Seq::empty() }
    }
}

/// A title splits in one place at most: the separator is no glyph, so the
/// rating is the whole run of glyphs that ends the title.
pub proof fn lemma_split_unique(s: Seq<char>, j: int, k: int)
    requires
        splits_at(s, j),
        splits_at(s, k),
    ensures
        j == k,
{
    if j < k {
        // The separator's last space at k + 2 would lie inside the rating that starts at j + 3.
        assert(s.subrange(k, k + 3)[2] == ' ');
        assert(s.subrange(j + 3, s.len() as int)[k + 2 - (j + 3)] == s[k + 2]);
    } else if k < j {
        assert(s.subrange(j, j + 3)[2] == ' ');
        assert(s.subrange(k + 3, s.len() as int)[j + 2 - (k + 3)] == s[j + 2]);
    }
}

/// A title followed by the separator and a rating parses into that title and
/// that rating, whatever the title holds.
pub proof fn lemma_parse_rated(title: Seq<char>, rating: Seq<char>)
    requires
        rating.len() > 0,
        all_glyphs(rating),
    ensures
        has_rating_suffix(title + separator() + rating),
        parsed(title + separator() + rating) == (ParsedReviewView {
            movie_title: title,
            rating_token: rating,
        }),
        !has_rating_suffix(title) ==> !has_rating_suffix(
            parsed(title + separator() + rating).movie_title,
        ),
{
    let s = title + separator() + rating;
    let k = title.len() as int;
    assert(s.subrange(k, k + 3) =~= separator());
    assert(s.subrange(k + 3, s.len() as int) =~= rating);
    assert(splits_at(s, k));
    let c = choose|c: int| splits_at(s, c);
    lemma_split_unique(s, c, k);
    assert(s.take(k) =~= title);
    assert(s.skip(k + 3) =~= rating);
}

/// A title without a rating suffix is kept whole with an empty rating, and
/// parsing the title that comes out gives the same again.
pub proof fn lemma_parse_unrated(s: Seq<char>)
    requires
        !has_rating_suffix(s),
    ensures
        parsed(s) == (ParsedReviewView { movie_title: s, rating_token: Seq::empty() }),
        parsed(parsed(s).movie_title) == parsed(s),
{
}

/// The rating that the parser returns is made of rating glyphs, and where it
/// is empty the title that comes with it is the whole input.
pub proof fn lemma_parsed_rating(s: Seq<char>)
    ensures
        all_glyphs(parsed(s).rating_token),
        parsed(s).rating_token.len() > 0 <==> has_rating_suffix(s),
        parsed(s).rating_token.len() == 0 ==> parsed(s).movie_title == s,
        parsed(s).movie_title + (if has_rating_suffix(s) {
            separator()
        } else {
            Seq::empty()
        }) + parsed(s).rating_token == s,
{
    if has_rating_suffix(s) {
        let k = choose|k: int| splits_at(s, k);
        assert(s.skip(k + 3) =~= s.subrange(k + 3, s.len() as int));
        assert(s.take(k) + s.subrange(k, k + 3) + s.skip(k + 3) =~= s);
    } else {
        assert(s + Seq::<char>::empty() + Seq::<char>::empty() =~= s);
    }
}

/// Splits a raw title into the movie's title and its rating token.
pub fn parse_title(raw: &str) -> (r: ParsedReview)
    ensures
        r@ == parsed(raw@),
{
    let chars = chars_of(raw);
    let n: usize = chars.len();
    let mut start: usize = n;
    while start > 0 && (chars[start - 1] == FULL_STAR || chars[start - 1] == HALF_STAR)
        invariant
            start <= n,
            n == chars@.len(),
            forall|i: int| start <= i < n ==> is_glyph(#[trigger] chars@[i]),
        decreases start,
    {
        start -= 1;
    }
    let ghost s = raw@;
    if start < n && start >= 3 && chars[start - 3] == ' ' && chars[start - 2] == '-' && chars[start
        - 1] == ' ' {
        let title = slice_of(raw, 0, start - 3);
        let rating = slice_of(raw, start, n);
        proof {
            let k = start - 3;
            assert(s.subrange(k, k + 3) =~= separator());
            assert(splits_at(s, k));
            let c = choose|c: int| splits_at(s, c);
            lemma_split_unique(s, c, k);
            assert(s.take(k) =~= s.subrange(0, k));
            assert(s.skip(k + 3) =~= s.subrange(start as int, n as int));
        }
        ParsedReview { movie_title: title, rating_token: rating }
    } else {
        proof {
            if has_rating_suffix(s) {
                let k = choose|k: int| splits_at(s, k);
                let g = s.subrange(k + 3, s.len() as int);
                assert(s.subrange(k, k + 3)[0] == ' ');
                assert(s.subrange(k, k + 3)[1] == '-');
                assert(s.subrange(k, k + 3)[2] == ' ');
                assert(is_glyph(g[n - 1 - (k + 3)]));
                if k + 3 < start {
                    assert(is_glyph(g[start - 1 - (k + 3)]));
                }
                assert(false);
            }
        }
        ParsedReview { movie_title: raw.to_owned(), rating_token: String::new() }
    }
}

} // verus!

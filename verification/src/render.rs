//! Renders the aggregate as the text of the digest.
//!
//! An aggregate without movies gives one fixed sentence. Otherwise the text
//! is a heading and one block for each movie, in title order: the title, the
//! link, a line for each review in the order in which the reviews were
//! recorded, and an empty line.

use vstd::prelude::*;
use crate::digest::{
    in_title_order, lemma_order_is_canonical, Aggregate, MovieGroup, MovieGroupView, ReviewEntry,
    ReviewEntryView,
};
use crate::rating::{calculate_score, get_reaction_emoji, half_stars_of, reaction_for, symbol_of};

verus! {

/// The whole digest of a week without movies.
pub open spec fn nothing_text() -> Seq<char> {
    "No movies watched this week 😱"@
}

/// The heading of a digest with movies.
pub open spec fn heading() -> Seq<char> {
    "*🍿 Weekly Movie Round-up 🍿*\n\n"@
}

/// The line for one review: a friend who gave no rating watched the movie, a
/// friend who gave one rated it, and the line shows the rating as it came
/// and the symbol of the reaction that its score earns.
pub open spec fn review_line(review: ReviewEntryView) -> Seq<char> {
    if review.rating_raw.len() == 0 {
        "• *"@ + review.friend_name + "* watched 🍿\n"@
    } else {
        "• *"@ + review.friend_name + "* rated ("@ + review.rating_raw + ") "@ + symbol_of(
            reaction_for(half_stars_of(review.rating_raw)),
        ) + "\n"@
    }
}

/// The lines for the reviews, in their order.
pub open spec fn review_lines(reviews: Seq<ReviewEntryView>) -> Seq<char>
    decreases reviews.len(),
{
    if reviews.len() == 0 {
        Seq::empty()
    } else {
        review_lines(reviews.drop_last()) + review_line(reviews.last())
    }
}

/// The first two lines of a movie's block: its title and its link.
pub open spec fn block_head(group: MovieGroupView) -> Seq<char> {
    "🎬 *"@ + group.title + "*\n"@ + group.general_link + "\n"@
}

/// The block for one movie.
pub open spec fn movie_block(group: MovieGroupView) -> Seq<char> {
    block_head(group) + review_lines(group.reviews) + "\n"@
}

/// The blocks for the movies, in their order.
pub open spec fn movie_blocks(groups: Seq<MovieGroupView>) -> Seq<char>
    decreases groups.len(),
{
    if groups.len() == 0 {
        Seq::empty()
    } else {
        movie_blocks(groups.drop_last()) + movie_block(groups.last())
    }
}

/// The text of the digest for the groups.
pub open spec fn digest_text(groups: Seq<MovieGroupView>) -> Seq<char> {
    if groups.len() == 0 {
        nothing_text()
    } else {
        heading() + movie_blocks(groups)
    }
}

/// The blocks stand in the text as the groups stand in their sequence: the
/// blocks of the first `i` groups come first, the blocks of the others after
/// them.
pub proof fn lemma_blocks_split(groups: Seq<MovieGroupView>, i: int)
    requires
        0 <= i <= groups.len(),
    ensures
        movie_blocks(groups) == movie_blocks(groups.take(i)) + movie_blocks(groups.skip(i)),
    decreases groups.len() - i,
{
    if i == groups.len() {
        assert(groups.take(i) =~= groups);
        assert(groups.skip(i) =~= Seq::<MovieGroupView>::empty());
        assert(movie_blocks(groups) + Seq::<char>::empty() =~= movie_blocks(groups));
    } else {
        let front = groups.drop_last();
        lemma_blocks_split(front, i);
        assert(front.take(i) =~= groups.take(i));
        assert(groups.skip(i).drop_last() =~= front.skip(i));
        assert(groups.skip(i).last() == groups.last());
        assert(movie_blocks(groups.take(i)) + (movie_blocks(front.skip(i)) + movie_block(
            groups.last(),
        )) =~= (movie_blocks(groups.take(i)) + movie_blocks(front.skip(i))) + movie_block(
            groups.last(),
        ));
    }
}

/// The digest does not depend on the order in which the movies came in: two
/// aggregates that hold the same groups give the same text.
pub proof fn lemma_digest_order_free(a: Seq<MovieGroupView>, b: Seq<MovieGroupView>)
    requires
        in_title_order(a),
        in_title_order(b),
        forall|g: MovieGroupView| a.contains(g) <==> b.contains(g),
    ensures
        digest_text(a) == digest_text(b),
{
    lemma_order_is_canonical(a, b);
}

/// Appends the line for one review to `out`.
fn push_review_line(out: &mut String, review: &ReviewEntry)
    ensures
        final(out)@ == old(out)@ + review_line(review@),
{
    let ghost start = out@;
    out.append("• *");
    out.append(review.friend_name.as_str());
    if review.rating_raw.as_str().is_empty() {
        out.append("* watched 🍿\n");
        assert(out@ =~= start + review_line(review@));
    } else {
        let score = calculate_score(review.rating_raw.as_str());
        out.append("* rated (");
        out.append(review.rating_raw.as_str());
        out.append(") ");
        out.append(get_reaction_emoji(score));
        out.append("\n");
        assert(out@ =~= start + review_line(review@));
    }
}

/// Appends the block for one movie to `out`.
fn push_movie_block(out: &mut String, group: &MovieGroup)
    ensures
        final(out)@ == old(out)@ + movie_block(group@),
{
    let ghost start = out@;
    let ghost reviews = group@.reviews;
    out.append("🎬 *");
    out.append(group.title.as_str());
    out.append("*\n");
    out.append(group.general_link.as_str());
    out.append("\n");
    assert(out@ =~= start + block_head(group@) + review_lines(reviews.take(0)));
    let n: usize = group.reviews.len();
    let mut i: usize = 0;
    while i < n
        invariant
            i <= n,
            n == group.reviews@.len(),
            reviews == group@.reviews,
            out@ == start + block_head(group@) + review_lines(reviews.take(i as int)),
        decreases n - i,
    {
        assert(reviews.take(i + 1).drop_last() =~= reviews.take(i as int));
        assert(reviews.take(i + 1).last() == group.reviews@[i as int]@);
        push_review_line(out, &group.reviews[i]);
        assert(out@ =~= start + block_head(group@) + review_lines(reviews.take(i + 1)));
        i += 1;
    }
    assert(reviews.take(n as int) =~= reviews);
    out.append("\n");
    assert(out@ =~= start + movie_block(group@));
}

/// Renders the digest: the fixed sentence for an aggregate without movies,
/// else the heading and the movies' blocks in title order.
pub fn create_message(aggregate: &Aggregate) -> (message: String)
    ensures
        message@ == digest_text(aggregate@),
        in_title_order(aggregate@),
{
    let groups = aggregate.groups();
    let ghost views = aggregate@;
    let n: usize = groups.len();
    if n == 0 {
        return "No movies watched this week 😱".to_owned();
    }
    let mut out = "*🍿 Weekly Movie Round-up 🍿*\n\n".to_owned();
    assert(out@ =~= heading() + movie_blocks(views.take(0)));
    let mut i: usize = 0;
    while i < n
        invariant
            i <= n,
            n == groups@.len(),
            views == groups@.map_values(|g: MovieGroup| g@),
            out@ == heading() + movie_blocks(views.take(i as int)),
        decreases n - i,
    {
        assert(views.take(i + 1).drop_last() =~= views.take(i as int));
        assert(views.take(i + 1).last() == groups@[i as int]@);
        push_movie_block(&mut out, &groups[i]);
        assert(out@ =~= heading() + movie_blocks(views.take(i + 1)));
        i += 1;
    }
    assert(views.take(n as int) =~= views);
    out
}

} // verus!

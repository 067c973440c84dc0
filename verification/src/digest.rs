//! The aggregate of a week: the reviews of each movie, grouped by title.
//!
//! An `Aggregate` holds one `MovieGroup` for each title, in title order. A
//! group keeps the link that came with the title's first review, and its
//! reviews in the order in which they were recorded.

use vstd::prelude::*;
use crate::order::{comes_before, lemma_order_total, lemma_order_transitive, place_of, Place};
use crate::text::chars_of;

verus! {

/// One friend's review of one movie. An empty rating means that the movie
/// was watched and not rated.
#[derive(Debug)]
pub struct ReviewEntry {
    pub friend_name: String,
    pub rating_raw: String,
}

/// What a `ReviewEntry` holds, as sequences of characters.
pub ghost struct ReviewEntryView {
    pub friend_name: Seq<char>,
    pub rating_raw: Seq<char>,
}

impl View for ReviewEntry {
    type V = ReviewEntryView;

    open spec fn view(&self) -> ReviewEntryView {
        ReviewEntryView { friend_name: self.friend_name@, rating_raw: self.rating_raw@ }
    }
}

/// The reviews of one movie, with the movie's title and link.
#[derive(Debug)]
pub struct MovieGroup {
    pub title: String,
    pub general_link: String,
    pub reviews: Vec<ReviewEntry>,
}

/// What a `MovieGroup` holds, as sequences.
pub ghost struct MovieGroupView {
    pub title: Seq<char>,
    pub general_link: Seq<char>,
    pub reviews: Seq<ReviewEntryView>,
}

impl View for MovieGroup {
    type V = MovieGroupView;

    open spec fn view(&self) -> MovieGroupView {
        MovieGroupView {
            title: self.title@,
            general_link: self.general_link@,
            reviews: self.reviews@.map_values(|r: ReviewEntry| r@),
        }
    }
}

/// Whether the groups stand in title order. No title then occurs twice.
pub open spec fn in_title_order(groups: Seq<MovieGroupView>) -> bool {
    forall|i: int, j: int|
        0 <= i < j < groups.len() ==> comes_before(
            #[trigger] groups[i].title,
            #[trigger] groups[j].title,
        )
}

/// The index of the first group whose title does not come before `title`:
/// the place of `title` among groups in title order.
pub open spec fn slot(groups: Seq<MovieGroupView>, title: Seq<char>) -> int
    decreases groups.len(),
{
    if groups.len() == 0 || !comes_before(groups[0].title, title) {
        0
    } else {
        1 + slot(groups.drop_first(), title)
    }
}

/// Whether one of the groups has the given title.
pub open spec fn has_title(groups: Seq<MovieGroupView>, title: Seq<char>) -> bool {
    exists|i: int| 0 <= i < groups.len() && #[trigger] groups[i].title == title
}

/// The groups after one more review: the review is appended to the group of
/// its title, which keeps its link; where the title is new, a group is made
/// for it with the review's link, at the title's place.
pub open spec fn recorded(
    groups: Seq<MovieGroupView>,
    title: Seq<char>,
    link: Seq<char>,
    entry: ReviewEntryView,
) -> Seq<MovieGroupView> {
    let i = slot(groups, title);
    if i < groups.len() && groups[i].title == title {
        groups.update(
            i,
            MovieGroupView {
                title,
                general_link: groups[i].general_link,
                reviews: groups[i].reviews.push(entry),
            },
        )
    } else {
        groups.insert(i, MovieGroupView { title, general_link: link, reviews: seq![entry] })
    }
}

/// The slot of a title is the index up to which all titles come before it.
pub proof fn lemma_slot_is(groups: Seq<MovieGroupView>, title: Seq<char>, i: int)
    requires
        0 <= i <= groups.len(),
        forall|j: int| 0 <= j < i ==> comes_before(#[trigger] groups[j].title, title),
        i < groups.len() ==> !comes_before(groups[i].title, title),
    ensures
        slot(groups, title) == i,
    decreases i,
{
    if i > 0 {
        let rest = groups.drop_first();
        assert(comes_before(groups[0].title, title));
        assert forall|j: int| 0 <= j < i - 1 implies comes_before(
            #[trigger] rest[j].title,
            title,
        ) by {
            assert(rest[j] == groups[j + 1]);
        }
        lemma_slot_is(rest, title, i - 1);
    }
}

/// The slot of a title lies within the groups or just behind them, after
/// every title that comes before it.
pub proof fn lemma_slot_bounds(groups: Seq<MovieGroupView>, title: Seq<char>)
    ensures
        0 <= slot(groups, title) <= groups.len(),
        forall|j: int|
            0 <= j < slot(groups, title) ==> comes_before(#[trigger] groups[j].title, title),
        slot(groups, title) < groups.len() ==> !comes_before(
            groups[slot(groups, title)].title,
            title,
        ),
    decreases groups.len(),
{
    if groups.len() > 0 && comes_before(groups[0].title, title) {
        let rest = groups.drop_first();
        lemma_slot_bounds(rest, title);
        assert forall|j: int| 0 <= j < slot(groups, title) implies comes_before(
            #[trigger] groups[j].title,
            title,
        ) by {
            if j > 0 {
                assert(rest[j - 1] == groups[j]);
            }
        }
        if slot(groups, title) < groups.len() {
            assert(rest[slot(rest, title)] == groups[slot(groups, title)]);
        }
    }
}

/// Among groups in title order, a title that one of them has is found at
/// its slot.
pub proof fn lemma_slot_finds(groups: Seq<MovieGroupView>, title: Seq<char>, k: int)
    requires
        in_title_order(groups),
        0 <= k < groups.len(),
        groups[k].title == title,
    ensures
        slot(groups, title) == k,
{
    crate::order::lemma_order_irreflexive(title);
    lemma_slot_is(groups, title, k);
}

/// Recording a review keeps the groups in title order.
pub proof fn lemma_recorded_in_order(
    groups: Seq<MovieGroupView>,
    title: Seq<char>,
    link: Seq<char>,
    entry: ReviewEntryView,
)
    requires
        in_title_order(groups),
    ensures
        in_title_order(recorded(groups, title, link, entry)),
{
    let i = slot(groups, title);
    let after = recorded(groups, title, link, entry);
    lemma_slot_bounds(groups, title);
    if i < groups.len() && groups[i].title == title {
        assert forall|a: int, b: int| 0 <= a < b < after.len() implies comes_before(
            #[trigger] after[a].title,
            #[trigger] after[b].title,
        ) by {
            assert(after[a].title == groups[a].title);
            assert(after[b].title == groups[b].title);
        }
    } else {
        assert forall|a: int, b: int| 0 <= a < b < after.len() implies comes_before(
            #[trigger] after[a].title,
            #[trigger] after[b].title,
        ) by {
            if b < i {
                assert(after[a] == groups[a] && after[b] == groups[b]);
            } else if b == i {
                assert(after[a] == groups[a]);
            } else if a == i {
                assert(after[b] == groups[b - 1]);
                lemma_order_total(groups[i].title, title);
                if b - 1 > i {
                    lemma_order_transitive(title, groups[i].title, groups[b - 1].title);
                }
            } else if a < i {
                assert(after[a] == groups[a] && after[b] == groups[b - 1]);
            } else {
                assert(after[a] == groups[a - 1] && after[b] == groups[b - 1]);
            }
        }
    }
}

/// Two reviews of one title, recorded one after the other into an empty
/// aggregate, make one group: it has the first review's link, and both
/// reviews in the order in which they came.
pub proof fn lemma_two_reviews_one_group(
    title: Seq<char>,
    first_link: Seq<char>,
    first: ReviewEntryView,
    second_link: Seq<char>,
    second: ReviewEntryView,
)
    ensures
        recorded(
            recorded(Seq::empty(), title, first_link, first),
            title,
            second_link,
            second,
        ) == seq![
            MovieGroupView { title, general_link: first_link, reviews: seq![first, second] },
        ],
{
    let one = recorded(Seq::empty(), title, first_link, first);
    assert(one =~= seq![MovieGroupView { title, general_link: first_link, reviews: seq![first] }]);
    crate::order::lemma_order_irreflexive(title);
    assert(slot(one, title) == 0);
    let two = recorded(one, title, second_link, second);
    assert(seq![first].push(second) =~= seq![first, second]);
    assert(two =~= seq![
        MovieGroupView { title, general_link: first_link, reviews: seq![first, second] },
    ]);
}

/// A review of a title that has a group goes to that group: the group keeps
/// its link and its earlier reviews, the other groups stay as they were, and
/// no group is added.
pub proof fn lemma_recorded_known_title(
    groups: Seq<MovieGroupView>,
    title: Seq<char>,
    link: Seq<char>,
    entry: ReviewEntryView,
    k: int,
)
    requires
        in_title_order(groups),
        0 <= k < groups.len(),
        groups[k].title == title,
    ensures
        recorded(groups, title, link, entry) == groups.update(
            k,
            MovieGroupView {
                title,
                general_link: groups[k].general_link,
                reviews: groups[k].reviews.push(entry),
            },
        ),
{
    lemma_slot_finds(groups, title, k);
}

/// A review of a title that has no group yet makes one more group, with the
/// review's link and the review alone; the groups that were there stay as
/// they were.
pub proof fn lemma_recorded_new_title(
    groups: Seq<MovieGroupView>,
    title: Seq<char>,
    link: Seq<char>,
    entry: ReviewEntryView,
)
    requires
        !has_title(groups, title),
    ensures
        recorded(groups, title, link, entry) == groups.insert(
            slot(groups, title),
            MovieGroupView { title, general_link: link, reviews: seq![entry] },
        ),
        recorded(groups, title, link, entry).len() == groups.len() + 1,
{
    lemma_slot_bounds(groups, title);
    let i = slot(groups, title);
    if i < groups.len() {
        assert(groups[i].title != title);
    }
}

/// Groups in title order are fixed by what they hold: two such sequences with
/// the same groups, in whatever order those went in, are the same sequence.
pub proof fn lemma_order_is_canonical(a: Seq<MovieGroupView>, b: Seq<MovieGroupView>)
    requires
        in_title_order(a),
        in_title_order(b),
        forall|g: MovieGroupView| a.contains(g) <==> b.contains(g),
    ensures
        a == b,
    decreases a.len(),
{
    if a.len() == 0 {
        if b.len() > 0 {
            assert(b.contains(b[0]));
        }
        assert(a =~= b);
    } else if b.len() == 0 {
        assert(a.contains(a[0]));
    } else {
        // The first group of each is the one whose title comes before all others.
        assert(a.contains(a[0]));
        assert(b.contains(b[0]));
        let i = choose|i: int| 0 <= i < b.len() && b[i] == a[0];
        let j = choose|j: int| 0 <= j < a.len() && a[j] == b[0];
        if i > 0 {
            assert(comes_before(b[0].title, b[i].title));
            if j > 0 {
                assert(comes_before(a[0].title, a[j].title));
                crate::order::lemma_order_asymmetric(a[0].title, a[j].title);
            } else {
                crate::order::lemma_order_irreflexive(a[0].title);
            }
        }
        assert(a[0] == b[0]);
        let a1 = a.drop_first();
        let b1 = b.drop_first();
        assert forall|g: MovieGroupView| a1.contains(g) <==> b1.contains(g) by {
            crate::order::lemma_order_irreflexive(a[0].title);
            if a1.contains(g) {
                let k = choose|k: int| 0 <= k < a1.len() && a1[k] == g;
                assert(a[k + 1] == g);
                assert(a.contains(g));
                let m = choose|m: int| 0 <= m < b.len() && b[m] == g;
                assert(comes_before(a[0].title, a[k + 1].title));
                assert(m != 0);
                assert(b1[m - 1] == g);
            }
            if b1.contains(g) {
                let k = choose|k: int| 0 <= k < b1.len() && b1[k] == g;
                assert(b[k + 1] == g);
                assert(b.contains(g));
                let m = choose|m: int| 0 <= m < a.len() && a[m] == g;
                assert(comes_before(b[0].title, b[k + 1].title));
                assert(m != 0);
                assert(a1[m - 1] == g);
            }
        }
        assert forall|x: int, y: int| 0 <= x < y < a1.len() implies comes_before(
            #[trigger] a1[x].title,
            #[trigger] a1[y].title,
        ) by {
            assert(a1[x] == a[x + 1] && a1[y] == a[y + 1]);
        }
        assert forall|x: int, y: int| 0 <= x < y < b1.len() implies comes_before(
            #[trigger] b1[x].title,
            #[trigger] b1[y].title,
        ) by {
            assert(b1[x] == b[x + 1] && b1[y] == b[y + 1]);
        }
        lemma_order_is_canonical(a1, b1);
        assert(a =~= seq![a[0]] + a1);
        assert(b =~= seq![b[0]] + b1);
    }
}

/// The group that a review of `title` is in once it is recorded: the group
/// that the title had, with the review appended, or a group of its own.
pub open spec fn group_after(
    groups: Seq<MovieGroupView>,
    title: Seq<char>,
    link: Seq<char>,
    entry: ReviewEntryView,
) -> MovieGroupView {
    if has_title(groups, title) {
        let k = choose|k: int| 0 <= k < groups.len() && #[trigger] groups[k].title == title;
        MovieGroupView {
            title,
            general_link: groups[k].general_link,
            reviews: groups[k].reviews.push(entry),
        }
    } else {
        MovieGroupView { title, general_link: link, reviews: seq![entry] }
    }
}

/// What the groups hold after a review is recorded: the group that the
/// review is in, and every group of another title as it was.
pub proof fn lemma_recorded_contents(
    groups: Seq<MovieGroupView>,
    title: Seq<char>,
    link: Seq<char>,
    entry: ReviewEntryView,
)
    requires
        in_title_order(groups),
    ensures
        group_after(groups, title, link, entry).title == title,
        forall|g: MovieGroupView|
            #![trigger recorded(groups, title, link, entry).contains(g)]
            #![trigger groups.contains(g)]
            recorded(groups, title, link, entry).contains(g) <==> (groups.contains(g) && g.title
                != title) || g == group_after(groups, title, link, entry),
{
    let i = slot(groups, title);
    let after = recorded(groups, title, link, entry);
    let made = group_after(groups, title, link, entry);
    lemma_slot_bounds(groups, title);
    crate::order::lemma_order_irreflexive(title);
    if i < groups.len() && groups[i].title == title {
        let k = choose|k: int| 0 <= k < groups.len() && #[trigger] groups[k].title == title;
        lemma_slot_finds(groups, title, k);
        assert(after[i] == made);
        assert forall|g: MovieGroupView| after.contains(g) <==> (groups.contains(g) && g.title
            != title) || g == made by {
            if after.contains(g) {
                let j = choose|j: int| 0 <= j < after.len() && after[j] == g;
                if j != i {
                    assert(after[j] == groups[j]);
                    if j < i {
                        assert(comes_before(groups[j].title, groups[i].title));
                    } else {
                        assert(comes_before(groups[i].title, groups[j].title));
                    }
                }
            }
            if groups.contains(g) && g.title != title {
                let j = choose|j: int| 0 <= j < groups.len() && groups[j] == g;
                assert(after[j] == g);
            }
        }
    } else {
        if has_title(groups, title) {
            let k = choose|k: int| 0 <= k < groups.len() && #[trigger] groups[k].title == title;
            lemma_slot_finds(groups, title, k);
        }
        assert(after[i] == made);
        assert forall|g: MovieGroupView| after.contains(g) <==> (groups.contains(g) && g.title
            != title) || g == made by {
            if after.contains(g) {
                let j = choose|j: int| 0 <= j < after.len() && after[j] == g;
                if j < i {
                    assert(after[j] == groups[j]);
                } else if j > i {
                    assert(after[j] == groups[j - 1]);
                }
            }
            if groups.contains(g) && g.title != title {
                let j = choose|j: int| 0 <= j < groups.len() && groups[j] == g;
                if j < i {
                    assert(after[j] == g);
                } else {
                    assert(after[j + 1] == g);
                }
            }
        }
    }
}

/// Reviews of two different titles can be recorded in either order: the
/// groups that come out are the same, in the same places.
pub proof fn lemma_recording_commutes(
    groups: Seq<MovieGroupView>,
    title_a: Seq<char>,
    link_a: Seq<char>,
    entry_a: ReviewEntryView,
    title_b: Seq<char>,
    link_b: Seq<char>,
    entry_b: ReviewEntryView,
)
    requires
        in_title_order(groups),
        title_a != title_b,
    ensures
        recorded(recorded(groups, title_a, link_a, entry_a), title_b, link_b, entry_b)
            == recorded(recorded(groups, title_b, link_b, entry_b), title_a, link_a, entry_a),
{
    let with_a = recorded(groups, title_a, link_a, entry_a);
    let with_b = recorded(groups, title_b, link_b, entry_b);
    let a_then_b = recorded(with_a, title_b, link_b, entry_b);
    let b_then_a = recorded(with_b, title_a, link_a, entry_a);
    lemma_recorded_in_order(groups, title_a, link_a, entry_a);
    lemma_recorded_in_order(groups, title_b, link_b, entry_b);
    lemma_recorded_in_order(with_a, title_b, link_b, entry_b);
    lemma_recorded_in_order(with_b, title_a, link_a, entry_a);
    lemma_recorded_contents(groups, title_a, link_a, entry_a);
    lemma_recorded_contents(groups, title_b, link_b, entry_b);
    lemma_recorded_contents(with_a, title_b, link_b, entry_b);
    lemma_recorded_contents(with_b, title_a, link_a, entry_a);
    lemma_group_after_other_title(groups, title_a, link_a, entry_a, title_b, link_b, entry_b);
    lemma_group_after_other_title(groups, title_b, link_b, entry_b, title_a, link_a, entry_a);
    let made_a = group_after(groups, title_a, link_a, entry_a);
    let made_b = group_after(groups, title_b, link_b, entry_b);
    assert forall|g: MovieGroupView| a_then_b.contains(g) <==> b_then_a.contains(g) by {
        assert(with_a.contains(g) <==> (groups.contains(g) && g.title != title_a) || g == made_a);
        assert(with_b.contains(g) <==> (groups.contains(g) && g.title != title_b) || g == made_b);
        assert(a_then_b.contains(g) <==> (with_a.contains(g) && g.title != title_b) || g
            == made_b);
        assert(b_then_a.contains(g) <==> (with_b.contains(g) && g.title != title_a) || g
            == made_a);
    }
    lemma_order_is_canonical(a_then_b, b_then_a);
}

/// Recording a review of one title does not change the group that a review
/// of another title will be in.
proof fn lemma_group_after_other_title(
    groups: Seq<MovieGroupView>,
    title_a: Seq<char>,
    link_a: Seq<char>,
    entry_a: ReviewEntryView,
    title_b: Seq<char>,
    link_b: Seq<char>,
    entry_b: ReviewEntryView,
)
    requires
        in_title_order(groups),
        title_a != title_b,
    ensures
        group_after(recorded(groups, title_a, link_a, entry_a), title_b, link_b, entry_b)
            == group_after(groups, title_b, link_b, entry_b),
{
    let with_a = recorded(groups, title_a, link_a, entry_a);
    lemma_recorded_contents(groups, title_a, link_a, entry_a);
    lemma_recorded_in_order(groups, title_a, link_a, entry_a);
    if has_title(groups, title_b) {
        let k = choose|k: int| 0 <= k < groups.len() && #[trigger] groups[k].title == title_b;
        assert(groups.contains(groups[k]));
        assert(with_a.contains(groups[k]));
        let j = choose|j: int| 0 <= j < with_a.len() && with_a[j] == groups[k];
        assert(with_a[j].title == title_b);
        assert(has_title(with_a, title_b));
        let m = choose|m: int| 0 <= m < with_a.len() && #[trigger] with_a[m].title == title_b;
        lemma_slot_finds(with_a, title_b, m);
        lemma_slot_finds(with_a, title_b, j);
    } else if has_title(with_a, title_b) {
        let m = choose|m: int| 0 <= m < with_a.len() && #[trigger] with_a[m].title == title_b;
        assert(with_a.contains(with_a[m]));
        assert(groups.contains(with_a[m]));
        let j = choose|j: int| 0 <= j < groups.len() && groups[j] == with_a[m];
        assert(groups[j].title == title_b);
    }
}

/// The movies of a week, each with its reviews.
pub struct Aggregate {
    groups: Vec<MovieGroup>,
}

impl View for Aggregate {
    type V = Seq<MovieGroupView>;

    closed spec fn view(&self) -> Seq<MovieGroupView> {
        self.groups@.map_values(|g: MovieGroup| g@)
    }
}

impl Aggregate {
    #[verifier::type_invariant]
    spec fn ordered(&self) -> bool {
        in_title_order(self@)
    }

    /// An aggregate without movies.
    pub fn new() -> (r: Aggregate)
        ensures
            r@ == Seq::<MovieGroupView>::empty(),
    {
        let r = Aggregate { groups: Vec::new() };
        assert(r@ =~= Seq::<MovieGroupView>::empty());
        r
    }

    /// The groups, in title order.
    pub fn groups(&self) -> (r: &Vec<MovieGroup>)
        ensures
            r@.map_values(|g: MovieGroup| g@) == self@,
            in_title_order(self@),
    {
        proof {
            use_type_invariant(self);
        }
        &self.groups
    }

    /// Whether no movie has been recorded.
    pub fn is_empty(&self) -> (r: bool)
        ensures
            r == (self@.len() == 0),
    {
        self.groups.len() == 0
    }

    /// Records one review of the movie with the given title.
    pub fn record(&mut self, title: String, link: String, entry: ReviewEntry)
        ensures
            final(self)@ == recorded(old(self)@, title@, link@, entry@),
            in_title_order(final(self)@),
    {
        proof {
            use_type_invariant(&*self);
            lemma_recorded_in_order(self@, title@, link@, entry@);
        }
        let ghost before = self@;
        let key = chars_of(title.as_str());
        let n: usize = self.groups.len();
        let mut i: usize = 0;
        let mut found = false;
        while i < n
            invariant_except_break
                !found,
            invariant
                i <= n,
                n == self.groups@.len(),
                self@ == before,
                key@ == title@,
                forall|j: int| 0 <= j < i ==> comes_before(#[trigger] before[j].title, title@),
            ensures
                i <= n,
                n == self.groups@.len(),
                self@ == before,
                forall|j: int| 0 <= j < i ==> comes_before(#[trigger] before[j].title, title@),
                i < n ==> !comes_before(before[i as int].title, title@),
                found ==> i < n && before[i as int].title == title@,
                !found && i < n ==> before[i as int].title != title@,
            decreases n - i,
        {
            let other = chars_of(self.groups[i].title.as_str());
            assert(before[i as int].title == other@);
            match place_of(&other, &key) {
                Place::Before => {
                    i += 1;
                },
                Place::Same => {
                    proof {
                        crate::order::lemma_order_irreflexive(title@);
                    }
                    found = true;
                    break ;
                },
                Place::After => {
                    proof {
                        crate::order::lemma_order_asymmetric(title@, other@);
                        crate::order::lemma_order_irreflexive(title@);
                    }
                    break ;
                },
            }
        }
        proof {
            lemma_slot_is(before, title@, i as int);
        }
        let mut groups: Vec<MovieGroup> = Vec::new();
        core::mem::swap(&mut self.groups, &mut groups);
        assert(groups@.map_values(|g: MovieGroup| g@) == before);
        if found {
            let mut group = groups.remove(i);
            assert(group@ == before[i as int]);
            group.reviews.push(entry);
            let ghost pushed = MovieGroupView {
                title: title@,
                general_link: before[i as int].general_link,
                reviews: before[i as int].reviews.push(entry@),
            };
            assert(group@.reviews =~= pushed.reviews);
            assert(group@ == pushed);
            groups.insert(i, group);
            assert(groups@.map_values(|g: MovieGroup| g@) =~= before.update(i as int, pushed));
        } else {
            let mut reviews: Vec<ReviewEntry> = Vec::new();
            reviews.push(entry);
            let group = MovieGroup { title, general_link: link, reviews };
            let ghost made = MovieGroupView {
                title: title@,
                general_link: link@,
                reviews: seq![entry@],
            };
            assert(group@.reviews =~= made.reviews);
            groups.insert(i, group);
            assert(groups@.map_values(|g: MovieGroup| g@) =~= before.insert(i as int, made));
        }
        self.groups = groups;
    }
}

} // verus!

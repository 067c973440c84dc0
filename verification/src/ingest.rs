//! Fills the aggregate from the friends' feeds.
//!
//! A feed item counts when it was published in the seven days before the
//! digest's instant. Its title gives the movie and the rating, its link the
//! movie's link. A `Collector` walks the roster: it names the feed to fetch
//! next and takes in what the fetch brought, so that whoever does the
//! fetching holds no rule of the digest.

use vstd::prelude::*;
use crate::digest::{recorded, Aggregate, MovieGroupView, ReviewEntry, ReviewEntryView};
use crate::feed::{feed_items, item_views, read_feed, RawFeedItem, RawFeedItemView};
use crate::link::{normalize_link, normalized};
use crate::roster::{
    csv_rows, entry_views, feed_address, feed_url, parse_roster, roster_of, text_of, RosterEntry,
    RosterEntryView,
};
use crate::title::{parse_title, parsed};
use crate::window::{in_window, is_in_window, Instant, WEEK_SECONDS};

verus! {

/// The groups after one feed item of a friend: an item inside the window is
/// recorded under its parsed title with its normalized link, an item outside
/// of it changes nothing.
pub open spec fn absorbed(
    groups: Seq<MovieGroupView>,
    friend: Seq<char>,
    item: RawFeedItemView,
    now: Instant,
) -> Seq<MovieGroupView> {
    if in_window(item.published_at, now) {
        let review = parsed(item.title);
        recorded(
            groups,
            review.movie_title,
            normalized(item.link),
            ReviewEntryView { friend_name: friend, rating_raw: review.rating_token },
        )
    } else {
        groups
    }
}

/// The groups after the feed items of a friend, taken in the feed's order.
pub open spec fn absorbed_all(
    groups: Seq<MovieGroupView>,
    friend: Seq<char>,
    items: Seq<RawFeedItemView>,
    now: Instant,
) -> Seq<MovieGroupView>
    decreases items.len(),
{
    if items.len() == 0 {
        groups
    } else {
        absorbed(absorbed_all(groups, friend, items.drop_last(), now), friend, items.last(), now)
    }
}

/// The groups after what a fetch of a friend's feed brought: a fetch that
/// failed, a document that nests deeper than the limit and a document that
/// is no feed change nothing.
pub open spec fn absorbed_feed(
    groups: Seq<MovieGroupView>,
    friend: Seq<char>,
    body: Option<Seq<u8>>,
    now: Instant,
) -> Seq<MovieGroupView> {
    match body {
        Some(bytes) => match feed_items(bytes) {
            Some(items) => absorbed_all(groups, friend, items, now),
            None => groups,
        },
        None => groups,
    }
}

/// The bytes of a body that may be missing.
pub open spec fn body_view(body: Option<&[u8]>) -> Option<Seq<u8>> {
    match body {
        Some(bytes) => Some(bytes@),
        None => None,
    }
}

/// An item published exactly seven days before the digest's instant is
/// recorded; an item published earlier than that leaves the groups as they
/// were.
pub proof fn lemma_window_decides(
    groups: Seq<MovieGroupView>,
    friend: Seq<char>,
    item: RawFeedItemView,
    now: Instant,
)
    ensures
        item.published_at.secs == now.secs - WEEK_SECONDS
            && item.published_at.nanos == now.nanos ==> absorbed(groups, friend, item, now)
            == recorded(
            groups,
            parsed(item.title).movie_title,
            normalized(item.link),
            ReviewEntryView { friend_name: friend, rating_raw: parsed(item.title).rating_token },
        ),
        item.published_at.secs < now.secs - WEEK_SECONDS || (
        item.published_at.secs == now.secs - WEEK_SECONDS
            && item.published_at.nanos < now.nanos) ==> absorbed(groups, friend, item, now)
            == groups,
{
}

/// Two friends whose items give the same movie title make one group: it has
/// the link of the first item, and both reviews in the order of the friends.
pub proof fn lemma_two_friends_one_group(
    first_friend: Seq<char>,
    first: RawFeedItemView,
    second_friend: Seq<char>,
    second: RawFeedItemView,
    now: Instant,
)
    requires
        in_window(first.published_at, now),
        in_window(second.published_at, now),
        parsed(first.title).movie_title == parsed(second.title).movie_title,
    ensures
        absorbed(absorbed(Seq::empty(), first_friend, first, now), second_friend, second, now)
            == seq![
            MovieGroupView {
                title: parsed(first.title).movie_title,
                general_link: normalized(first.link),
                reviews: seq![
                    ReviewEntryView {
                        friend_name: first_friend,
                        rating_raw: parsed(first.title).rating_token,
                    },
                    ReviewEntryView {
                        friend_name: second_friend,
                        rating_raw: parsed(second.title).rating_token,
                    },
                ],
            },
        ],
{
    crate::digest::lemma_two_reviews_one_group(
        parsed(first.title).movie_title,
        normalized(first.link),
        ReviewEntryView { friend_name: first_friend, rating_raw: parsed(first.title).rating_token },
        normalized(second.link),
        ReviewEntryView {
            friend_name: second_friend,
            rating_raw: parsed(second.title).rating_token,
        },
    );
}

/// Takes one feed item of a friend into the aggregate.
pub fn add_item(aggregate: &mut Aggregate, friend_name: &str, item: &RawFeedItem, now: Instant)
    ensures
        final(aggregate)@ == absorbed(old(aggregate)@, friend_name@, item@, now),
{
    if is_in_window(item.published_at, now) {
        let review = parse_title(item.title.as_str());
        let link = normalize_link(item.link.as_str());
        let entry = ReviewEntry {
            friend_name: friend_name.to_owned(),
            rating_raw: review.rating_token,
        };
        aggregate.record(review.movie_title, link, entry);
    }
}

/// Takes the feed items of a friend into the aggregate, in the feed's order.
pub fn add_items(
    aggregate: &mut Aggregate,
    friend_name: &str,
    items: &Vec<RawFeedItem>,
    now: Instant,
)
    ensures
        final(aggregate)@ == absorbed_all(old(aggregate)@, friend_name@, item_views(items@), now),
{
    let ghost start = aggregate@;
    let ghost views = item_views(items@);
    let n: usize = items.len();
    let mut i: usize = 0;
    while i < n
        invariant
            i <= n,
            n == items@.len(),
            views == item_views(items@),
            aggregate@ == absorbed_all(start, friend_name@, views.take(i as int), now),
        decreases n - i,
    {
        assert(views.take(i + 1).drop_last() =~= views.take(i as int));
        assert(views.take(i + 1).last() == items@[i as int]@);
        add_item(aggregate, friend_name, &items[i], now);
        i += 1;
    }
    assert(views.take(n as int) =~= views);
}

/// Takes what a fetch of a friend's feed brought into the aggregate. `None`
/// stands for a fetch that failed.
pub fn add_feed(aggregate: &mut Aggregate, friend_name: &str, body: Option<&[u8]>, now: Instant)
    ensures
        final(aggregate)@ == absorbed_feed(old(aggregate)@, friend_name@, body_view(body), now),
{
    match body {
        Some(bytes) => match read_feed(bytes) {
            Some(items) => add_items(aggregate, friend_name, &items, now),
            None => {},
        },
        None => {},
    }
}

/// The walk over a roster that fills an aggregate.
pub struct Collector {
    roster: Vec<RosterEntry>,
    position: usize,
    now: Instant,
    aggregate: Aggregate,
}

/// What a `Collector` holds: the roster, how many friends are done, the
/// digest's instant, and the groups so far.
pub ghost struct CollectorView {
    pub roster: Seq<RosterEntryView>,
    pub position: int,
    pub now: Instant,
    pub groups: Seq<MovieGroupView>,
}

impl View for Collector {
    type V = CollectorView;

    closed spec fn view(&self) -> CollectorView {
        CollectorView {
            roster: entry_views(self.roster@),
            position: self.position as int,
            now: self.now,
            groups: self.aggregate@,
        }
    }
}

/// The roster that a sheet gives: its entries where it can be read, and no
/// friend at all where it cannot, or where there is no sheet.
pub open spec fn roster_or_none(sheet: Option<Seq<char>>) -> Seq<RosterEntryView> {
    match sheet {
        Some(content) => match roster_of(csv_rows(content)) {
            Ok(entries) => entries,
            Err(_) => Seq::empty(),
        },
        None => Seq::empty(),
    }
}

/// The collector after what the fetch of the next friend's feed brought.
/// Once the roster is done nothing changes any more.
pub open spec fn delivered(state: CollectorView, body: Option<Seq<u8>>) -> CollectorView {
    if 0 <= state.position < state.roster.len() {
        CollectorView {
            roster: state.roster,
            position: state.position + 1,
            now: state.now,
            groups: absorbed_feed(
                state.groups,
                state.roster[state.position].display_name,
                body,
                state.now,
            ),
        }
    } else {
        state
    }
}

/// The groups after the feeds of the friends from `position` on, where
/// `bodies` holds what the fetch for each friend of the roster brought.
pub open spec fn collected_from(
    state: CollectorView,
    bodies: Seq<Option<Seq<u8>>>,
) -> Seq<MovieGroupView>
    decreases state.roster.len() - state.position,
{
    if 0 <= state.position < state.roster.len() && state.position < bodies.len() {
        collected_from(delivered(state, bodies[state.position]), bodies)
    } else {
        state.groups
    }
}

impl Collector {
    #[verifier::type_invariant]
    spec fn within(&self) -> bool {
        self.position <= self.roster@.len()
    }

    /// A collector at the start of the roster, with no movie recorded.
    pub fn new(roster: Vec<RosterEntry>, now: Instant) -> (r: Collector)
        ensures
            r@ == (CollectorView {
                roster: entry_views(roster@),
                position: 0,
                now,
                groups: Seq::empty(),
            }),
    {
        Collector { roster, position: 0, now, aggregate: Aggregate::new() }
    }

    /// A collector for the roster that a sheet of CSV text gives. A sheet
    /// that could not be fetched, given as `None`, and a sheet that cannot be
    /// read give a roster without friends, and so the digest of a week
    /// without movies.
    pub fn from_sheet(sheet: Option<&str>, now: Instant) -> (r: Collector)
        ensures
            r@ == (CollectorView {
                roster: roster_or_none(text_of(sheet)),
                position: 0,
                now,
                groups: Seq::empty(),
            }),
    {
        let roster = match sheet {
            Some(content) => match parse_roster(content) {
                Ok(entries) => entries,
                Err(_) => Vec::new(),
            },
            None => Vec::new(),
        };
        assert(roster@.len() == 0 ==> entry_views(roster@) =~= Seq::<RosterEntryView>::empty());
        Collector::new(roster, now)
    }

    /// The address of the feed to fetch next, or `None` once every friend of
    /// the roster is done.
    pub fn next_request(&self) -> (r: Option<String>)
        ensures
            match r {
                Some(url) => 0 <= self@.position < self@.roster.len() && url@ == feed_address(
                    self@.roster[self@.position].feed_username,
                ),
                None => self@.position == self@.roster.len(),
            },
    {
        proof {
            use_type_invariant(self);
        }
        if self.position < self.roster.len() {
            Some(feed_url(self.roster[self.position].feed_username.as_str()))
        } else {
            None
        }
    }

    /// Takes in what the fetch of the next friend's feed brought, and moves
    /// on to the friend after. `None` stands for a fetch that failed.
    pub fn deliver(&mut self, body: Option<&[u8]>)
        ensures
            final(self)@ == delivered(old(self)@, body_view(body)),
    {
        proof {
            use_type_invariant(&*self);
        }
        if self.position < self.roster.len() {
            let mut aggregate = Aggregate::new();
            core::mem::swap(&mut self.aggregate, &mut aggregate);
            add_feed(
                &mut aggregate,
                self.roster[self.position].display_name.as_str(),
                body,
                self.now,
            );
            self.aggregate = aggregate;
            self.position = self.position + 1;
        }
    }

    /// Whether every friend of the roster is done.
    pub fn is_done(&self) -> (r: bool)
        ensures
            r == (self@.position == self@.roster.len()),
    {
        proof {
            use_type_invariant(self);
        }
        self.position >= self.roster.len()
    }

    /// The aggregate as it stands.
    pub fn finish(self) -> (r: Aggregate)
        ensures
            r@ == self@.groups,
    {
        self.aggregate
    }
}

/// Fills an aggregate from a roster and from what the fetch of each friend's
/// feed brought, friend by friend in the roster's order. A friend for whom
/// `bodies` holds nothing ends the walk.
pub fn gather(roster: Vec<RosterEntry>, bodies: &Vec<Option<Vec<u8>>>, now: Instant) -> (r:
    Aggregate)
    ensures
        r@ == collected_from(
            CollectorView {
                roster: entry_views(roster@),
                position: 0,
                now,
                groups: Seq::empty(),
            },
            bodies_view(bodies@),
        ),
{
    let ghost views = bodies_view(bodies@);
    let mut collector = Collector::new(roster, now);
    let ghost start = collector@;
    let mut i: usize = 0;
    while i < bodies.len() && !collector.is_done()
        invariant
            views == bodies_view(bodies@),
            collector@.position == i,
            i <= bodies@.len(),
            0 <= collector@.position <= collector@.roster.len(),
            collected_from(collector@, views) == collected_from(start, views),
        decreases bodies@.len() - i,
    {
        let body: Option<&[u8]> = match &bodies[i] {
            Some(bytes) => Some(bytes.as_slice()),
            None => None,
        };
        assert(body_view(body) == views[i as int]);
        collector.deliver(body);
        i += 1;
    }
    collector.finish()
}

/// The bytes of each body in `bodies`.
pub open spec fn bodies_view(bodies: Seq<Option<Vec<u8>>>) -> Seq<Option<Seq<u8>>> {
    bodies.map_values(
        |body: Option<Vec<u8>>|
            match body {
                Some(bytes) => Some(bytes@),
                None => None,
            },
    )
}

} // verus!

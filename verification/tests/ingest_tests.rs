use movie_digest::digest::{Aggregate, MovieGroup};
use movie_digest::feed::RawFeedItem;
use movie_digest::ingest::{add_feed, add_item, add_items, gather, Collector};
use movie_digest::roster::RosterEntry;
use movie_digest::window::Instant;

const NOW: Instant = Instant { secs: 1_793_188_800, nanos: 0 };
const DAY: i64 = 86_400;

fn item(title: &str, link: &str, days_ago: i64) -> RawFeedItem {
    RawFeedItem {
        title: title.to_string(),
        link: link.to_string(),
        published_at: Instant { secs: NOW.secs - days_ago * DAY, nanos: 0 },
    }
}

fn friend(name: &str, username: &str) -> RosterEntry {
    RosterEntry { display_name: name.to_string(), feed_username: username.to_string() }
}

fn reviews_of(group: &MovieGroup) -> Vec<(String, String)> {
    group.reviews.iter().map(|r| (r.friend_name.clone(), r.rating_raw.clone())).collect()
}

fn pair(name: &str, rating: &str) -> (String, String) {
    (name.to_string(), rating.to_string())
}

fn document(items: &str) -> Vec<u8> {
    format!(
        "<?xml version=\"1.0\" encoding=\"UTF-8\"?><rss version=\"2.0\"><channel>\
         <title>Feed</title><link>https://letterboxd.com/</link>\
         <description>Reviews</description>{}</channel></rss>",
        items
    )
    .into_bytes()
}

fn entry(title: &str, link: &str, date: &str) -> String {
    format!("<item><title>{}</title><link>{}</link><pubDate>{}</pubDate></item>", title, link, date)
}

#[test]
fn item_in_the_window_is_recorded() {
    let mut aggregate = Aggregate::new();
    add_item(&mut aggregate, "Alice", &item("Dune - ★★★★", "https://letterboxd.com/alice/film/dune/", 2), NOW);
    let groups = aggregate.groups();
    assert_eq!(groups.len(), 1);
    assert_eq!(groups[0].title, "Dune");
    assert_eq!(groups[0].general_link, "https://letterboxd.com/film/dune/");
    assert_eq!(reviews_of(&groups[0]), vec![pair("Alice", "★★★★")]);
}

#[test]
fn items_older_than_seven_days_are_left_out() {
    let mut aggregate = Aggregate::new();
    add_item(&mut aggregate, "Alice", &item("Dune", "l", 8), NOW);
    assert!(aggregate.is_empty());
    let mut late = item("Dune", "l", 7);
    late.published_at.secs -= 1;
    add_item(&mut aggregate, "Alice", &late, NOW);
    assert!(aggregate.is_empty());
}

#[test]
fn item_at_the_boundary_is_taken() {
    let mut aggregate = Aggregate::new();
    add_item(&mut aggregate, "Alice", &item("Dune", "l", 7), NOW);
    assert_eq!(aggregate.groups().len(), 1);
}

#[test]
fn two_friends_share_one_group() {
    let mut aggregate = Aggregate::new();
    add_items(&mut aggregate, "Alice", &vec![item("Heat - ★★★", "https://letterboxd.com/alice/film/heat/", 1)], NOW);
    add_items(&mut aggregate, "Bob", &vec![item("Heat - ★★★★★", "https://example.com/other", 3)], NOW);
    let groups = aggregate.groups();
    assert_eq!(groups.len(), 1);
    assert_eq!(groups[0].title, "Heat");
    assert_eq!(groups[0].general_link, "https://letterboxd.com/film/heat/");
    assert_eq!(reviews_of(&groups[0]), vec![pair("Alice", "★★★"), pair("Bob", "★★★★★")]);
}

#[test]
fn link_comes_from_the_review_that_made_the_group() {
    let mut aggregate = Aggregate::new();
    add_items(&mut aggregate, "Bob", &vec![item("Heat", "https://example.com/other", 3)], NOW);
    add_items(&mut aggregate, "Alice", &vec![item("Heat", "https://letterboxd.com/alice/film/heat/", 1)], NOW);
    let groups = aggregate.groups();
    assert_eq!(groups[0].general_link, "https://example.com/other");
    assert_eq!(reviews_of(&groups[0]), vec![pair("Bob", ""), pair("Alice", "")]);
}

#[test]
fn items_of_a_feed_are_taken_in_its_order() {
    let mut aggregate = Aggregate::new();
    let items = vec![
        item("Heat - ★", "a", 1),
        item("Old - ★★★★★", "b", 30),
        item("Heat - ★★", "c", 2),
        item("Alien", "d", 0),
    ];
    add_items(&mut aggregate, "Alice", &items, NOW);
    let groups = aggregate.groups();
    assert_eq!(groups.len(), 2);
    assert_eq!(groups[0].title, "Alien");
    assert_eq!(groups[1].title, "Heat");
    assert_eq!(groups[1].general_link, "a");
    assert_eq!(reviews_of(&groups[1]), vec![pair("Alice", "★"), pair("Alice", "★★")]);
}

#[test]
fn feed_bytes_go_through_the_readers() {
    let mut aggregate = Aggregate::new();
    let bytes = document(&format!(
        "{}{}{}<item><title>Undated</title></item>",
        entry("Dune - ★★★★", "https://letterboxd.com/alice/film/dune/", "Mon, 26 Oct 2026 12:00:00 +0000"),
        entry("Too Old - ★", "https://letterboxd.com/alice/film/old/", "Tue, 20 Oct 2026 12:00:00 +0000"),
        entry("Edge", "https://letterboxd.com/alice/film/edge/", "Wed, 21 Oct 2026 14:00:00 +0200"),
    ));
    add_feed(&mut aggregate, "Alice", Some(&bytes), NOW);
    let groups = aggregate.groups();
    assert_eq!(groups.len(), 2);
    assert_eq!(groups[0].title, "Dune");
    assert_eq!(groups[0].general_link, "https://letterboxd.com/film/dune/");
    assert_eq!(reviews_of(&groups[0]), vec![pair("Alice", "★★★★")]);
    assert_eq!(groups[1].title, "Edge");
}

#[test]
fn one_second_before_the_boundary_is_too_old() {
    let mut aggregate = Aggregate::new();
    let bytes = document(&entry("Late", "l", "Wed, 21 Oct 2026 11:59:59 +0000"));
    add_feed(&mut aggregate, "Alice", Some(&bytes), NOW);
    assert!(aggregate.is_empty());
}

#[test]
fn failed_fetch_and_bad_feed_change_nothing() {
    let mut aggregate = Aggregate::new();
    add_items(&mut aggregate, "Alice", &vec![item("Heat", "a", 1)], NOW);
    add_feed(&mut aggregate, "Bob", None, NOW);
    add_feed(&mut aggregate, "Bob", Some(b"<html>not a feed</html>"), NOW);
    add_feed(&mut aggregate, "Bob", Some(b""), NOW);
    assert_eq!(aggregate.groups().len(), 1);
    assert_eq!(reviews_of(&aggregate.groups()[0]), vec![pair("Alice", "")]);
}

#[test]
fn collector_names_each_feed_in_roster_order() {
    let mut collector = Collector::new(vec![friend("Alice", "alice"), friend("Bob", "bob")], NOW);
    assert!(!collector.is_done());
    assert_eq!(collector.next_request().unwrap(), "https://letterboxd.com/alice/rss/");
    collector.deliver(None);
    assert_eq!(collector.next_request().unwrap(), "https://letterboxd.com/bob/rss/");
    collector.deliver(None);
    assert!(collector.is_done());
    assert!(collector.next_request().is_none());
    assert!(collector.finish().is_empty());
}

#[test]
fn collector_credits_the_friend_whose_feed_it_is() {
    let alice = document(&entry("Heat - ★★★", "https://letterboxd.com/alice/film/heat/", "Tue, 27 Oct 2026 12:00:00 +0000"));
    let carol = document(&entry("Heat", "https://letterboxd.com/carol/film/heat/", "Mon, 26 Oct 2026 12:00:00 +0000"));
    let mut collector = Collector::new(
        vec![friend("Alice", "alice"), friend("Bob", "bob"), friend("Carol", "carol")],
        NOW,
    );
    collector.deliver(Some(&alice));
    collector.deliver(None);
    collector.deliver(Some(&carol));
    assert!(collector.is_done());
    let aggregate = collector.finish();
    assert_eq!(aggregate.groups().len(), 1);
    assert_eq!(reviews_of(&aggregate.groups()[0]), vec![pair("Alice", "★★★"), pair("Carol", "")]);
}

#[test]
fn delivery_after_the_last_friend_is_ignored() {
    let feed = document(&entry("Heat", "l", "Tue, 27 Oct 2026 12:00:00 +0000"));
    let mut collector = Collector::new(vec![friend("Alice", "alice")], NOW);
    collector.deliver(None);
    collector.deliver(Some(&feed));
    assert!(collector.is_done());
    assert!(collector.finish().is_empty());
    let mut empty = Collector::new(Vec::new(), NOW);
    assert!(empty.is_done());
    empty.deliver(Some(&feed));
    assert!(empty.finish().is_empty());
}

#[test]
fn gather_walks_the_whole_roster() {
    let alice = document(&entry("Heat - ★★★", "https://letterboxd.com/alice/film/heat/", "Tue, 27 Oct 2026 12:00:00 +0000"));
    let bob = document(&entry("Alien - ½", "https://letterboxd.com/bob/film/alien/", "Tue, 27 Oct 2026 12:00:00 +0000"));
    let aggregate = gather(
        vec![friend("Alice", "alice"), friend("Broken", "broken"), friend("Bob", "bob")],
        &vec![Some(alice), Some(b"garbage".to_vec()), Some(bob)],
        NOW,
    );
    let groups = aggregate.groups();
    assert_eq!(groups.len(), 2);
    assert_eq!(groups[0].title, "Alien");
    assert_eq!(reviews_of(&groups[0]), vec![pair("Bob", "½")]);
    assert_eq!(groups[1].title, "Heat");
    assert_eq!(reviews_of(&groups[1]), vec![pair("Alice", "★★★")]);
}

#[test]
fn sheet_gives_the_collector_its_roster() {
    let mut collector = Collector::from_sheet(Some("name,username\n Alice , alice \nBob,bob\n"), NOW);
    assert_eq!(collector.next_request().unwrap(), "https://letterboxd.com/alice/rss/");
    let feed = document(&entry("Heat", "l", "Tue, 27 Oct 2026 12:00:00 +0000"));
    collector.deliver(Some(&feed));
    assert_eq!(collector.next_request().unwrap(), "https://letterboxd.com/bob/rss/");
    collector.deliver(None);
    assert!(collector.is_done());
    let aggregate = collector.finish();
    assert_eq!(reviews_of(&aggregate.groups()[0]), vec![pair("Alice", "")]);
}

#[test]
fn sheet_that_cannot_be_read_gives_an_empty_week() {
    for sheet in [None, Some("name\nAlice\n"), Some("name,username\nAlice,alice\nBob\n")] {
        let collector = Collector::from_sheet(sheet, NOW);
        assert!(collector.is_done());
        assert!(collector.next_request().is_none());
        assert!(collector.finish().is_empty());
    }
}

#[test]
fn feed_nested_too_deep_changes_nothing() {
    let mut aggregate = Aggregate::new();
    add_items(&mut aggregate, "Alice", &vec![item("Heat", "a", 1)], NOW);
    let mut deep = String::from("<rss version=\"2.0\"><channel><x:a>");
    deep.push_str(&"<b>".repeat(50_000));
    deep.push_str(&"</b>".repeat(50_000));
    deep.push_str("</x:a>");
    deep.push_str(&entry("Dune", "l", "Tue, 27 Oct 2026 12:00:00 +0000"));
    deep.push_str("</channel></rss>");
    add_feed(&mut aggregate, "Bob", Some(deep.as_bytes()), NOW);
    assert_eq!(aggregate.groups().len(), 1);
    assert_eq!(reviews_of(&aggregate.groups()[0]), vec![pair("Alice", "")]);
}

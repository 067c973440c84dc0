use movie_digest::feed::RawFeedItem;
use movie_digest::ingest::{add_items, Collector};
use movie_digest::digest::Aggregate;
use movie_digest::render::create_message;
use movie_digest::roster::parse_roster;
use movie_digest::window::Instant;

const NOW: Instant = Instant { secs: 1_793_188_800, nanos: 0 };

fn document(items: &str) -> Vec<u8> {
    format!(
        "<?xml version=\"1.0\" encoding=\"UTF-8\"?><rss version=\"2.0\"><channel>\
         <title>Feed</title><link>https://letterboxd.com/</link>\
         <description>Reviews</description>{}</channel></rss>",
        items
    )
    .into_bytes()
}

#[test]
fn alice_and_bob_watch_dune() {
    let mut aggregate = Aggregate::new();
    let alice = vec![RawFeedItem {
        title: "Dune - ★★★★".to_string(),
        link: "https://letterboxd.com/alice/film/dune/".to_string(),
        published_at: Instant { secs: NOW.secs - 2 * 86_400, nanos: 0 },
    }];
    let bob = vec![RawFeedItem {
        title: "Dune".to_string(),
        link: "https://letterboxd.com/bob/film/dune/".to_string(),
        published_at: Instant { secs: NOW.secs - 86_400, nanos: 0 },
    }];
    add_items(&mut aggregate, "Alice", &alice, NOW);
    add_items(&mut aggregate, "Bob", &bob, NOW);

    let groups = aggregate.groups();
    assert_eq!(groups.len(), 1);
    assert_eq!(groups[0].title, "Dune");
    assert_eq!(groups[0].general_link, "https://letterboxd.com/film/dune/");
    let reviews: Vec<(&str, &str)> =
        groups[0].reviews.iter().map(|r| (r.friend_name.as_str(), r.rating_raw.as_str())).collect();
    assert_eq!(reviews, vec![("Alice", "★★★★"), ("Bob", "")]);

    let message = create_message(&aggregate);
    let rated = message.find("Alice* rated (★★★★) 🔥").unwrap();
    let watched = message.find("Bob* watched 🍿").unwrap();
    assert!(rated < watched);
    assert_eq!(
        message,
        "*🍿 Weekly Movie Round-up 🍿*\n\n🎬 *Dune*\nhttps://letterboxd.com/film/dune/\n\
         • *Alice* rated (★★★★) 🔥\n• *Bob* watched 🍿\n\n"
    );
}

#[test]
fn sheet_and_feeds_become_the_digest() {
    let roster = parse_roster("Name,Username\nAlice,alice\nBob,bob\nCarol,carol\n").ok().unwrap();
    let mut collector = Collector::new(roster, NOW);
    let mut fetched = Vec::new();
    while let Some(url) = collector.next_request() {
        let body = if url == "https://letterboxd.com/alice/rss/" {
            Some(document(
                "<item><title>Dune - ★★★★</title><link>https://letterboxd.com/alice/film/dune/</link>\
                 <pubDate>Mon, 26 Oct 2026 12:00:00 +0000</pubDate></item>\
                 <item><title>Alien - ★★★★★</title><link>https://letterboxd.com/alice/film/alien/</link>\
                 <pubDate>Sat, 10 Oct 2026 12:00:00 +0000</pubDate></item>",
            ))
        } else if url == "https://letterboxd.com/bob/rss/" {
            Some(document(
                "<item><title>Dune</title><link>https://letterboxd.com/bob/film/dune/</link>\
                 <pubDate>Tue, 27 Oct 2026 12:00:00 +0000</pubDate></item>",
            ))
        } else {
            None
        };
        collector.deliver(body.as_deref());
        fetched.push(url);
    }
    assert_eq!(fetched.len(), 3);
    assert_eq!(fetched[2], "https://letterboxd.com/carol/rss/");
    assert_eq!(
        create_message(&collector.finish()),
        "*🍿 Weekly Movie Round-up 🍿*\n\n🎬 *Dune*\nhttps://letterboxd.com/film/dune/\n\
         • *Alice* rated (★★★★) 🔥\n• *Bob* watched 🍿\n\n"
    );
}

#[test]
fn broken_sheet_gives_the_fixed_sentence() {
    let collector = Collector::from_sheet(Some("Name\nAlice\n"), NOW);
    assert_eq!(create_message(&collector.finish()), "No movies watched this week 😱");
}

#[test]
fn week_without_reviews_gives_the_fixed_sentence() {
    let roster = parse_roster("Name,Username\nAlice,alice\n").ok().unwrap();
    let mut collector = Collector::new(roster, NOW);
    collector.deliver(Some(&document(
        "<item><title>Alien</title><link>l</link><pubDate>Sat, 10 Oct 2026 12:00:00 +0000</pubDate></item>",
    )));
    assert_eq!(create_message(&collector.finish()), "No movies watched this week 😱");
}

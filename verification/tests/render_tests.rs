use movie_digest::digest::{Aggregate, ReviewEntry};
use movie_digest::render::create_message;

fn review(friend: &str, rating: &str) -> ReviewEntry {
    ReviewEntry { friend_name: friend.to_string(), rating_raw: rating.to_string() }
}

#[test]
fn empty_aggregate_gives_the_fixed_sentence() {
    assert_eq!(create_message(&Aggregate::new()), "No movies watched this week 😱");
}

#[test]
fn one_movie_one_rated_review() {
    let mut aggregate = Aggregate::new();
    aggregate.record(
        "Dune".to_string(),
        "https://letterboxd.com/film/dune/".to_string(),
        review("Alice", "★★★★"),
    );
    assert_eq!(
        create_message(&aggregate),
        "*🍿 Weekly Movie Round-up 🍿*\n\n🎬 *Dune*\nhttps://letterboxd.com/film/dune/\n• *Alice* rated (★★★★) 🔥\n\n"
    );
}

#[test]
fn unrated_review_is_watched() {
    let mut aggregate = Aggregate::new();
    aggregate.record("Dune".to_string(), "l".to_string(), review("Bob", ""));
    assert_eq!(
        create_message(&aggregate),
        "*🍿 Weekly Movie Round-up 🍿*\n\n🎬 *Dune*\nl\n• *Bob* watched 🍿\n\n"
    );
}

#[test]
fn movies_come_in_title_order() {
    let mut aggregate = Aggregate::new();
    aggregate.record("Zodiac".to_string(), "z".to_string(), review("Alice", "★★★★★"));
    aggregate.record("Alien".to_string(), "a".to_string(), review("Bob", "★★"));
    aggregate.record("Heat".to_string(), "h".to_string(), review("Carol", ""));
    aggregate.record("Alien".to_string(), "ignored".to_string(), review("Alice", "★★★½"));
    assert_eq!(
        create_message(&aggregate),
        "*🍿 Weekly Movie Round-up 🍿*\n\n\
         🎬 *Alien*\na\n• *Bob* rated (★★) 😐\n• *Alice* rated (★★★½) 🙂\n\n\
         🎬 *Heat*\nh\n• *Carol* watched 🍿\n\n\
         🎬 *Zodiac*\nz\n• *Alice* rated (★★★★★) 🤩\n\n"
    );
}

#[test]
fn text_is_the_same_whatever_came_first() {
    let mut one = Aggregate::new();
    one.record("Zodiac".to_string(), "z".to_string(), review("Alice", "★"));
    one.record("Alien".to_string(), "a".to_string(), review("Bob", "½"));
    let mut two = Aggregate::new();
    two.record("Alien".to_string(), "a".to_string(), review("Bob", "½"));
    two.record("Zodiac".to_string(), "z".to_string(), review("Alice", "★"));
    assert_eq!(create_message(&one), create_message(&two));
}

#[test]
fn each_score_shows_its_symbol() {
    for (rating, symbol) in [
        ("★★★★★", "🤩"),
        ("★★★★½", "🔥"),
        ("★★★", "🙂"),
        ("★★", "😐"),
        ("★½", "🤮"),
        ("½", "🤮"),
    ] {
        let mut aggregate = Aggregate::new();
        aggregate.record("M".to_string(), "l".to_string(), review("A", rating));
        assert_eq!(
            create_message(&aggregate),
            format!("*🍿 Weekly Movie Round-up 🍿*\n\n🎬 *M*\nl\n• *A* rated ({}) {}\n\n", rating, symbol)
        );
    }
}

#[test]
fn rating_of_other_characters_is_shown_as_it_came() {
    let mut aggregate = Aggregate::new();
    aggregate.record("M".to_string(), "l".to_string(), review("A", "great"));
    assert_eq!(
        create_message(&aggregate),
        "*🍿 Weekly Movie Round-up 🍿*\n\n🎬 *M*\nl\n• *A* rated (great) 🤔\n\n"
    );
}

use movie_digest::rating::{calculate_score, get_reaction_emoji, Reaction, Score};

fn stars(raw: &str) -> f64 {
    let score = calculate_score(raw);
    score.full_stars as f64 + if score.half_star { 0.5 } else { 0.0 }
}

#[test]
fn score_counts_stars_and_half_star() {
    assert_eq!(stars("★★★★½"), 4.5);
    assert_eq!(stars(""), 0.0);
    assert_eq!(stars("★★★★★"), 5.0);
    assert_eq!(stars("½"), 0.5);
    assert_eq!(stars("★★"), 2.0);
}

#[test]
fn half_star_counts_once() {
    assert_eq!(stars("½½"), 0.5);
    assert_eq!(stars("½★½★"), 2.5);
}

#[test]
fn other_characters_count_nothing() {
    assert_eq!(stars("abc"), 0.0);
    assert_eq!(stars("★ ★"), 2.0);
    assert_eq!(calculate_score("x½"), Score { full_stars: 0, half_star: true });
}

#[test]
fn reaction_follows_the_thresholds() {
    assert_eq!(calculate_score("★★★★★").reaction(), Reaction::Top);
    assert_eq!(calculate_score("★★★★½").reaction(), Reaction::High);
    assert_eq!(calculate_score("★★★★").reaction(), Reaction::High);
    assert_eq!(calculate_score("★★★½").reaction(), Reaction::Mid);
    assert_eq!(calculate_score("★★★").reaction(), Reaction::Mid);
    assert_eq!(calculate_score("★★½").reaction(), Reaction::Low);
    assert_eq!(calculate_score("★★").reaction(), Reaction::Low);
    assert_eq!(calculate_score("★½").reaction(), Reaction::Bottom);
    assert_eq!(calculate_score("★").reaction(), Reaction::Bottom);
    assert_eq!(calculate_score("½").reaction(), Reaction::Bottom);
    assert_eq!(calculate_score("").reaction(), Reaction::Unknown);
}

#[test]
fn two_stars_are_low_not_mid() {
    let score = calculate_score("★★");
    assert_eq!(score.reaction(), Reaction::Low);
    assert_ne!(score.reaction(), Reaction::Mid);
}

#[test]
fn more_than_five_stars_are_high() {
    assert_eq!(calculate_score("★★★★★½").reaction(), Reaction::High);
    assert_eq!(calculate_score("★★★★★★").reaction(), Reaction::High);
}

#[test]
fn each_reaction_has_its_symbol() {
    assert_eq!(Reaction::Top.symbol(), "🤩");
    assert_eq!(Reaction::High.symbol(), "🔥");
    assert_eq!(Reaction::Mid.symbol(), "🙂");
    assert_eq!(Reaction::Low.symbol(), "😐");
    assert_eq!(Reaction::Bottom.symbol(), "🤮");
    assert_eq!(Reaction::Unknown.symbol(), "🤔");
}

#[test]
fn emoji_for_a_score() {
    assert_eq!(get_reaction_emoji(calculate_score("★★★★★")), "🤩");
    assert_eq!(get_reaction_emoji(calculate_score("★★★★½")), "🔥");
    assert_eq!(get_reaction_emoji(calculate_score("★★")), "😐");
    assert_eq!(get_reaction_emoji(calculate_score("")), "🤔");
    assert_eq!(get_reaction_emoji(Score { full_stars: 3, half_star: false }), "🙂");
    assert_eq!(get_reaction_emoji(Score { full_stars: 0, half_star: true }), "🤮");
}

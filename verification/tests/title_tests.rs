use movie_digest::title::{parse_title, ParsedReview};

fn split(raw: &str) -> (String, String) {
    let ParsedReview { movie_title, rating_token } = parse_title(raw);
    (movie_title, rating_token)
}

fn pair(title: &str, rating: &str) -> (String, String) {
    (title.to_string(), rating.to_string())
}

#[test]
fn rated_title_splits_into_title_and_stars() {
    assert_eq!(split("The Matrix - ★★★★"), pair("The Matrix", "★★★★"));
    assert_eq!(split("Parasite - ★★★★½"), pair("Parasite", "★★★★½"));
    assert_eq!(split("Dune - ½"), pair("Dune", "½"));
}

#[test]
fn unrated_title_is_kept_whole() {
    assert_eq!(split("Dune"), pair("Dune", ""));
    assert_eq!(split(""), pair("", ""));
    assert_eq!(split("Mission: Impossible - Fallout"), pair("Mission: Impossible - Fallout", ""));
}

#[test]
fn separator_without_stars_is_no_rating() {
    assert_eq!(split("Up - "), pair("Up - ", ""));
    assert_eq!(split(" - "), pair(" - ", ""));
}

#[test]
fn stars_without_separator_are_no_rating() {
    assert_eq!(split("Up ★★★"), pair("Up ★★★", ""));
    assert_eq!(split("Up -★★★"), pair("Up -★★★", ""));
    assert_eq!(split("Up- ★★★"), pair("Up- ★★★", ""));
    assert_eq!(split("★★★"), pair("★★★", ""));
    assert_eq!(split("- ★★★"), pair("- ★★★", ""));
}

#[test]
fn rating_must_reach_the_end_of_the_title() {
    assert_eq!(split("Up - ★★★ "), pair("Up - ★★★ ", ""));
    assert_eq!(split("Up - ★★★ (rewatch)"), pair("Up - ★★★ (rewatch)", ""));
    assert_eq!(split("Up - ★x★"), pair("Up - ★x★", ""));
}

#[test]
fn only_the_last_suffix_is_taken() {
    assert_eq!(split("A - ★ - ★★"), pair("A - ★", "★★"));
}

#[test]
fn empty_title_before_the_separator() {
    assert_eq!(split(" - ★★"), pair("", "★★"));
}

#[test]
fn separator_is_made_of_plain_spaces() {
    assert_eq!(split("Up\t-\t★★"), pair("Up\t-\t★★", ""));
    assert_eq!(split("Up\u{a0}-\u{a0}★★"), pair("Up\u{a0}-\u{a0}★★", ""));
}

#[test]
fn title_with_a_line_break_still_splits() {
    assert_eq!(split("Up\nDown - ★★"), pair("Up\nDown", "★★"));
}

#[test]
fn half_star_may_stand_anywhere_in_the_rating() {
    assert_eq!(split("Up - ½★"), pair("Up", "½★"));
    assert_eq!(split("Up - ½½"), pair("Up", "½½"));
}

#[test]
fn reparsing_an_unrated_title_changes_nothing() {
    for raw in ["Dune", "", "Up - ", "A - B", "★★"] {
        let (title, rating) = split(raw);
        assert_eq!(rating, "");
        assert_eq!(title, raw);
        assert_eq!(split(&title), pair(raw, ""));
    }
}

#[test]
fn title_agrees_with_the_anchored_pattern() {
    let pattern = regex::Regex::new(r"(?s)^(.*?)( - ([★½]+))?$").unwrap();
    let samples = [
        "The Matrix - ★★★★",
        "Parasite - ★★★★½",
        "Dune",
        "",
        " - ",
        " - ★",
        "A - ★ - ★★",
        "Up - ★★★ ",
        "Up - ½",
        "Up  -  ★",
        "Up - ★ - ",
        "multi\nline - ★★",
        "日本語 - ★★★½",
        "- ★",
        "x- ★",
    ];
    for raw in samples {
        let caps = pattern.captures(raw).unwrap();
        let title = caps.get(1).map_or("", |m| m.as_str());
        let stars = caps.get(3).map_or("", |m| m.as_str());
        assert_eq!(split(raw), pair(title, stars), "{:?}", raw);
    }
}

use movie_digest::link::{normalize_link, normalize_link_for, PROVIDER_HOST};

#[test]
fn review_link_loses_the_friend() {
    assert_eq!(
        normalize_link_for("site", "https://site/alice/film/parasite-2019/"),
        "https://site/film/parasite-2019/"
    );
    assert_eq!(
        normalize_link("https://letterboxd.com/alice/film/parasite-2019/"),
        "https://letterboxd.com/film/parasite-2019/"
    );
}

#[test]
fn two_friends_get_the_same_movie_link() {
    assert_eq!(
        normalize_link("https://letterboxd.com/alice/film/dune/"),
        normalize_link("https://letterboxd.com/bob/film/dune/")
    );
}

#[test]
fn other_links_stay_as_they_are() {
    for link in [
        "",
        "https://example.com/alice/film/dune/",
        "https://letterboxd.com/film/dune/",
        "https://letterboxd.com/alice/list/dune/",
        "https://letterboxd.com/alice/film/dune",
        "https://letterboxd.com/alice/film//",
        "https://letterboxd.com//film/dune/",
        "https://letterboxd.com/alice/films/dune/",
        "https://letterboxd_com/alice/film/dune/",
    ] {
        assert_eq!(normalize_link(link), link);
    }
}

#[test]
fn provider_host_is_fixed() {
    assert_eq!(PROVIDER_HOST, "letterboxd.com");
    assert_eq!(
        normalize_link("https://site/alice/film/parasite-2019/"),
        "https://site/alice/film/parasite-2019/"
    );
}

#[test]
fn what_surrounds_the_shape_is_dropped() {
    assert_eq!(
        normalize_link("http://www.letterboxd.com/alice/film/dune/1/"),
        "https://letterboxd.com/film/dune/"
    );
    assert_eq!(
        normalize_link("see letterboxd.com/bob/film/heat/reviews/ for more"),
        "https://letterboxd.com/film/heat/"
    );
}

#[test]
fn first_place_where_the_shape_occurs_decides() {
    assert_eq!(
        normalize_link("letterboxd.com/letterboxd.com/u/film/s/"),
        "https://letterboxd.com/film/s/"
    );
    assert_eq!(
        normalize_link("letterboxd.com/a/film/one/letterboxd.com/b/film/two/"),
        "https://letterboxd.com/film/one/"
    );
    assert_eq!(
        normalize_link("letterboxd.com/a/x/letterboxd.com/b/film/two/"),
        "https://letterboxd.com/film/two/"
    );
}

#[test]
fn link_agrees_with_the_pattern() {
    let pattern = regex::Regex::new(r"letterboxd\.com/[^/]+/film/([^/]+)/").unwrap();
    let samples = [
        "https://letterboxd.com/alice/film/parasite-2019/",
        "https://letterboxd.com/alice/film/parasite-2019",
        "https://letterboxd.com/alice/film//",
        "https://letterboxd.com//film/x/",
        "letterboxd.com/letterboxd.com/u/film/s/",
        "letterboxd.com/a/film/one/letterboxd.com/b/film/two/",
        "letterboxd.com/a/x/letterboxd.com/b/film/two/",
        "https://letterboxd.com/alice/film/dune/1/",
        "https://letterboxdxcom/alice/film/dune/",
        "https://letterboxd.com/a\nb/film/c\nd/",
        "https://letterboxd.com/日本/film/映画/",
        "",
        "/",
        "letterboxd.com/",
        "letterboxd.com/a/film/b/",
        "xletterboxd.com/a/film/film/film/",
    ];
    for link in samples {
        let expected = match pattern.captures(link) {
            Some(caps) => format!("https://letterboxd.com/film/{}/", &caps[1]),
            None => link.to_string(),
        };
        assert_eq!(normalize_link(link), expected, "{:?}", link);
    }
}

use pluto::datetime::DateTime;
use pluto::models::Post;
use pluto::render::bottom_navigation;

fn post(url: &str, y: u32, m: u32, d: u32) -> Post {
    Post {
        url: url.to_string(),
        title: url.to_string(),
        version: String::new(),
        created: DateTime::new(y, m, d, 0, 0, 0),
        updated: DateTime::new(y, m, d, 0, 0, 0),
        content: String::new(),
        published: Some(DateTime::new(y, m, d, 0, 0, 0)),
    }
}

fn snapshot() -> Vec<Post> {
    // Published posts, newest first.
    vec![post("mar", 2021, 3, 1), post("feb", 2021, 2, 1), post("jan", 2021, 1, 1)]
}

fn link(text: &str, slug: &str) -> String {
    format!(" <a href=\"/post/{}.html\" class=\"bottom-nav-button\">{}</a> ", slug, text)
}

#[test]
fn earliest_post_wraps_to_last() {
    let posts = snapshot();
    let nav = bottom_navigation(&posts[2], &posts);
    assert_eq!(nav, format!("{}{}", link("\u{2190} Last", "mar"), link("Next \u{2192}", "feb")));
}

#[test]
fn latest_post_wraps_to_first() {
    let posts = snapshot();
    let nav = bottom_navigation(&posts[0], &posts);
    assert_eq!(nav, format!("{}{}", link("\u{2190} Prev", "feb"), link("First \u{2192}", "jan")));
}

#[test]
fn middle_post_has_plain_neighbors() {
    let posts = snapshot();
    let nav = bottom_navigation(&posts[1], &posts);
    assert_eq!(nav, format!("{}{}", link("\u{2190} Prev", "jan"), link("Next \u{2192}", "mar")));
}

#[test]
fn single_post_wraps_to_itself() {
    let posts = vec![post("only", 2021, 1, 1)];
    let nav = bottom_navigation(&posts[0], &posts);
    assert_eq!(nav, format!("{}{}", link("\u{2190} Last", "only"), link("First \u{2192}", "only")));
}

#[test]
fn navigation_is_stable() {
    let posts = snapshot();
    assert_eq!(bottom_navigation(&posts[1], &posts), bottom_navigation(&posts[1], &posts));
}

use pluto::polyring::{banner_html, prev_next, Member};

fn member(url: &str) -> Member {
    Member {
        title: url.to_string(),
        url: url.to_string(),
        feed: format!("{}/feed", url),
    }
}

fn ring() -> Vec<Member> {
    vec![member("a"), member("b"), member("c"), member("d")]
}

#[test]
fn neighbors_in_the_middle() {
    let (prev, next) = prev_next(&ring(), &"b".to_string()).unwrap();
    assert_eq!(prev, "a");
    assert_eq!(next, "c");
}

#[test]
fn neighbors_wrap_at_both_ends() {
    let (prev, next) = prev_next(&ring(), &"a".to_string()).unwrap();
    assert_eq!(prev, "d");
    assert_eq!(next, "b");
    let (prev, next) = prev_next(&ring(), &"d".to_string()).unwrap();
    assert_eq!(prev, "c");
    assert_eq!(next, "a");
}

#[test]
fn absent_member_has_no_neighbors() {
    assert!(prev_next(&ring(), &"nope".to_string()).is_none());
    assert!(prev_next(&Vec::new(), &"a".to_string()).is_none());
}

#[test]
fn single_member_ring_wraps_to_itself() {
    let (prev, next) = prev_next(&vec![member("solo")], &"solo".to_string()).unwrap();
    assert_eq!(prev, "solo");
    assert_eq!(next, "solo");
}

#[test]
fn banner_carries_links_and_count() {
    let b = banner_html("https://prev.example", "https://next.example", 42);
    assert!(b.contains("of 42 sites"));
    assert!(b.contains("<a href=\"https://prev.example\">previous</a>"));
    assert!(b.contains("<a href=\"https://next.example\">next</a>"));
}

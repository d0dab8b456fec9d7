use pluto::org::PageKind;

#[test]
fn post_urls() {
    assert_eq!(PageKind::Post.url_of("hello"), "/post/hello.html");
    assert_eq!(PageKind::Post.path_of("hello"), "html/post/hello.html");
    assert_eq!(PageKind::Post.dir(), "html/post/");
}

#[test]
fn tag_urls() {
    assert_eq!(PageKind::Tag.url_of("rust"), "/tag/rust.html");
    assert_eq!(PageKind::Tag.path_of("rust"), "html/tag/rust.html");
    assert_eq!(PageKind::Tag.dir(), "html/tag/");
}

#[test]
fn kinds_are_post_and_tag() {
    let kinds = PageKind::kinds();
    assert_eq!(kinds.len(), 2);
    assert_eq!(kinds[0], PageKind::Post);
    assert_eq!(kinds[1], PageKind::Tag);
}

#[test]
fn addressing_is_injective() {
    let keys = ["a", "b", "ab", "a.html", "post", "tag", "x/y"];
    let mut seen: Vec<String> = Vec::new();
    for kind in PageKind::kinds() {
        for key in keys.iter() {
            let path = kind.path_of(key);
            assert!(!seen.contains(&path), "collision on {}", path);
            seen.push(path);
        }
    }
}

#[test]
fn names_are_stable_across_calls() {
    assert_eq!(PageKind::Post.url_of("x"), PageKind::Post.url_of("x"));
    assert_eq!(PageKind::Tag.path_of("x"), PageKind::Tag.path_of("x"));
}

use pluto::datetime::DateTime;
use pluto::editing::{join_front_matter, merge_post, split_front_matter, tags_for, Post, PostMeta};

fn meta(title: &str, published: bool) -> PostMeta {
    PostMeta {
        title: title.to_string(),
        version: String::new(),
        published,
        tags: Vec::new(),
    }
}

#[test]
fn split_takes_the_first_two_fences() {
    let (m, b) = split_front_matter("---\ntitle: x\n---\nbody").unwrap();
    assert_eq!(m, "\ntitle: x\n");
    assert_eq!(b, "\nbody");
}

#[test]
fn split_without_any_fence_fails() {
    assert!(split_front_matter("no fences here").is_none());
    assert!(split_front_matter("").is_none());
    assert!(split_front_matter("--").is_none());
}

#[test]
fn split_with_one_fence_gives_empty_body() {
    let (m, b) = split_front_matter("a---b").unwrap();
    assert_eq!(m, "b");
    assert_eq!(b, "");
}

#[test]
fn later_fences_stay_in_the_body() {
    let (m, b) = split_front_matter("---meta---one---two").unwrap();
    assert_eq!(m, "meta");
    assert_eq!(b, "one---two");
}

#[test]
fn join_rebuilds_the_file() {
    assert_eq!(join_front_matter("\nmeta\n", "\nbody"), "\nmeta\n---\nbody");
    let (m, b) = split_front_matter(&format!("---{}", join_front_matter("m", "c"))).unwrap();
    assert_eq!(m, "m");
    assert_eq!(b, "c");
}

#[test]
fn merging_a_new_post_creates_it_now() {
    let now = DateTime::new(2021, 5, 1, 12, 0, 0);
    let edited = Post { meta: meta("T", true), content: "c".to_string() };
    let p = merge_post(&edited, None, "slug", now);
    assert_eq!(p.url, "slug");
    assert_eq!(p.title, "T");
    assert_eq!(p.created, now);
    assert_eq!(p.updated, now);
    assert_eq!(p.published, Some(now));
    assert_eq!(p.content, "c");
}

#[test]
fn merging_keeps_created_and_publication_time() {
    let created = DateTime::new(2020, 1, 1, 0, 0, 0);
    let published = DateTime::new(2020, 2, 2, 0, 0, 0);
    let now = DateTime::new(2021, 5, 1, 12, 0, 0);
    let orig = pluto::models::Post {
        url: "slug".to_string(),
        title: "Old".to_string(),
        version: String::new(),
        created,
        updated: created,
        content: "old".to_string(),
        published: Some(published),
    };
    let edited = Post { meta: meta("New", true), content: "new".to_string() };
    let p = merge_post(&edited, Some(&orig), "slug", now);
    assert_eq!(p.created, created);
    assert_eq!(p.published, Some(published));
    assert_eq!(p.updated, now);
    assert_eq!(p.title, "New");
}

#[test]
fn unpublishing_drops_the_timestamp() {
    let now = DateTime::new(2021, 5, 1, 12, 0, 0);
    let orig = pluto::models::Post {
        url: "slug".to_string(),
        title: "Old".to_string(),
        version: String::new(),
        created: DateTime::new(2020, 1, 1, 0, 0, 0),
        updated: now,
        content: String::new(),
        published: Some(DateTime::new(2020, 2, 2, 0, 0, 0)),
    };
    let edited = Post { meta: meta("Old", false), content: String::new() };
    let p = merge_post(&edited, Some(&orig), "slug", now);
    assert_eq!(p.published, None);
}

#[test]
fn republishing_an_unpublished_post_uses_now() {
    let now = DateTime::new(2021, 5, 1, 12, 0, 0);
    let orig = pluto::models::Post {
        url: "slug".to_string(),
        title: "Old".to_string(),
        version: String::new(),
        created: DateTime::new(2020, 1, 1, 0, 0, 0),
        updated: now,
        content: String::new(),
        published: None,
    };
    let edited = Post { meta: meta("Old", true), content: String::new() };
    let p = merge_post(&edited, Some(&orig), "slug", now);
    assert_eq!(p.published, Some(now));
}

#[test]
fn tag_records_point_at_the_post() {
    let tags = vec!["a".to_string(), "b".to_string()];
    let recs = tags_for(&tags, "slug");
    assert_eq!(recs.len(), 2);
    assert_eq!(recs[0].tag, "a");
    assert_eq!(recs[0].url, "slug");
    assert_eq!(recs[1].tag, "b");
    assert_eq!(recs[1].url, "slug");
}

use pluto::code::Highlighter;
use pluto::datetime::DateTime;
use pluto::models::{Post, Tag, TagMeta};
use pluto::org::Linkable;
use pluto::render::{blogpost, copyright_years, overview, render_site, tag, tag_list};
use pluto::RenderError;

fn post(url: &str, title: &str, content: &str, y: u32, m: u32, d: u32) -> Post {
    Post {
        url: url.to_string(),
        title: title.to_string(),
        version: String::new(),
        created: DateTime::new(y, m, d, 0, 0, 0),
        updated: DateTime::new(y, m, d, 0, 0, 0),
        content: content.to_string(),
        published: Some(DateTime::new(y, m, d, 0, 0, 0)),
    }
}

#[test]
fn copyright_same_year() {
    let a = DateTime::new(2020, 1, 1, 0, 0, 0);
    let b = DateTime::new(2020, 6, 1, 0, 0, 0);
    assert_eq!(copyright_years(&a, &b), "2020");
}

#[test]
fn copyright_spanning_years() {
    let a = DateTime::new(2020, 1, 1, 0, 0, 0);
    let b = DateTime::new(2022, 6, 1, 0, 0, 0);
    assert_eq!(copyright_years(&a, &b), "2020-2022");
}

#[test]
fn links_carry_urls_and_titles() {
    let p = post("hello", "Hello World", "", 2021, 1, 1);
    assert_eq!(p.link(), "<a href=\"/post/hello.html\">Hello World</a>");
    let t = Tag { tag: "rust".to_string(), url: "hello".to_string() };
    assert_eq!(t.link(), "<a href=\"/tag/rust.html\">RUST</a> ");
}

#[test]
fn tag_list_empty_and_nonempty() {
    assert_eq!(tag_list(&Vec::new()), "");
    let tags = vec![
        Tag { tag: "abc".to_string(), url: "p".to_string() },
        Tag { tag: "xyz".to_string(), url: "p".to_string() },
    ];
    let list = tag_list(&tags);
    assert_eq!(
        list,
        "<br><strong>Tags:</strong> <a href=\"/tag/abc.html\">ABC</a> \
         <a href=\"/tag/xyz.html\">XYZ</a> <br>"
    );
}

#[test]
fn blogpost_composes_all_parts() {
    let hl = Highlighter::new();
    let posts = vec![
        post("two", "Second", "body two", 2021, 2, 1),
        post("one", "First", "body **one**", 2021, 1, 1),
    ];
    let tags = vec![Tag { tag: "misc".to_string(), url: "one".to_string() }];
    let page = blogpost(&posts[1], &tags, &posts, &hl);
    assert!(page.contains("<title>First</title>"));
    assert!(page.contains("body <strong>one</strong>"));
    assert!(page.contains("<a href=\"/tag/misc.html\">MISC</a>"));
    assert!(page.contains("\u{2190} Last"));
    assert!(page.contains("Next \u{2192}"));
    assert!(page.contains("&copy; 2021"));
}

#[test]
fn tag_page_requires_metadata() {
    let hl = Highlighter::new();
    let sites = Vec::new();
    let r = tag("ghost", None, &sites, &hl);
    assert_eq!(r, Err(RenderError::MissingCrossReference));
}

#[test]
fn tag_page_renders_description_and_table() {
    let hl = Highlighter::new();
    let meta = TagMeta {
        tag: "rust".to_string(),
        display: true,
        description: "posts about *rust*".to_string(),
    };
    let sites = vec![(
        "First".to_string(),
        "one".to_string(),
        DateTime::new(2021, 1, 2, 0, 0, 0),
    )];
    let page = tag("rust", Some(&meta), &sites, &hl).unwrap();
    assert!(page.contains("<title>Posts with tag RUST</title>"));
    assert!(page.contains("<h1>Posts with tag RUST</h1>"));
    assert!(page.contains("posts about <em>rust</em>"));
    assert!(page.contains("<a href=\"/post/one.html\">First</a>"));
    assert!(page.contains("02-01-2021"));
}

#[test]
fn overview_lists_posts_and_banner() {
    let sites = vec![
        ("Second".to_string(), "two".to_string(), DateTime::new(2021, 2, 1, 0, 0, 0)),
        ("First".to_string(), "one".to_string(), DateTime::new(2020, 1, 1, 0, 0, 0)),
    ];
    let page = overview(&sites, "<div>BANNER</div>");
    assert!(page.contains("<h1>Blog Posts</h1>"));
    assert!(page.contains("<a href=\"/post/two.html\">Second</a>"));
    assert!(page.contains("<div>BANNER</div>"));
    assert!(page.contains("&copy; 2020-2021"));
}

#[test]
fn overview_with_no_posts_is_empty_not_a_crash() {
    let page = overview(&Vec::new(), "");
    assert!(page.contains("<h1>Blog Posts</h1>"));
    assert!(page.contains("<table class=\"post-list\"><th>Post</th><th>Date</th></table>"));
    assert!(page.contains("&copy; </footer>"));
}

fn snapshot() -> (Vec<Post>, Vec<Tag>, Vec<TagMeta>) {
    let posts = vec![
        post("two", "Second", "body **two**", 2021, 2, 1),
        post("one", "First", "```Rust\nlet x = 1;\n```\n", 2021, 1, 1),
    ];
    let tags = vec![
        Tag { tag: "misc".to_string(), url: "one".to_string() },
        Tag { tag: "misc".to_string(), url: "two".to_string() },
    ];
    let metas = vec![TagMeta {
        tag: "misc".to_string(),
        display: true,
        description: "everything".to_string(),
    }];
    (posts, tags, metas)
}

#[test]
fn site_renders_every_page_under_its_path() {
    let hl = Highlighter::new();
    let (posts, tags, metas) = snapshot();
    let pages = render_site(&posts, &tags, &metas, "<div>B</div>", "https://pluto.dev", &hl);
    let paths: Vec<&str> = pages.iter().map(|p| p.0.as_str()).collect();
    assert_eq!(
        paths,
        vec![
            "html/rss.xml",
            "html/post/two.html",
            "html/post/one.html",
            "html/tag/misc.html",
            "html/index.html",
        ]
    );
    assert!(pages[1].1.contains("<title>Second</title>"));
    assert!(pages[3].1.contains("everything"));
    assert!(pages[4].1.contains("<div>B</div>"));
}

#[test]
fn rendering_twice_is_byte_identical() {
    let hl = Highlighter::new();
    let (posts, tags, metas) = snapshot();
    let first = render_site(&posts, &tags, &metas, "<div>B</div>", "https://pluto.dev", &hl);
    let second = render_site(&posts, &tags, &metas, "<div>B</div>", "https://pluto.dev", &hl);
    assert_eq!(first.len(), second.len());
    for (a, b) in first.iter().zip(second.iter()) {
        assert_eq!(a.0, b.0);
        assert_eq!(a.1, b.1);
    }
}

#[test]
fn empty_snapshot_renders_feed_and_overview_only() {
    let hl = Highlighter::new();
    let pages = render_site(&Vec::new(), &Vec::new(), &Vec::new(), "", "https://x", &hl);
    let paths: Vec<&str> = pages.iter().map(|p| p.0.as_str()).collect();
    assert_eq!(paths, vec!["html/rss.xml", "html/index.html"]);
}

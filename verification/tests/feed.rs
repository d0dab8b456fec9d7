use pluto::datetime::DateTime;
use pluto::models::Post;
use pluto::rss::{create_feed, xml_escape};

fn post(url: &str, title: &str, content: &str, y: u32, m: u32, d: u32) -> Post {
    Post {
        url: url.to_string(),
        title: title.to_string(),
        version: String::new(),
        created: DateTime::new(y, m, d, 0, 0, 0),
        updated: DateTime::new(y, m, d, 0, 0, 0),
        content: content.to_string(),
        published: Some(DateTime::new(y, m, d, 0, 0, 0)),
    }
}

#[test]
fn escaping_covers_the_five_reserved_characters() {
    assert_eq!(xml_escape("a<b>c&d'e\"f"), "a&lt;b&gt;c&amp;d&apos;e&quot;f");
    assert_eq!(xml_escape(""), "");
    assert_eq!(xml_escape("plain"), "plain");
}

#[test]
fn feed_entry_links_and_date() {
    let posts = vec![post("hello", "Hello", "body", 2021, 3, 4)];
    let xml = create_feed(&posts, "https://pluto.dev");
    assert!(xml.contains("<link>https://pluto.dev/post/hello.html</link>"));
    assert!(xml.contains("<guid>https://pluto.dev/post/hello.html</guid>"));
    assert!(xml.contains("<pubDate>Thu, 04 Mar 2021 00:00:00</pubDate>"));
    assert!(xml.contains("<title>Hello</title>"));
    assert!(xml.contains("<description>&lt;p&gt;body&lt;/p&gt;"));
    assert!(xml.starts_with("<?xml version=\"1.0\" encoding=\"UTF-8\" ?><rss version=\"2.0\">"));
    assert!(xml.ends_with("</rss> "));
}

#[test]
fn feed_title_is_escaped() {
    let posts = vec![post("q", "Q & A <notes>", "x", 2021, 1, 1)];
    let xml = create_feed(&posts, "https://pluto.dev");
    assert!(xml.contains("<title>Q &amp; A &lt;notes&gt;</title>"));
    assert!(xml.contains("<title>Jonas&apos; personal website</title>"));
}

#[test]
fn feed_is_limited_to_twenty_entries() {
    let mut posts = Vec::new();
    for i in 0..25u32 {
        posts.push(post(&format!("p{}", i), "T", "c", 2021, 12, 25 - (i % 20)));
    }
    let xml = create_feed(&posts, "https://pluto.dev");
    assert_eq!(xml.matches("<item>").count(), 20);
    // The most recent posts are the ones kept, in the order given.
    assert!(xml.contains("<link>https://pluto.dev/post/p0.html</link>"));
    assert!(!xml.contains("<link>https://pluto.dev/post/p24.html</link>"));
}

#[test]
fn empty_feed_is_still_a_document() {
    let xml = create_feed(&Vec::new(), "https://pluto.dev");
    assert!(xml.contains("<channel>"));
    assert!(!xml.contains("<item>"));
    assert!(xml.ends_with("</channel></rss> "));
}

#[test]
fn feed_parses_back_as_well_formed_xml() {
    let posts = vec![
        post("hello", "Hello", "some **markdown** & more", 2021, 3, 4),
        post("bye", "Good < Bye", "x", 2020, 1, 2),
    ];
    let xml = create_feed(&posts, "https://pluto.dev");
    let mut reader = quick_xml::Reader::from_str(&xml);
    let mut buf = Vec::new();
    let mut item_count = 0;
    let mut links: Vec<String> = Vec::new();
    let mut in_link = false;
    let mut titles: Vec<String> = Vec::new();
    let mut in_title = false;
    loop {
        match reader.read_event(&mut buf) {
            Ok(quick_xml::events::Event::Start(e)) => {
                let name = String::from_utf8(e.name().to_vec()).unwrap();
                if name == "item" {
                    item_count += 1;
                }
                in_link = name == "link";
                in_title = name == "title";
            }
            Ok(quick_xml::events::Event::End(_)) => {
                in_link = false;
                in_title = false;
            }
            Ok(quick_xml::events::Event::Text(t)) => {
                let text = t.unescape_and_decode(&reader).unwrap();
                if in_link {
                    links.push(text);
                } else if in_title {
                    titles.push(text);
                }
            }
            Ok(quick_xml::events::Event::Eof) => break,
            Ok(_) => {}
            Err(e) => panic!("feed does not parse: {}", e),
        }
        buf.clear();
    }
    assert_eq!(item_count, 2);
    assert_eq!(titles[0], "Jonas' personal website");
    assert_eq!(titles[1], "Hello");
    assert_eq!(titles[2], "Good < Bye");
    assert_eq!(links[0], "https://pluto.dev");
    assert_eq!(links[1], "https://pluto.dev/post/hello.html");
    assert_eq!(links[2], "https://pluto.dev/post/bye.html");
}

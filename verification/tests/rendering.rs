use pluto::code::Highlighter;
use pluto::markdown::{render_markdown, render_raw};

#[test]
fn raw_mode_renders_structure() {
    let html = render_raw("**hi** and *there*");
    assert!(html.contains("<strong>hi</strong>"));
    assert!(html.contains("<em>there</em>"));
    assert!(html.starts_with("<p>"));
}

#[test]
fn raw_mode_does_not_wrap_code() {
    let html = render_raw("```Rust\nfn main() {}\n```\n");
    assert!(!html.contains("<div class=\"code\">"));
    assert!(!html.contains("<span style=\""));
    assert!(html.contains("fn main() {}"));
}

#[test]
fn unknown_fence_language_renders_verbatim() {
    let hl = Highlighter::new();
    let html = render_markdown("```nosuchlanguage\na < b && c > d\n```\n", &hl);
    assert!(html.contains("<div class=\"code\">"));
    assert!(html.contains("</div>"));
    // The text survives unmodified, escaped by the HTML serializer.
    assert!(html.contains("a &lt; b &amp;&amp; c &gt; d"));
    assert!(!html.contains("<span style=\""));
}

#[test]
fn known_fence_language_is_highlighted() {
    let hl = Highlighter::new();
    let html = render_markdown("before\n\n```Rust\nlet x = 1;\n```\n\nafter", &hl);
    assert!(html.contains("<div class=\"code\">"));
    assert!(html.contains("<span style=\""));
    assert!(html.contains("<p>before</p>"));
    assert!(html.contains("<p>after</p>"));
}

#[test]
fn language_resets_at_block_close() {
    let hl = Highlighter::new();
    let md = "```Rust\nlet x = 1;\n```\n\ntext between\n\n```\nplain block\n```\n";
    let html = render_markdown(md, &hl);
    // Both blocks are wrapped, but only the first is highlighted: the
    // tracked language is cleared at the first block's close.
    assert_eq!(html.matches("<div class=\"code\">").count(), 2);
    assert_eq!(html.matches("</div>").count(), 2);
    assert!(html.contains("plain block"));
    let after_first = &html[html.find("</div>").unwrap()..];
    assert!(!after_first.contains("<span style=\""));
}

#[test]
fn text_outside_code_is_never_highlighted() {
    let hl = Highlighter::new();
    let html = render_markdown("just a paragraph with let x = 1;", &hl);
    assert!(!html.contains("<span style=\""));
    assert!(!html.contains("<div class=\"code\">"));
}

#[test]
fn indented_code_is_wrapped_but_not_highlighted() {
    let hl = Highlighter::new();
    let html = render_markdown("para\n\n    let indented = 1;\n", &hl);
    assert!(html.contains("<div class=\"code\">"));
    assert!(html.contains("let indented = 1;"));
    assert!(!html.contains("<span style=\""));
}

#[test]
fn multi_line_block_is_highlighted_whole() {
    let hl = Highlighter::new();
    let html = render_markdown("```C\n/* one\ntwo */\nint x;\n```\n", &hl);
    assert!(html.contains("<div class=\"code\">"));
    assert!(html.contains("<span style=\""));
    assert!(html.contains("int"));
    assert!(html.contains("two"));
}

#[test]
fn rendering_is_deterministic() {
    let hl = Highlighter::new();
    let md = "# t\n\n```Rust\nlet x = 1;\n```\n";
    assert_eq!(render_markdown(md, &hl), render_markdown(md, &hl));
    assert_eq!(render_raw(md), render_raw(md));
}

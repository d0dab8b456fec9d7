//! The page assembler: full HTML pages composed from the rendered
//! markdown, the tag links, the chronological navigation and the fixed
//! page layout.  Every page is an exact function of the snapshot values
//! handed in: the same snapshot renders to the same bytes.

use crate::code::Highlighter;
use crate::datetime::{spec_dmy, DateTime};
use crate::markdown::{html_of, md_parse, render_markdown, spec_rewrite};
use crate::models::{metas_model, posts_model, tags_model, to_upper, upper_of, Post, Tag, TagMeta};
use crate::org::{Linkable, PageKind};
use crate::rss::{create_feed, spec_feed, spec_items};
use crate::text::pad4;
use crate::RenderError;
use vstd::pervasive::unreached;
use vstd::prelude::*;
use vstd::string::StringExecFns;

verus! {

/// The fixed page skeleton with its four slots: title, body, copyright
/// string and bottom navigation, spliced in verbatim.
pub open spec fn spec_layout(
    title: Seq<char>,
    body: Seq<char>,
    copyright: Seq<char>,
    nav: Seq<char>,
) -> Seq<char> {
    "<!DOCTYPE html>\n<html>\n<head>\n<meta charset=\"utf-8\">\n<title>"@ + title
        + "</title>\n</head>\n<body>\n<main>\n"@ + body + "\n</main>\n<nav class=\"bottom-nav\">"@
        + nav + "</nav>\n<footer>&copy; "@ + copyright + "</footer>\n</body>\n</html>\n"@
}

pub fn layout(title: &str, body: &str, copyright: &str, nav: &str) -> (r: String)
    ensures
        r@ == spec_layout(title@, body@, copyright@, nav@),
{
    let mut s = String::from_str(
        "<!DOCTYPE html>\n<html>\n<head>\n<meta charset=\"utf-8\">\n<title>",
    );
    s.append(title);
    s.append("</title>\n</head>\n<body>\n<main>\n");
    s.append(body);
    s.append("\n</main>\n<nav class=\"bottom-nav\">");
    s.append(nav);
    s.append("</nav>\n<footer>&copy; ");
    s.append(copyright);
    s.append("</footer>\n</body>\n</html>\n");
    proof {
        assert(s@ =~= spec_layout(title@, body@, copyright@, nav@));
    }
    s
}

/// The copyright span: the earlier year, and the later year after a dash
/// only when it differs.
pub open spec fn spec_copyright(from: DateTime, to: DateTime) -> Seq<char> {
    if from.year == to.year {
        pad4(from.year as int)
    } else {
        pad4(from.year as int) + "-"@ + pad4(to.year as int)
    }
}

pub fn copyright_years(from: &DateTime, to: &DateTime) -> (r: String)
    requires
        from.wf(),
        to.wf(),
    ensures
        r@ == spec_copyright(*from, *to),
{
    let mut s = crate::text::pad4_str(from.year);
    if from.year != to.year {
        s.append("-");
        s.append(crate::text::pad4_str(to.year).as_str());
    }
    proof {
        assert(s@ =~= spec_copyright(*from, *to));
    }
    s
}

/// One bottom-navigation button.
pub open spec fn spec_nav_link(text: Seq<char>, slug: Seq<char>) -> Seq<char> {
    " <a href=\""@ + PageKind::Post.spec_url_of(slug) + "\" class=\"bottom-nav-button\">"@ + text
        + "</a> "@
}

fn nav_link(text: &str, slug: &str) -> (r: String)
    ensures
        r@ == spec_nav_link(text@, slug@),
{
    let mut s = String::from_str(" <a href=\"");
    s.append(PageKind::Post.url_of(slug).as_str());
    s.append("\" class=\"bottom-nav-button\">");
    s.append(text);
    s.append("</a> ");
    proof {
        assert(s@ =~= spec_nav_link(text@, slug@));
    }
    s
}

/// The least index whose post was created strictly before `t`, or -1.
/// Over a list sorted by `created` descending this is the chronological
/// predecessor: the latest post older than `t`.
pub open spec fn first_lt_index(s: Seq<Post>, t: DateTime) -> int
    decreases s.len(),
{
    if s.len() == 0 {
        -1
    } else if s[0].created.spec_lt(t) {
        0
    } else {
        let r = first_lt_index(s.drop_first(), t);
        if r == -1 {
            -1
        } else {
            r + 1
        }
    }
}

/// The greatest index whose post was created strictly after `t`, or -1.
/// Over a list sorted by `created` descending this is the chronological
/// successor: the earliest post newer than `t`.
pub open spec fn last_gt_index(s: Seq<Post>, t: DateTime) -> int
    decreases s.len(),
{
    if s.len() == 0 {
        -1
    } else {
        let r = last_gt_index(s.drop_first(), t);
        if r != -1 {
            r + 1
        } else if t.spec_lt(s[0].created) {
            0
        } else {
            -1
        }
    }
}

pub proof fn lemma_first_lt_index(s: Seq<Post>, t: DateTime)
    ensures
        (first_lt_index(s, t) == -1) <==> (forall|i: int|
            0 <= i < s.len() ==> !s[i].created.spec_lt(t)),
        first_lt_index(s, t) != -1 ==> {
            &&& 0 <= first_lt_index(s, t) < s.len()
            &&& s[first_lt_index(s, t)].created.spec_lt(t)
            &&& (forall|j: int| 0 <= j < first_lt_index(s, t) ==> !s[j].created.spec_lt(t))
        },
    decreases s.len(),
{
    if s.len() > 0 {
        lemma_first_lt_index(s.drop_first(), t);
        assert forall|i: int| 1 <= i < s.len() implies s[i] == s.drop_first()[i - 1] by {}
    }
}

pub proof fn lemma_last_gt_index(s: Seq<Post>, t: DateTime)
    ensures
        (last_gt_index(s, t) == -1) <==> (forall|i: int|
            0 <= i < s.len() ==> !t.spec_lt(s[i].created)),
        last_gt_index(s, t) != -1 ==> {
            &&& 0 <= last_gt_index(s, t) < s.len()
            &&& t.spec_lt(s[last_gt_index(s, t)].created)
            &&& (forall|j: int| last_gt_index(s, t) < j < s.len() ==> !t.spec_lt(s[j].created))
        },
    decreases s.len(),
{
    if s.len() > 0 {
        lemma_last_gt_index(s.drop_first(), t);
        assert forall|i: int| 1 <= i < s.len() implies s[i] == s.drop_first()[i - 1] by {}
    }
}

/// The two navigation buttons under a post: its chronological
/// predecessor, wrapping to the newest post (labelled "Last") when the
/// post is the oldest; and its chronological successor, wrapping to the
/// oldest post (labelled "First") when the post is the newest.
pub open spec fn spec_bottom_nav(this: Post, s: Seq<Post>) -> Seq<char> {
    let pl = first_lt_index(s, this.created);
    let nl = last_gt_index(s, this.created);
    (if pl == -1 {
        spec_nav_link("\u{2190} Last"@, s[0].url@)
    } else {
        spec_nav_link("\u{2190} Prev"@, s[pl].url@)
    }) + (if nl == -1 {
        spec_nav_link("First \u{2192}"@, s[s.len() - 1].url@)
    } else {
        spec_nav_link("Next \u{2192}"@, s[nl].url@)
    })
}

/// The navigation fragment for `this` among the published posts,
/// given newest first.
#[verifier::loop_isolation(false)]
pub fn bottom_navigation(this: &Post, published: &Vec<Post>) -> (r: String)
    requires
        published@.len() > 0,
    ensures
        r@ == spec_bottom_nav(*this, published@),
{
    let n = published.len();
    let t = this.created;
    let mut i: usize = 0;
    while i < n && !published[i].created.lt(&t)
        invariant
            i <= n,
            forall|j: int| 0 <= j < i ==> !published@[j].created.spec_lt(t),
        decreases n - i,
    {
        i += 1;
    }
    let mut k: usize = n;
    while k > 0 && !t.lt(&published[k - 1].created)
        invariant
            k <= n,
            forall|j: int| k <= j < n ==> !t.spec_lt(published@[j].created),
        decreases k,
    {
        k -= 1;
    }
    proof {
        lemma_first_lt_index(published@, t);
        lemma_last_gt_index(published@, t);
        if i < n {
            assert(first_lt_index(published@, t) == i);
        } else {
            assert(first_lt_index(published@, t) == -1);
        }
        if k > 0 {
            assert(last_gt_index(published@, t) == k - 1);
        } else {
            assert(last_gt_index(published@, t) == -1);
        }
    }
    let mut s = if i < n {
        nav_link("\u{2190} Prev", published[i].url.as_str())
    } else {
        nav_link("\u{2190} Last", published[0].url.as_str())
    };
    let rlink = if k > 0 {
        nav_link("Next \u{2192}", published[k - 1].url.as_str())
    } else {
        nav_link("First \u{2192}", published[n - 1].url.as_str())
    };
    s.append(rlink.as_str());
    s
}

/// The concatenated tag links of a post, in the order given.
pub open spec fn spec_tag_links(tags: Seq<Tag>) -> Seq<char>
    decreases tags.len(),
{
    if tags.len() == 0 {
        Seq::empty()
    } else {
        spec_tag_links(tags.drop_last()) + tags.last().spec_link()
    }
}

/// The tag-link list under a post: empty when the post has no tags.
pub open spec fn spec_tag_list(tags: Seq<Tag>) -> Seq<char> {
    if tags.len() == 0 {
        ""@
    } else {
        "<br><strong>Tags:</strong> "@ + spec_tag_links(tags) + "<br>"@
    }
}

pub fn tag_list(tags: &Vec<Tag>) -> (r: String)
    ensures
        r@ == spec_tag_list(tags@),
{
    proof {
        reveal_strlit("");
    }
    if tags.len() == 0 {
        return String::new();
    }
    let mut links = String::new();
    let mut i: usize = 0;
    while i < tags.len()
        invariant
            i <= tags@.len(),
            links@ == spec_tag_links(tags@.take(i as int)),
        decreases tags@.len() - i,
    {
        links.append(tags[i].link().as_str());
        proof {
            assert(tags@.take(i as int + 1).drop_last() =~= tags@.take(i as int));
            assert(tags@.take(i as int + 1).last() == tags@[i as int]);
        }
        i += 1;
    }
    proof {
        assert(tags@.take(tags@.len() as int) =~= tags@);
    }
    let mut s = String::from_str("<br><strong>Tags:</strong> ");
    s.append(links.as_str());
    s.append("<br>");
    proof {
        assert(s@ =~= spec_tag_list(tags@));
    }
    s
}

/// One row of a post table: linked title and creation date.
pub open spec fn spec_table_row(title: Seq<char>, slug: Seq<char>, created: DateTime) -> Seq<
    char,
> {
    "<tr><td><a href=\""@ + PageKind::Post.spec_url_of(slug) + "\">"@ + title + "</a></td><td>"@
        + spec_dmy(created) + "</td></tr>"@
}

pub open spec fn spec_table_rows(rows: Seq<(String, String, DateTime)>) -> Seq<char>
    decreases rows.len(),
{
    if rows.len() == 0 {
        Seq::empty()
    } else {
        spec_table_rows(rows.drop_last()) + spec_table_row(
            rows.last().0@,
            rows.last().1@,
            rows.last().2,
        )
    }
}

/// The reverse-chronological post table, rows in the order given.
pub open spec fn spec_table(rows: Seq<(String, String, DateTime)>) -> Seq<char> {
    "<hr><table class=\"post-list\"><th>Post</th><th>Date</th>"@ + spec_table_rows(rows)
        + "</table><hr>"@
}

pub open spec fn rows_wf(rows: Seq<(String, String, DateTime)>) -> bool {
    forall|i: int| 0 <= i < rows.len() ==> (#[trigger] rows[i]).2.wf()
}

pub fn create_table(rows: &Vec<(String, String, DateTime)>) -> (r: String)
    requires
        rows_wf(rows@),
    ensures
        r@ == spec_table(rows@),
{
    let mut body = String::from_str("<hr><table class=\"post-list\"><th>Post</th><th>Date</th>");
    let ghost prefix = body@;
    let mut i: usize = 0;
    while i < rows.len()
        invariant
            i <= rows@.len(),
            rows_wf(rows@),
            body@ == prefix + spec_table_rows(rows@.take(i as int)),
        decreases rows@.len() - i,
    {
        let row = &rows[i];
        body.append("<tr><td><a href=\"");
        body.append(PageKind::Post.url_of(row.1.as_str()).as_str());
        body.append("\">");
        body.append(row.0.as_str());
        body.append("</a></td><td>");
        body.append(row.2.format_dmy().as_str());
        body.append("</td></tr>");
        proof {
            assert(rows@.take(i as int + 1).drop_last() =~= rows@.take(i as int));
            assert(rows@.take(i as int + 1).last() == rows@[i as int]);
            assert(body@ =~= prefix + spec_table_rows(rows@.take(i as int + 1)));
        }
        i += 1;
    }
    proof {
        assert(rows@.take(rows@.len() as int) =~= rows@);
    }
    body.append("</table><hr>");
    proof {
        assert(body@ =~= spec_table(rows@));
    }
    body
}

/// A full post page: the highlighted markdown body, the tag-link list,
/// the layout with the post's title, the copyright span from `created` to
/// `updated`, and the chronological navigation.
pub open spec fn spec_blogpost(post: Post, tags: Seq<Tag>, published: Seq<Post>) -> Seq<char> {
    spec_layout(
        post.title@,
        html_of(spec_rewrite(md_parse(post.content@))) + spec_tag_list(tags),
        spec_copyright(post.created, post.updated),
        spec_bottom_nav(post, published),
    )
}

pub fn blogpost(post: &Post, tags: &Vec<Tag>, published: &Vec<Post>, hl: &Highlighter) -> (r:
    String)
    requires
        post.wf(),
        published@.len() > 0,
    ensures
        r@ == spec_blogpost(*post, tags@, published@),
{
    let mut body = render_markdown(post.content.as_str(), hl);
    body.append(tag_list(tags).as_str());
    layout(
        post.title.as_str(),
        body.as_str(),
        copyright_years(&post.created, &post.updated).as_str(),
        bottom_navigation(post, published).as_str(),
    )
}

/// The overview page: the reverse-chronological table of all published
/// posts, the webring banner fragment spliced in verbatim, and a
/// copyright span from the oldest to the newest post.  With no published
/// posts the table is empty and the copyright span is empty.
pub open spec fn spec_overview(sites: Seq<(String, String, DateTime)>, banner: Seq<char>) -> Seq<
    char,
> {
    spec_layout(
        "Overview"@,
        "<h1>Blog Posts</h1>"@ + spec_table(sites) + banner,
        if sites.len() > 0 {
            spec_copyright(sites.last().2, sites[0].2)
        } else {
            ""@
        },
        ""@,
    )
}

pub fn overview(sites: &Vec<(String, String, DateTime)>, banner: &str) -> (r: String)
    requires
        rows_wf(sites@),
    ensures
        r@ == spec_overview(sites@, banner@),
{
    proof {
        reveal_strlit("");
    }
    let mut body = String::from_str("<h1>Blog Posts</h1>");
    body.append(create_table(sites).as_str());
    body.append(banner);
    let copyright = if sites.len() > 0 {
        copyright_years(&sites[sites.len() - 1].2, &sites[0].2)
    } else {
        String::new()
    };
    let page = layout("Overview", body.as_str(), copyright.as_str(), "");
    proof {
        assert("<h1>Blog Posts</h1>"@ + spec_table(sites@) + banner@ =~= body@);
    }
    page
}

/// A tag page: its description's highlighted markdown, then the table of
/// published posts carrying the tag; no navigation, no copyright span.
pub open spec fn spec_tag_page(
    name: Seq<char>,
    description: Seq<char>,
    sites: Seq<(String, String, DateTime)>,
) -> Seq<char> {
    spec_layout(
        "Posts with tag "@ + upper_of(name),
        "<h1>Posts with tag "@ + upper_of(name) + "</h1>"@ + html_of(
            spec_rewrite(md_parse(description)),
        ) + spec_table(sites),
        ""@,
        ""@,
    )
}

/// The title of the page of tag `name`, the tag uppercased as in its
/// links.
fn tag_title(name: &str) -> (r: String)
    ensures
        r@ == "Posts with tag "@ + upper_of(name@),
{
    let mut title = String::from_str("Posts with tag ");
    title.append(to_upper(name).as_str());
    title
}

/// Render the page of tag `name`.  A tag with no metadata row is a
/// missing cross-reference: that one page fails, the batch goes on.
pub fn tag(
    name: &str,
    meta: Option<&TagMeta>,
    sites: &Vec<(String, String, DateTime)>,
    hl: &Highlighter,
) -> (r: Result<String, RenderError>)
    requires
        rows_wf(sites@),
    ensures
        (r is Ok) <==> (meta is Some),
        r matches Ok(page) ==> page@ == spec_tag_page(
            name@,
            meta.unwrap().description@,
            sites@,
        ),
        r matches Err(e) ==> e is MissingCrossReference,
{
    proof {
        reveal_strlit("");
    }
    let m = match meta {
        Some(m) => m,
        None => {
            return Err(RenderError::MissingCrossReference);
        },
    };
    let title = tag_title(name);
    let mut body = String::from_str("<h1>Posts with tag ");
    body.append(to_upper(name).as_str());
    body.append("</h1>");
    body.append(render_markdown(m.description.as_str(), hl).as_str());
    body.append(create_table(sites).as_str());
    let page = layout(title.as_str(), body.as_str(), "", "");
    proof {
        assert(body@ =~= "<h1>Posts with tag "@ + upper_of(name@) + "</h1>"@ + html_of(
            spec_rewrite(md_parse(m.description@)),
        ) + spec_table(sites@));
    }
    Ok(page)
}


/// A page of the output tree, at the model level: where it is written
/// and what bytes it holds.
pub ghost struct PageOut {
    pub path: Seq<char>,
    pub content: Seq<char>,
}

/// The written pages a list of (path, contents) pairs stands for.
pub open spec fn pages_model(out: Seq<(String, String)>) -> Seq<PageOut> {
    out.map_values(|pr: (String, String)| PageOut { path: pr.0@, content: pr.1@ })
}

proof fn lemma_pages_model_push(s: Seq<(String, String)>, p: (String, String))
    ensures
        pages_model(s.push(p)) == pages_model(s).push(PageOut { path: p.0@, content: p.1@ }),
{
    assert(pages_model(s.push(p)) =~= pages_model(s).push(PageOut { path: p.0@, content: p.1@ }));
}

/// The tag associations carrying a post's slug, in the order given.
pub open spec fn spec_tags_of(tags: Seq<Tag>, url: Seq<char>) -> Seq<Tag> {
    tags.filter(|t: Tag| t.url@ == url)
}

pub fn tags_of(tags: &Vec<Tag>, url: &String) -> (r: Vec<Tag>)
    ensures
        r@ == spec_tags_of(tags@, url@),
{
    let mut out: Vec<Tag> = Vec::new();
    proof {
        reveal(Seq::filter);
        assert(tags@.take(0) =~= Seq::<Tag>::empty());
        assert(out@ =~= spec_tags_of(tags@.take(0), url@));
    }
    let mut i: usize = 0;
    while i < tags.len()
        invariant
            i <= tags@.len(),
            out@ == spec_tags_of(tags@.take(i as int), url@),
        decreases tags@.len() - i,
    {
        if tags[i].url == *url {
            out.push(Tag { tag: tags[i].tag.clone(), url: tags[i].url.clone() });
        }
        proof {
            reveal(Seq::filter);
            assert(tags@.take(i as int + 1).drop_last() =~= tags@.take(i as int));
            assert(tags@.take(i as int + 1).last() == tags@[i as int]);
        }
        i += 1;
    }
    proof {
        assert(tags@.take(tags@.len() as int) =~= tags@);
    }
    out
}

/// The overview table's rows: every post as (title, slug, created).
pub open spec fn spec_sites(published: Seq<Post>) -> Seq<(String, String, DateTime)> {
    published.map_values(|p: Post| (p.title, p.url, p.created))
}

pub fn sites_of(published: &Vec<Post>) -> (r: Vec<(String, String, DateTime)>)
    ensures
        r@ == spec_sites(published@),
{
    let mut out: Vec<(String, String, DateTime)> = Vec::new();
    let mut i: usize = 0;
    proof {
        assert(out@ =~= spec_sites(published@.take(0)));
    }
    while i < published.len()
        invariant
            i <= published@.len(),
            out@ == spec_sites(published@.take(i as int)),
        decreases published@.len() - i,
    {
        let p = &published[i];
        out.push((p.title.clone(), p.url.clone(), p.created));
        proof {
            assert(out@ =~= spec_sites(published@.take(i as int + 1)));
        }
        i += 1;
    }
    proof {
        assert(published@.take(published@.len() as int) =~= published@);
    }
    out
}

/// The published posts that carry tag `name`.
pub open spec fn spec_posts_with(published: Seq<Post>, tags: Seq<Tag>, name: Seq<char>) -> Seq<
    Post,
> {
    published.filter(
        |p: Post|
            exists|j: int|
                0 <= j < tags.len() && (#[trigger] tags[j]).tag@ == name && tags[j].url@ == p.url@,
    )
}

/// The table rows of the page of tag `name`.
pub open spec fn spec_sites_for(published: Seq<Post>, tags: Seq<Tag>, name: Seq<char>) -> Seq<
    (String, String, DateTime),
> {
    spec_sites(spec_posts_with(published, tags, name))
}

/// Posts picked out of a well-formed snapshot are well formed.
proof fn lemma_posts_with_wf(published: Seq<Post>, tags: Seq<Tag>, name: Seq<char>)
    requires
        forall|i: int| 0 <= i < published.len() ==> (#[trigger] published[i]).wf(),
    ensures
        forall|k: int|
            0 <= k < spec_posts_with(published, tags, name).len() ==> (#[trigger] spec_posts_with(
                published,
                tags,
                name,
            )[k]).wf(),
    decreases published.len(),
{
    reveal(Seq::filter);
    if published.len() > 0 {
        assert(forall|i: int|
            0 <= i < published.drop_last().len() ==> (#[trigger] published.drop_last()[i]).wf());
        lemma_posts_with_wf(published.drop_last(), tags, name);
        assert(published.last().wf());
        assert(spec_posts_with(published.drop_last(), tags, name) == spec_posts_with(
            published,
            tags,
            name,
        ) || spec_posts_with(published, tags, name) == spec_posts_with(
            published.drop_last(),
            tags,
            name,
        ).push(published.last()));
    }
}

fn has_tag(tags: &Vec<Tag>, name: &String, url: &String) -> (r: bool)
    ensures
        r == exists|j: int|
            0 <= j < tags@.len() && (#[trigger] tags@[j]).tag@ == name@ && tags@[j].url@ == url@,
{
    let mut i: usize = 0;
    while i < tags.len()
        invariant
            i <= tags@.len(),
            forall|j: int|
                0 <= j < i ==> !((#[trigger] tags@[j]).tag@ == name@ && tags@[j].url@ == url@),
        decreases tags@.len() - i,
    {
        if tags[i].tag == *name && tags[i].url == *url {
            return true;
        }
        i += 1;
    }
    false
}

pub fn sites_for_tag(published: &Vec<Post>, tags: &Vec<Tag>, name: &String) -> (r: Vec<
    (String, String, DateTime),
>)
    ensures
        r@ == spec_sites_for(published@, tags@, name@),
{
    let mut picked: Vec<Post> = Vec::new();
    proof {
        reveal(Seq::filter);
        assert(published@.take(0) =~= Seq::<Post>::empty());
        assert(picked@ =~= spec_posts_with(published@.take(0), tags@, name@));
    }
    let mut i: usize = 0;
    while i < published.len()
        invariant
            i <= published@.len(),
            picked@ == spec_posts_with(published@.take(i as int), tags@, name@),
        decreases published@.len() - i,
    {
        let p = &published[i];
        if has_tag(tags, name, &p.url) {
            picked.push(
                Post {
                    url: p.url.clone(),
                    title: p.title.clone(),
                    version: p.version.clone(),
                    created: p.created,
                    updated: p.updated,
                    content: p.content.clone(),
                    published: p.published,
                },
            );
            proof {
                assert(picked@.last() == published@[i as int]);
            }
        }
        proof {
            reveal(Seq::filter);
            assert(published@.take(i as int + 1).drop_last() =~= published@.take(i as int));
            assert(published@.take(i as int + 1).last() == published@[i as int]);
        }
        i += 1;
    }
    proof {
        assert(published@.take(published@.len() as int) =~= published@);
    }
    let r = sites_of(&picked);
    proof {
        assert(r@ == spec_sites_for(published@, tags@, name@));
    }
    r
}

/// The post pages of the site, one per published post, in order.
pub open spec fn spec_post_pages(published: Seq<Post>, tags: Seq<Tag>) -> Seq<PageOut> {
    published.map_values(
        |p: Post|
            PageOut {
                path: PageKind::Post.spec_path_of(p.url@),
                content: spec_blogpost(p, spec_tags_of(tags, p.url@), published),
            },
    )
}

/// The tag pages of the site, one per metadata row, in order.
pub open spec fn spec_tag_pages(
    published: Seq<Post>,
    tags: Seq<Tag>,
    metas: Seq<TagMeta>,
) -> Seq<PageOut> {
    metas.map_values(
        |m: TagMeta|
            PageOut {
                path: PageKind::Tag.spec_path_of(m.tag@),
                content: spec_tag_page(
                    m.tag@,
                    m.description@,
                    spec_sites_for(published, tags, m.tag@),
                ),
            },
    )
}

/// The whole output tree of one render pass over a snapshot: the feed,
/// one page per published post, one page per tag metadata row, and the
/// overview, each under its canonical path.
pub open spec fn spec_site(
    published: Seq<Post>,
    tags: Seq<Tag>,
    metas: Seq<TagMeta>,
    banner: Seq<char>,
    base: Seq<char>,
) -> Seq<PageOut> {
    seq![PageOut { path: "html/rss.xml"@, content: spec_feed(published, base) }]
        + spec_post_pages(published, tags) + spec_tag_pages(published, tags, metas) + seq![
        PageOut { path: "html/index.html"@, content: spec_overview(spec_sites(published), banner) },
    ]
}

/// One full render pass: every page of the site from one snapshot of the
/// published posts (newest first), the tag associations and the tag
/// metadata rows, as (path, contents) pairs in the order they are
/// written.  A snapshot with no published posts still renders: the feed
/// and the overview are empty, and no post page exists.
#[verifier::rlimit(50)]
pub fn render_site(
    published: &Vec<Post>,
    tags: &Vec<Tag>,
    metas: &Vec<TagMeta>,
    banner: &str,
    base: &str,
    hl: &Highlighter,
) -> (r: Vec<(String, String)>)
    requires
        forall|i: int| 0 <= i < published@.len() ==> (#[trigger] published@[i]).wf(),
    ensures
        pages_model(r@) == spec_site(published@, tags@, metas@, banner@, base@),
{
    let ghost feed_page = PageOut { path: "html/rss.xml"@, content: spec_feed(published@, base@) };
    let mut out: Vec<(String, String)> = Vec::new();
    out.push((String::from_str("html/rss.xml"), create_feed(published, base)));
    proof {
        assert(pages_model(out@) =~= seq![feed_page]);
    }
    let mut i: usize = 0;
    while i < published.len()
        invariant
            i <= published@.len(),
            forall|k: int| 0 <= k < published@.len() ==> (#[trigger] published@[k]).wf(),
            pages_model(out@) == seq![feed_page] + spec_post_pages(published@, tags@).take(
                i as int,
            ),
        decreases published@.len() - i,
    {
        let post_tags = tags_of(tags, &published[i].url);
        let page = blogpost(&published[i], &post_tags, published, hl);
        let pair = (PageKind::Post.path_of(published[i].url.as_str()), page);
        let ghost gpair = pair;
        let ghost pre = out@;
        out.push(pair);
        proof {
            lemma_pages_model_push(pre, gpair);
            assert(spec_post_pages(published@, tags@).take(i as int + 1) =~= spec_post_pages(
                published@,
                tags@,
            ).take(i as int).push(spec_post_pages(published@, tags@)[i as int]));
            assert(spec_post_pages(published@, tags@)[i as int] == PageOut {
                path: PageKind::Post.spec_path_of(published@[i as int].url@),
                content: spec_blogpost(
                    published@[i as int],
                    spec_tags_of(tags@, published@[i as int].url@),
                    published@,
                ),
            });
            assert(pages_model(out@) =~= seq![feed_page] + spec_post_pages(
                published@,
                tags@,
            ).take(i as int + 1));
        }
        i += 1;
    }
    proof {
        assert(spec_post_pages(published@, tags@).take(published@.len() as int)
            =~= spec_post_pages(published@, tags@));
    }
    let ghost mid = seq![feed_page] + spec_post_pages(published@, tags@);
    let mut k: usize = 0;
    while k < metas.len()
        invariant
            k <= metas@.len(),
            forall|j: int| 0 <= j < published@.len() ==> (#[trigger] published@[j]).wf(),
            pages_model(out@) == mid + spec_tag_pages(published@, tags@, metas@).take(k as int),
        decreases metas@.len() - k,
    {
        let sites = sites_for_tag(published, tags, &metas[k].tag);
        proof {
            lemma_posts_with_wf(published@, tags@, metas@[k as int].tag@);
            assert forall|j: int| 0 <= j < sites@.len() implies (#[trigger] sites@[j]).2.wf() by {
                assert(sites@[j].2 == spec_posts_with(
                    published@,
                    tags@,
                    metas@[k as int].tag@,
                )[j].created);
            }
        }
        let page = match tag(metas[k].tag.as_str(), Some(&metas[k]), &sites, hl) {
            Ok(p) => p,
            Err(_) => unreached(),
        };
        let pair = (PageKind::Tag.path_of(metas[k].tag.as_str()), page);
        let ghost gpair = pair;
        let ghost pre = out@;
        out.push(pair);
        proof {
            lemma_pages_model_push(pre, gpair);
            assert(spec_tag_pages(published@, tags@, metas@).take(k as int + 1)
                =~= spec_tag_pages(published@, tags@, metas@).take(k as int).push(
                spec_tag_pages(published@, tags@, metas@)[k as int],
            ));
            assert(spec_tag_pages(published@, tags@, metas@)[k as int] == PageOut {
                path: PageKind::Tag.spec_path_of(metas@[k as int].tag@),
                content: spec_tag_page(
                    metas@[k as int].tag@,
                    metas@[k as int].description@,
                    spec_sites_for(published@, tags@, metas@[k as int].tag@),
                ),
            });
            assert(pages_model(out@) =~= mid + spec_tag_pages(published@, tags@, metas@).take(
                k as int + 1,
            ));
        }
        k += 1;
    }
    proof {
        assert(spec_tag_pages(published@, tags@, metas@).take(metas@.len() as int)
            =~= spec_tag_pages(published@, tags@, metas@));
    }
    let sites = sites_of(published);
    proof {
        assert forall|j: int| 0 <= j < sites@.len() implies (#[trigger] sites@[j]).2.wf() by {
            assert(sites@[j].2 == published@[j].created);
        }
    }
    let front = overview(&sites, banner);
    out.push((String::from_str("html/index.html"), front));
    proof {
        assert(pages_model(out@) =~= spec_site(published@, tags@, metas@, banner@, base@));
    }
    out
}



/// Posts in reverse-chronological order: newest first, never ascending.
pub open spec fn sorted_desc(s: Seq<Post>) -> bool {
    forall|i: int, j: int|
        0 <= i < j < s.len() ==> !(#[trigger] s[i]).created.spec_lt((#[trigger] s[j]).created)
}

/// Over a sorted snapshot the two indexes mean what the navigation
/// promises: the predecessor is the latest post created strictly before
/// `t`, the successor the earliest post created strictly after `t`.
pub proof fn lemma_neighbor_meaning(s: Seq<Post>, t: DateTime)
    requires
        sorted_desc(s),
    ensures
        first_lt_index(s, t) != -1 ==> (forall|j: int|
            0 <= j < s.len() && (#[trigger] s[j]).created.spec_lt(t) ==> !s[first_lt_index(
                s,
                t,
            )].created.spec_lt(s[j].created)),
        last_gt_index(s, t) != -1 ==> (forall|j: int|
            0 <= j < s.len() && t.spec_lt((#[trigger] s[j]).created) ==> !s[j].created.spec_lt(
                s[last_gt_index(s, t)].created,
            )),
{
    lemma_first_lt_index(s, t);
    lemma_last_gt_index(s, t);
}

/// The rows of a post table, as values.
pub open spec fn rows_model(s: Seq<(String, String, DateTime)>) -> Seq<
    (Seq<char>, Seq<char>, DateTime),
> {
    s.map_values(|r: (String, String, DateTime)| (r.0@, r.1@, r.2))
}

/// Model equality survives dropping the last element.
proof fn lemma_tags_model_drop_last(a: Seq<Tag>, b: Seq<Tag>)
    requires
        tags_model(a) == tags_model(b),
        a.len() == b.len(),
        a.len() > 0,
    ensures
        tags_model(a.drop_last()) == tags_model(b.drop_last()),
{
    assert forall|i: int| 0 <= i < a.len() - 1 implies tags_model(a.drop_last())[i] == tags_model(
        b.drop_last(),
    )[i] by {
        assert(tags_model(a.drop_last())[i] == a.drop_last()[i].model());
        assert(tags_model(b.drop_last())[i] == b.drop_last()[i].model());
        assert(tags_model(a)[i] == a[i].model());
        assert(tags_model(b)[i] == b[i].model());
    }
    assert(tags_model(a.drop_last()) =~= tags_model(b.drop_last()));
}

/// Model equality survives dropping the last post.
proof fn lemma_posts_model_drop_last(a: Seq<Post>, b: Seq<Post>)
    requires
        posts_model(a) == posts_model(b),
        a.len() == b.len(),
        a.len() > 0,
    ensures
        posts_model(a.drop_last()) == posts_model(b.drop_last()),
{
    assert forall|i: int| 0 <= i < a.len() - 1 implies posts_model(a.drop_last())[i]
        == posts_model(b.drop_last())[i] by {
        assert(posts_model(a.drop_last())[i] == a.drop_last()[i].model());
        assert(posts_model(b.drop_last())[i] == b.drop_last()[i].model());
        assert(posts_model(a)[i] == a[i].model());
        assert(posts_model(b)[i] == b[i].model());
    }
    assert(posts_model(a.drop_last()) =~= posts_model(b.drop_last()));
}

/// Model equality survives dropping the first post.
proof fn lemma_posts_model_drop_first(a: Seq<Post>, b: Seq<Post>)
    requires
        posts_model(a) == posts_model(b),
        a.len() == b.len(),
        a.len() > 0,
    ensures
        posts_model(a.drop_first()) == posts_model(b.drop_first()),
{
    assert forall|i: int| 0 <= i < a.len() - 1 implies posts_model(a.drop_first())[i]
        == posts_model(b.drop_first())[i] by {
        assert(posts_model(a.drop_first())[i] == a.drop_first()[i].model());
        assert(posts_model(b.drop_first())[i] == b.drop_first()[i].model());
        assert(posts_model(a)[i + 1] == a[i + 1].model());
        assert(posts_model(b)[i + 1] == b[i + 1].model());
    }
    assert(posts_model(a.drop_first()) =~= posts_model(b.drop_first()));
}

proof fn lemma_tag_links_model(a: Seq<Tag>, b: Seq<Tag>)
    requires
        tags_model(a) == tags_model(b),
    ensures
        spec_tag_links(a) == spec_tag_links(b),
    decreases a.len(),
{
    assert(tags_model(a).len() == a.len());
    assert(tags_model(b).len() == b.len());
    assert(a.len() == b.len());
    if a.len() > 0 {
        lemma_tags_model_drop_last(a, b);
        lemma_tag_links_model(a.drop_last(), b.drop_last());
        assert(a.last().model() == tags_model(a)[a.len() - 1]);
        assert(b.last().model() == tags_model(b)[b.len() - 1]);
        assert(a.last().spec_link() == b.last().spec_link());
    }
}

proof fn lemma_tag_list_model(a: Seq<Tag>, b: Seq<Tag>)
    requires
        tags_model(a) == tags_model(b),
    ensures
        spec_tag_list(a) == spec_tag_list(b),
{
    assert(tags_model(a).len() == a.len());
    assert(tags_model(b).len() == b.len());
    lemma_tag_links_model(a, b);
}

proof fn lemma_tags_of_model(a: Seq<Tag>, b: Seq<Tag>, url: Seq<char>)
    requires
        tags_model(a) == tags_model(b),
    ensures
        tags_model(spec_tags_of(a, url)) == tags_model(spec_tags_of(b, url)),
    decreases a.len(),
{
    reveal(Seq::filter);
    assert(tags_model(a).len() == a.len());
    assert(tags_model(b).len() == b.len());
    assert(a.len() == b.len());
    if a.len() > 0 {
        lemma_tags_model_drop_last(a, b);
        lemma_tags_of_model(a.drop_last(), b.drop_last(), url);
        assert(a.last().model() == tags_model(a)[a.len() - 1]);
        assert(b.last().model() == tags_model(b)[b.len() - 1]);
        if a.last().url@ == url {
            assert(tags_model(spec_tags_of(a, url)) =~= tags_model(
                spec_tags_of(a.drop_last(), url),
            ).push(a.last().model()));
            assert(tags_model(spec_tags_of(b, url)) =~= tags_model(
                spec_tags_of(b.drop_last(), url),
            ).push(b.last().model()));
        }
    }
}

proof fn lemma_nav_index_model(a: Seq<Post>, b: Seq<Post>, t: DateTime)
    requires
        posts_model(a) == posts_model(b),
    ensures
        first_lt_index(a, t) == first_lt_index(b, t),
        last_gt_index(a, t) == last_gt_index(b, t),
    decreases a.len(),
{
    assert(posts_model(a).len() == a.len());
    assert(posts_model(b).len() == b.len());
    if a.len() > 0 {
        lemma_posts_model_drop_first(a, b);
        lemma_nav_index_model(a.drop_first(), b.drop_first(), t);
        assert(a[0].model() == posts_model(a)[0]);
        assert(b[0].model() == posts_model(b)[0]);
    }
}

proof fn lemma_bottom_nav_model(pa: Post, pb: Post, a: Seq<Post>, b: Seq<Post>)
    requires
        pa.model() == pb.model(),
        posts_model(a) == posts_model(b),
        a.len() > 0,
    ensures
        spec_bottom_nav(pa, a) == spec_bottom_nav(pb, b),
{
    assert(posts_model(a).len() == a.len());
    assert(posts_model(b).len() == b.len());
    lemma_nav_index_model(a, b, pa.created);
    lemma_first_lt_index(a, pa.created);
    lemma_last_gt_index(a, pa.created);
    assert forall|i: int| 0 <= i < a.len() implies (#[trigger] a[i]).model() == b[i].model() by {
        assert(a[i].model() == posts_model(a)[i]);
        assert(b[i].model() == posts_model(b)[i]);
    }
}

proof fn lemma_table_rows_model(
    a: Seq<(String, String, DateTime)>,
    b: Seq<(String, String, DateTime)>,
)
    requires
        rows_model(a) == rows_model(b),
    ensures
        spec_table_rows(a) == spec_table_rows(b),
    decreases a.len(),
{
    assert(rows_model(a).len() == a.len());
    assert(rows_model(b).len() == b.len());
    if a.len() > 0 {
        assert forall|i: int| 0 <= i < a.len() - 1 implies rows_model(a.drop_last())[i] == rows_model(
            b.drop_last(),
        )[i] by {
            assert(a.drop_last()[i] == a[i]);
            assert(b.drop_last()[i] == b[i]);
            assert(rows_model(a.drop_last())[i] == (a.drop_last()[i].0@, a.drop_last()[i].1@, a.drop_last()[i].2));
            assert(rows_model(b.drop_last())[i] == (b.drop_last()[i].0@, b.drop_last()[i].1@, b.drop_last()[i].2));
            assert(rows_model(a)[i] == (a[i].0@, a[i].1@, a[i].2));
            assert(rows_model(b)[i] == (b[i].0@, b[i].1@, b[i].2));
        }
        assert(rows_model(a.drop_last()) =~= rows_model(b.drop_last()));
        lemma_table_rows_model(a.drop_last(), b.drop_last());
        assert(rows_model(a)[a.len() - 1] == (a.last().0@, a.last().1@, a.last().2));
        assert(rows_model(b)[b.len() - 1] == (b.last().0@, b.last().1@, b.last().2));
    }
}

proof fn lemma_posts_with_model(
    pa: Seq<Post>,
    pb: Seq<Post>,
    ta: Seq<Tag>,
    tb: Seq<Tag>,
    name: Seq<char>,
)
    requires
        posts_model(pa) == posts_model(pb),
        tags_model(ta) == tags_model(tb),
    ensures
        posts_model(spec_posts_with(pa, ta, name)) == posts_model(spec_posts_with(pb, tb, name)),
    decreases pa.len(),
{
    reveal(Seq::filter);
    assert(posts_model(pa).len() == pa.len());
    assert(posts_model(pb).len() == pb.len());
    assert(tags_model(ta).len() == ta.len());
    assert(tags_model(tb).len() == tb.len());
    assert(pa.len() == pb.len());
    assert(ta.len() == tb.len());
    if pa.len() > 0 {
        lemma_posts_model_drop_last(pa, pb);
        lemma_posts_with_model(pa.drop_last(), pb.drop_last(), ta, tb, name);
        let la = pa.last();
        let lb = pb.last();
        assert(la.model() == posts_model(pa)[pa.len() - 1]);
        assert(lb.model() == posts_model(pb)[pb.len() - 1]);
        assert((exists|j: int|
            0 <= j < ta.len() && (#[trigger] ta[j]).tag@ == name && ta[j].url@ == la.url@) <==> (
        exists|j: int|
            0 <= j < tb.len() && (#[trigger] tb[j]).tag@ == name && tb[j].url@ == lb.url@)) by {
            if exists|j: int|
                0 <= j < ta.len() && (#[trigger] ta[j]).tag@ == name && ta[j].url@ == la.url@ {
                let j = choose|j: int|
                    0 <= j < ta.len() && (#[trigger] ta[j]).tag@ == name && ta[j].url@ == la.url@;
                assert(ta[j].model() == tags_model(ta)[j]);
                assert(tb[j].model() == tags_model(tb)[j]);
                assert(tb[j].tag@ == name && tb[j].url@ == lb.url@);
            }
            if exists|j: int|
                0 <= j < tb.len() && (#[trigger] tb[j]).tag@ == name && tb[j].url@ == lb.url@ {
                let j = choose|j: int|
                    0 <= j < tb.len() && (#[trigger] tb[j]).tag@ == name && tb[j].url@ == lb.url@;
                assert(ta[j].model() == tags_model(ta)[j]);
                assert(tb[j].model() == tags_model(tb)[j]);
                assert(ta[j].tag@ == name && ta[j].url@ == la.url@);
            }
        }
        if exists|j: int|
            0 <= j < ta.len() && (#[trigger] ta[j]).tag@ == name && ta[j].url@ == la.url@ {
            assert(posts_model(spec_posts_with(pa, ta, name)) =~= posts_model(
                spec_posts_with(pa.drop_last(), ta, name),
            ).push(la.model()));
            assert(posts_model(spec_posts_with(pb, tb, name)) =~= posts_model(
                spec_posts_with(pb.drop_last(), tb, name),
            ).push(lb.model()));
        }
    }
}

proof fn lemma_sites_model(a: Seq<Post>, b: Seq<Post>)
    requires
        posts_model(a) == posts_model(b),
    ensures
        rows_model(spec_sites(a)) == rows_model(spec_sites(b)),
{
    assert(posts_model(a).len() == a.len());
    assert(posts_model(b).len() == b.len());
    assert forall|i: int| 0 <= i < a.len() implies #[trigger] rows_model(spec_sites(a))[i]
        == rows_model(spec_sites(b))[i] by {
        assert(a[i].model() == posts_model(a)[i]);
        assert(b[i].model() == posts_model(b)[i]);
    }
    assert(rows_model(spec_sites(a)) =~= rows_model(spec_sites(b)));
}

proof fn lemma_items_model(a: Seq<Post>, b: Seq<Post>, base: Seq<char>)
    requires
        posts_model(a) == posts_model(b),
    ensures
        spec_items(a, base) == spec_items(b, base),
    decreases a.len(),
{
    assert(posts_model(a).len() == a.len());
    assert(posts_model(b).len() == b.len());
    if a.len() > 0 {
        lemma_posts_model_drop_last(a, b);
        lemma_items_model(a.drop_last(), b.drop_last(), base);
        assert(a.last().model() == posts_model(a)[a.len() - 1]);
        assert(b.last().model() == posts_model(b)[b.len() - 1]);
    }
}

proof fn lemma_feed_model(a: Seq<Post>, b: Seq<Post>, base: Seq<char>)
    requires
        posts_model(a) == posts_model(b),
    ensures
        spec_feed(a, base) == spec_feed(b, base),
{
    assert(posts_model(a).len() == a.len());
    assert(posts_model(b).len() == b.len());
    if a.len() <= crate::rss::FEED_LIMIT {
        lemma_items_model(a, b, base);
    } else {
        assert forall|i: int| 0 <= i < crate::rss::FEED_LIMIT implies posts_model(
            a.take(crate::rss::FEED_LIMIT as int),
        )[i] == posts_model(b.take(crate::rss::FEED_LIMIT as int))[i] by {
            let ta = a.take(crate::rss::FEED_LIMIT as int);
            let tb = b.take(crate::rss::FEED_LIMIT as int);
            assert(ta[i] == a[i]);
            assert(tb[i] == b[i]);
            assert(posts_model(ta)[i] == ta[i].model());
            assert(posts_model(tb)[i] == tb[i].model());
            assert(posts_model(a)[i] == a[i].model());
            assert(posts_model(b)[i] == b[i].model());
        }
        assert(posts_model(a.take(crate::rss::FEED_LIMIT as int)) =~= posts_model(
            b.take(crate::rss::FEED_LIMIT as int),
        ));
        lemma_items_model(
            a.take(crate::rss::FEED_LIMIT as int),
            b.take(crate::rss::FEED_LIMIT as int),
            base,
        );
    }
}

proof fn lemma_blogpost_model(
    pa: Post,
    pb: Post,
    ta: Seq<Tag>,
    tb: Seq<Tag>,
    sa: Seq<Post>,
    sb: Seq<Post>,
)
    requires
        pa.model() == pb.model(),
        tags_model(ta) == tags_model(tb),
        posts_model(sa) == posts_model(sb),
        sa.len() > 0,
    ensures
        spec_blogpost(pa, ta, sa) == spec_blogpost(pb, tb, sb),
{
    lemma_tag_list_model(ta, tb);
    lemma_bottom_nav_model(pa, pb, sa, sb);
}

proof fn lemma_tag_page_model(
    name: Seq<char>,
    description: Seq<char>,
    a: Seq<(String, String, DateTime)>,
    b: Seq<(String, String, DateTime)>,
)
    requires
        rows_model(a) == rows_model(b),
    ensures
        spec_tag_page(name, description, a) == spec_tag_page(name, description, b),
{
    lemma_table_rows_model(a, b);
}

/// Idempotence: one render pass is a function of the snapshot's values
/// alone.  Two snapshots holding the same post, association and metadata
/// values -- however their strings are held in memory -- render to
/// byte-identical output trees, page for page.
pub proof fn lemma_site_idempotent(
    pa: Seq<Post>,
    pb: Seq<Post>,
    ta: Seq<Tag>,
    tb: Seq<Tag>,
    ma: Seq<TagMeta>,
    mb: Seq<TagMeta>,
    banner: Seq<char>,
    base: Seq<char>,
)
    requires
        posts_model(pa) == posts_model(pb),
        tags_model(ta) == tags_model(tb),
        metas_model(ma) == metas_model(mb),
    ensures
        spec_site(pa, ta, ma, banner, base) == spec_site(pb, tb, mb, banner, base),
{
    assert(posts_model(pa).len() == pa.len());
    assert(posts_model(pb).len() == pb.len());
    assert(metas_model(ma).len() == ma.len());
    assert(metas_model(mb).len() == mb.len());
    assert(pa.len() == pb.len());
    assert(ma.len() == mb.len());
    lemma_feed_model(pa, pb, base);
    assert forall|i: int| 0 <= i < pa.len() implies #[trigger] spec_post_pages(pa, ta)[i]
        == spec_post_pages(pb, tb)[i] by {
        assert(pa[i].model() == posts_model(pa)[i]);
        assert(pb[i].model() == posts_model(pb)[i]);
        lemma_tags_of_model(ta, tb, pa[i].url@);
        if pa.len() > 0 {
            lemma_blogpost_model(
                pa[i],
                pb[i],
                spec_tags_of(ta, pa[i].url@),
                spec_tags_of(tb, pb[i].url@),
                pa,
                pb,
            );
        }
    }
    assert(spec_post_pages(pa, ta) =~= spec_post_pages(pb, tb));
    assert forall|k: int| 0 <= k < ma.len() implies #[trigger] spec_tag_pages(pa, ta, ma)[k]
        == spec_tag_pages(pb, tb, mb)[k] by {
        assert(ma[k].model() == metas_model(ma)[k]);
        assert(mb[k].model() == metas_model(mb)[k]);
        lemma_posts_with_model(pa, pb, ta, tb, ma[k].tag@);
        lemma_sites_model(spec_posts_with(pa, ta, ma[k].tag@), spec_posts_with(pb, tb, mb[k].tag@));
        lemma_tag_page_model(
            ma[k].tag@,
            ma[k].description@,
            spec_sites_for(pa, ta, ma[k].tag@),
            spec_sites_for(pb, tb, mb[k].tag@),
        );
    }
    assert(spec_tag_pages(pa, ta, ma) =~= spec_tag_pages(pb, tb, mb));
    lemma_sites_model(pa, pb);
    lemma_table_rows_model(spec_sites(pa), spec_sites(pb));
    assert(spec_overview(spec_sites(pa), banner) == spec_overview(spec_sites(pb), banner)) by {
        if pa.len() > 0 {
            assert(rows_model(spec_sites(pa))[0] == (pa[0].title@, pa[0].url@, pa[0].created));
            assert(rows_model(spec_sites(pb))[0] == (pb[0].title@, pb[0].url@, pb[0].created));
            assert(rows_model(spec_sites(pa))[pa.len() - 1] == (
                pa.last().title@,
                pa.last().url@,
                pa.last().created,
            ));
            assert(rows_model(spec_sites(pb))[pb.len() - 1] == (
                pb.last().title@,
                pb.last().url@,
                pb.last().created,
            ));
        }
    }
    assert(spec_site(pa, ta, ma, banner, base) =~= spec_site(pb, tb, mb, banner, base));
}

} // verus!

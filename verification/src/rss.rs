//! The feed serializer: the most recent published posts projected into a
//! single well-formed RSS document.  Each entry carries the post's title,
//! its absolute link (also its GUID), an RFC-822-style publication date
//! from `created`, and a description holding the raw-mode markdown render
//! of the full body.  All text content passes through the five-entity
//! XML escape, so the document stays well formed whatever the posts hold.

use crate::datetime::spec_rfc822;
use crate::markdown::{html_of, md_parse, render_raw};
use crate::models::Post;
use crate::org::PageKind;
use vstd::prelude::*;
use vstd::string::{StrSliceExecFns, StringExecFns};

verus! {

/// The number of most recent posts a feed carries at most.
pub const FEED_LIMIT: usize = 20;

/// XML escaping of one character: the five reserved characters become
/// entities, every other character stands for itself.
pub open spec fn esc_char(c: char) -> Seq<char> {
    if c == '&' {
        "&amp;"@
    } else if c == '<' {
        "&lt;"@
    } else if c == '>' {
        "&gt;"@
    } else if c == '\'' {
        "&apos;"@
    } else if c == '"' {
        "&quot;"@
    } else {
        seq![c]
    }
}

pub open spec fn spec_escape(s: Seq<char>) -> Seq<char>
    decreases s.len(),
{
    if s.len() == 0 {
        Seq::empty()
    } else {
        spec_escape(s.drop_last()) + esc_char(s.last())
    }
}

/// Escaped text cannot break out of the element that holds it: no angle
/// bracket and no quote survives the escape, so the document's structure
/// is decided by the serializer's own markup alone.
pub proof fn lemma_escape_no_breakout(s: Seq<char>)
    ensures
        forall|i: int|
            0 <= i < spec_escape(s).len() ==> (#[trigger] spec_escape(s)[i]) != '<' && spec_escape(
                s,
            )[i] != '>' && spec_escape(s)[i] != '"' && spec_escape(s)[i] != '\'',
    decreases s.len(),
{
    reveal_strlit("&amp;");
    reveal_strlit("&lt;");
    reveal_strlit("&gt;");
    reveal_strlit("&apos;");
    reveal_strlit("&quot;");
    if s.len() > 0 {
        lemma_escape_no_breakout(s.drop_last());
        let head = spec_escape(s.drop_last());
        let tail = esc_char(s.last());
        assert forall|i: int| 0 <= i < tail.len() implies tail[i] != '<' && tail[i] != '>'
            && tail[i] != '"' && tail[i] != '\'' by {
            if s.last() != '&' && s.last() != '<' && s.last() != '>' && s.last() != '\''
                && s.last() != '"' {
                assert(tail == seq![s.last()]);
            }
        }
        assert forall|i: int| 0 <= i < spec_escape(s).len() implies (#[trigger] spec_escape(
            s,
        )[i]) != '<' && spec_escape(s)[i] != '>' && spec_escape(s)[i] != '"' && spec_escape(s)[i]
            != '\'' by {
            assert(spec_escape(s) == head + tail);
            if i < head.len() {
                assert(spec_escape(s)[i] == head[i]);
            } else {
                assert(spec_escape(s)[i] == tail[i - head.len()]);
            }
        }
    }
}

#[verifier::loop_isolation(false)]
pub fn xml_escape(s: &str) -> (r: String)
    ensures
        r@ == spec_escape(s@),
{
    let n = s.unicode_len();
    let mut out = String::new();
    let mut i: usize = 0;
    while i < n
        invariant
            i <= n,
            out@ == spec_escape(s@.take(i as int)),
        decreases n - i,
    {
        let c = s.get_char(i);
        if c == '&' {
            out.append("&amp;");
        } else if c == '<' {
            out.append("&lt;");
        } else if c == '>' {
            out.append("&gt;");
        } else if c == '\'' {
            out.append("&apos;");
        } else if c == '"' {
            out.append("&quot;");
        } else {
            out.append(s.substring_char(i, i + 1));
        }
        proof {
            assert(s@.take(i as int + 1).drop_last() =~= s@.take(i as int));
            assert(s@.take(i as int + 1).last() == s@[i as int]);
            assert(s@.subrange(i as int, i as int + 1) =~= seq![s@[i as int]]);
            assert(out@ =~= spec_escape(s@.take(i as int + 1)));
        }
        i += 1;
    }
    proof {
        assert(s@.take(n as int) =~= s@);
    }
    out
}

/// The absolute link of a post's page: the site base followed by the
/// post's site-relative URL.
pub open spec fn spec_feed_link(slug: Seq<char>, base: Seq<char>) -> Seq<char> {
    base + PageKind::Post.spec_url_of(slug)
}

/// One feed entry.
pub open spec fn spec_item(p: Post, base: Seq<char>) -> Seq<char> {
    "<item><title>"@ + spec_escape(p.title@) + "</title><link>"@ + spec_escape(
        spec_feed_link(p.url@, base),
    ) + "</link><guid>"@ + spec_escape(spec_feed_link(p.url@, base)) + "</guid><pubDate>"@
        + spec_escape(spec_rfc822(p.created)) + "</pubDate><description>"@ + spec_escape(
        html_of(md_parse(p.content@)),
    ) + "</description></item>"@
}

pub open spec fn spec_items(posts: Seq<Post>, base: Seq<char>) -> Seq<char>
    decreases posts.len(),
{
    if posts.len() == 0 {
        Seq::empty()
    } else {
        spec_items(posts.drop_last(), base) + spec_item(posts.last(), base)
    }
}

/// The whole feed document over the selected posts: XML declaration, the
/// versioned root element, and one channel with the site's fixed title
/// and description, its link, and one entry per post.
pub open spec fn spec_feed(posts: Seq<Post>, base: Seq<char>) -> Seq<char> {
    let sel = if posts.len() <= FEED_LIMIT {
        posts
    } else {
        posts.take(FEED_LIMIT as int)
    };
    "<?xml version=\"1.0\" encoding=\"UTF-8\" ?><rss version=\"2.0\"><channel><title>"@
        + spec_escape("Jonas' personal website"@) + "</title><link>"@ + spec_escape(base)
        + "</link><description>"@ + spec_escape("Here I'll post stuff from time to time."@)
        + "</description>"@ + spec_items(sel, base) + "</channel></rss> "@
}

fn feed_link(slug: &str, base: &str) -> (r: String)
    ensures
        r@ == spec_feed_link(slug@, base@),
{
    let mut s = String::from_str(base);
    s.append(PageKind::Post.url_of(slug).as_str());
    s
}

fn feed_item(p: &Post, base: &str) -> (r: String)
    requires
        p.created.wf(),
    ensures
        r@ == spec_item(*p, base@),
{
    let link = feed_link(p.url.as_str(), base);
    let mut s = String::from_str("<item><title>");
    s.append(xml_escape(p.title.as_str()).as_str());
    s.append("</title><link>");
    s.append(xml_escape(link.as_str()).as_str());
    s.append("</link><guid>");
    s.append(xml_escape(link.as_str()).as_str());
    s.append("</guid><pubDate>");
    s.append(xml_escape(p.created.format_rfc822().as_str()).as_str());
    s.append("</pubDate><description>");
    s.append(xml_escape(render_raw(p.content.as_str()).as_str()).as_str());
    s.append("</description></item>");
    proof {
        assert(s@ =~= spec_item(*p, base@));
    }
    s
}

/// Build the feed over the published posts, given newest first: at most
/// [`FEED_LIMIT`] entries, most recent first.
#[verifier::loop_isolation(false)]
pub fn create_feed(published: &Vec<Post>, base: &str) -> (r: String)
    requires
        forall|i: int| 0 <= i < published@.len() ==> (#[trigger] published@[i]).created.wf(),
    ensures
        r@ == spec_feed(published@, base@),
{
    let count = if published.len() <= FEED_LIMIT {
        published.len()
    } else {
        FEED_LIMIT
    };
    let mut items = String::new();
    let mut i: usize = 0;
    while i < count
        invariant
            i <= count,
            items@ == spec_items(published@.take(i as int), base@),
        decreases count - i,
    {
        items.append(feed_item(&published[i], base).as_str());
        proof {
            assert(published@.take(i as int + 1).drop_last() =~= published@.take(i as int));
            assert(published@.take(i as int + 1).last() == published@[i as int]);
        }
        i += 1;
    }
    let mut s = String::from_str(
        "<?xml version=\"1.0\" encoding=\"UTF-8\" ?><rss version=\"2.0\"><channel><title>",
    );
    s.append(xml_escape("Jonas' personal website").as_str());
    s.append("</title><link>");
    s.append(xml_escape(base).as_str());
    s.append("</link><description>");
    s.append(xml_escape("Here I'll post stuff from time to time.").as_str());
    s.append("</description>");
    s.append(items.as_str());
    s.append("</channel></rss> ");
    proof {
        if published@.len() <= FEED_LIMIT {
            assert(published@.take(count as int) =~= published@);
        }
        assert(s@ =~= spec_feed(published@, base@));
    }
    s
}

} // verus!

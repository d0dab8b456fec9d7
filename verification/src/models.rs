//! The snapshot records the rendering core works on: posts, tag
//! associations and per-tag metadata.  The storage collaborator owns these
//! records; the core only reads a consistent snapshot passed in per render
//! pass, so the types here carry plain values only.

use crate::datetime::DateTime;
use crate::org::{Linkable, PageKind};
use vstd::prelude::*;
use vstd::string::StringExecFns;

verus! {

/// One versioned blog-post record.  `published` absent means the post is
/// excluded from all public output.
#[derive(Clone, Debug)]
pub struct Post {
    pub url: String,
    pub title: String,
    pub version: String,
    pub created: DateTime,
    pub updated: DateTime,
    pub content: String,
    pub published: Option<DateTime>,
}

impl Post {
    pub open spec fn wf(self) -> bool {
        &&& self.created.wf()
        &&& self.updated.wf()
        &&& (self.published matches Some(p) ==> p.wf())
    }

    pub open spec fn is_published(self) -> bool {
        self.published is Some
    }
}

/// A (tag-name, post-slug) association.
#[derive(Clone, Debug)]
pub struct Tag {
    pub tag: String,
    pub url: String,
}

/// Per-tag metadata: whether the tag is displayed, and the markdown
/// description rendered at the head of its page.
#[derive(Clone, Debug)]
pub struct TagMeta {
    pub tag: String,
    pub display: bool,
    pub description: String,
}

/// The value of a post record: what its strings hold, not how they are
/// held.  Two snapshots with the same values render identically.
pub ghost struct PostV {
    pub url: Seq<char>,
    pub title: Seq<char>,
    pub version: Seq<char>,
    pub created: DateTime,
    pub updated: DateTime,
    pub content: Seq<char>,
    pub published: Option<DateTime>,
}

pub ghost struct TagV {
    pub tag: Seq<char>,
    pub url: Seq<char>,
}

pub ghost struct TagMetaV {
    pub tag: Seq<char>,
    pub display: bool,
    pub description: Seq<char>,
}

impl Post {
    pub open spec fn model(self) -> PostV {
        PostV {
            url: self.url@,
            title: self.title@,
            version: self.version@,
            created: self.created,
            updated: self.updated,
            content: self.content@,
            published: self.published,
        }
    }
}

impl Tag {
    pub open spec fn model(self) -> TagV {
        TagV { tag: self.tag@, url: self.url@ }
    }
}

impl TagMeta {
    pub open spec fn model(self) -> TagMetaV {
        TagMetaV { tag: self.tag@, display: self.display, description: self.description@ }
    }
}

pub open spec fn posts_model(s: Seq<Post>) -> Seq<PostV> {
    s.map_values(|p: Post| p.model())
}

pub open spec fn tags_model(s: Seq<Tag>) -> Seq<TagV> {
    s.map_values(|t: Tag| t.model())
}

pub open spec fn metas_model(s: Seq<TagMeta>) -> Seq<TagMetaV> {
    s.map_values(|m: TagMeta| m.model())
}

/// What `str::to_uppercase` returns: the Unicode uppercase mapping of a
/// character sequence, a function of the characters alone.
pub uninterp spec fn upper_of(s: Seq<char>) -> Seq<char>;

/// Relies on `str::to_uppercase`: uppercases every character by the Unicode
/// mapping; the empty string stays empty.
#[verifier::external_body]
pub fn to_upper(s: &str) -> (r: String)
    ensures
        r@ == upper_of(s@),
        s@.len() == 0 ==> r@.len() == 0,
{
    s.to_uppercase()
}

impl Linkable for Post {
    open spec fn spec_link(&self) -> Seq<char> {
        "<a href=\""@ + PageKind::Post.spec_url_of(self.url@) + "\">"@ + self.title@ + "</a>"@
    }

    fn link(&self) -> (r: String) {
        let mut s = String::from_str("<a href=\"");
        s.append(PageKind::Post.url_of(self.url.as_str()).as_str());
        s.append("\">");
        s.append(self.title.as_str());
        s.append("</a>");
        proof {
            assert(s@ =~= self.spec_link());
        }
        s
    }
}

impl Linkable for Tag {
    open spec fn spec_link(&self) -> Seq<char> {
        "<a href=\""@ + PageKind::Tag.spec_url_of(self.tag@) + "\">"@ + upper_of(self.tag@)
            + "</a> "@
    }

    fn link(&self) -> (r: String) {
        let mut s = String::from_str("<a href=\"");
        s.append(PageKind::Tag.url_of(self.tag.as_str()).as_str());
        s.append("\">");
        s.append(to_upper(self.tag.as_str()).as_str());
        s.append("</a> ");
        proof {
            assert(s@ =~= self.spec_link());
        }
        s
    }
}

} // verus!

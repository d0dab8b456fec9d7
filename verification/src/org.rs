//! Page addressing: the closed set of page kinds, and the pure naming
//! functions from a logical entity (a post's slug, a tag name) to its
//! canonical URL, output path and output directory.  The mapping is
//! injective over (kind, key): two distinct entities never share a page.

use vstd::prelude::*;
use vstd::string::StringExecFns;

verus! {

#[derive(Clone, Copy, PartialEq, Eq, Structural, Debug)]
pub enum PageKind {
    Post,
    Tag,
}

impl PageKind {
    pub open spec fn spec_name(self) -> Seq<char> {
        match self {
            PageKind::Post => "post"@,
            PageKind::Tag => "tag"@,
        }
    }

    /// The site-relative URL of this kind's page for `item`.
    pub open spec fn spec_url_of(self, item: Seq<char>) -> Seq<char> {
        "/"@ + self.spec_name() + "/"@ + item + ".html"@
    }

    /// The output-tree path of this kind's page for `item`.
    pub open spec fn spec_path_of(self, item: Seq<char>) -> Seq<char> {
        "html"@ + self.spec_url_of(item)
    }

    pub open spec fn spec_dir(self) -> Seq<char> {
        "html/"@ + self.spec_name() + "/"@
    }

    pub fn name(&self) -> (r: &'static str)
        ensures
            r@ == self.spec_name(),
    {
        match self {
            PageKind::Post => "post",
            PageKind::Tag => "tag",
        }
    }

    pub fn url_of(&self, item: &str) -> (r: String)
        ensures
            r@ == self.spec_url_of(item@),
    {
        let mut s = String::new();
        s.append("/");
        s.append(self.name());
        s.append("/");
        s.append(item);
        s.append(".html");
        proof {
            assert(s@ =~= self.spec_url_of(item@));
        }
        s
    }

    pub fn path_of(&self, item: &str) -> (r: String)
        ensures
            r@ == self.spec_path_of(item@),
    {
        let mut s = String::from_str("html");
        s.append(self.url_of(item).as_str());
        s
    }

    pub fn dir(&self) -> (r: String)
        ensures
            r@ == self.spec_dir(),
    {
        let mut s = String::from_str("html/");
        s.append(self.name());
        s.append("/");
        proof {
            assert(s@ =~= self.spec_dir());
        }
        s
    }

    pub fn kinds() -> (r: Vec<PageKind>)
        ensures
            r@ =~= seq![PageKind::Post, PageKind::Tag],
    {
        let mut v = Vec::new();
        v.push(PageKind::Post);
        v.push(PageKind::Tag);
        v
    }
}

/// Page addressing is injective: two pages of the same or different kinds
/// share a URL only if they are the same kind addressing the same key.
pub proof fn lemma_url_injective(k1: PageKind, s1: Seq<char>, k2: PageKind, s2: Seq<char>)
    requires
        k1.spec_url_of(s1) == k2.spec_url_of(s2),
    ensures
        k1 == k2,
        s1 == s2,
{
    reveal_strlit("/");
    reveal_strlit("post");
    reveal_strlit("tag");
    reveal_strlit(".html");
    let u1 = k1.spec_url_of(s1);
    let u2 = k2.spec_url_of(s2);
    assert(u1[1] == k1.spec_name()[0]);
    assert(u2[1] == k2.spec_name()[0]);
    assert(k1 == k2);
    let n = k1.spec_name().len();
    assert(u1.len() == 2 + n + s1.len() + 5);
    assert(u2.len() == 2 + n + s2.len() + 5);
    assert forall|i: int| 0 <= i < s1.len() implies s1[i] == s2[i] by {
        assert(u1[2 + n + i] == s1[i]);
        assert(u2[2 + n + i] == s2[i]);
    }
    assert(s1 =~= s2);
}

/// The same, for output paths: page addressing is a bijection onto its
/// image, so no two entities ever overwrite each other's file.
pub proof fn lemma_path_injective(k1: PageKind, s1: Seq<char>, k2: PageKind, s2: Seq<char>)
    requires
        k1.spec_path_of(s1) == k2.spec_path_of(s2),
    ensures
        k1 == k2,
        s1 == s2,
{
    let p = "html"@;
    let a = k1.spec_url_of(s1);
    let b = k2.spec_url_of(s2);
    assert(p + a == p + b);
    assert(a.len() == b.len());
    assert forall|i: int| 0 <= i < a.len() implies a[i] == b[i] by {
        assert((p + a)[p.len() + i] == a[i]);
        assert((p + b)[p.len() + i] == b[i]);
    }
    assert(a =~= b);
    lemma_url_injective(k1, s1, k2, s2);
}

/// An entity that owns a rendered hyperlink on the site.
pub trait Linkable {
    spec fn spec_link(&self) -> Seq<char>;

    fn link(&self) -> (r: String)
        ensures
            r@ == self.spec_link(),
    ;
}

} // verus!

//! The pure core of the edit workflow.  An edited post travels as one text
//! file: a metadata block and a markdown body separated by `---` fences.
//! Splitting that file, rebuilding it, and deciding how an edited post
//! merges with the stored record are verified here; reading the file,
//! parsing the metadata block and talking to the store stay outside.

use crate::datetime::DateTime;
use crate::models::Tag;
use vstd::prelude::*;
use vstd::string::{StrSliceExecFns, StringExecFns};

verus! {

/// The metadata block of an edited post file.
#[derive(Clone, Debug)]
pub struct PostMeta {
    pub title: String,
    pub version: String,
    pub published: bool,
    pub tags: Vec<String>,
}

/// A post as the edit workflow sees it: the metadata block and the
/// markdown body of one edited file.
#[derive(Clone, Debug)]
pub struct Post {
    pub meta: PostMeta,
    pub content: String,
}

/// A `---` fence starts at position `i` of `s`.
pub open spec fn is_sep_at(s: Seq<char>, i: int) -> bool {
    0 <= i && i + 3 <= s.len() && s.subrange(i, i + 3) == "---"@
}

/// Split an edited post file at its first two `---` fences: the text
/// between them is the metadata block, the text after the second is the
/// body.  With only one fence the body is empty; with none the file is
/// rejected.  Fences are found left to right without overlap, and any
/// further `---` stays inside the body untouched.
pub fn split_front_matter(s: &str) -> (r: Option<(String, String)>)
    ensures
        (r is Some) <==> (exists|i: int| is_sep_at(s@, i)),
        r matches Some(mb) ==> exists|p1: int|
            {
                &&& is_sep_at(s@, p1)
                &&& (forall|q: int| 0 <= q < p1 ==> !is_sep_at(s@, q))
                &&& {
                    ||| (exists|p2: int|
                        {
                            &&& p1 + 3 <= p2
                            &&& is_sep_at(s@, p2)
                            &&& (forall|q: int| p1 + 3 <= q < p2 ==> !is_sep_at(s@, q))
                            &&& mb.0@ == s@.subrange(p1 + 3, p2)
                            &&& mb.1@ == s@.subrange(p2 + 3, s@.len() as int)
                        })
                    ||| ((forall|q: int| p1 + 3 <= q ==> !is_sep_at(s@, q)) && mb.0@ == s@.subrange(
                        p1 + 3,
                        s@.len() as int,
                    ) && mb.1@ == ""@)
                }
            },
{
    proof {
        reveal_strlit("---");
        reveal_strlit("");
    }
    let n = s.unicode_len();
    let p1 = match find_sep(s, 0) {
        Some(p) => p,
        None => {
            return None;
        },
    };
    let (meta, body) = match find_sep(s, p1 + 3) {
        Some(p2) => (
            String::from_str(s.substring_char(p1 + 3, p2)),
            String::from_str(s.substring_char(p2 + 3, n)),
        ),
        None => (String::from_str(s.substring_char(p1 + 3, n)), String::new()),
    };
    Some((meta, body))
}

/// The least fence position at or after `from`, if any.
#[verifier::loop_isolation(false)]
fn find_sep(s: &str, from: usize) -> (r: Option<usize>)
    ensures
        r matches Some(p) ==> {
            &&& from <= p
            &&& is_sep_at(s@, p as int)
            &&& (forall|q: int| from <= q < p ==> !is_sep_at(s@, q))
        },
        r is None ==> forall|q: int| from <= q ==> !is_sep_at(s@, q),
{
    proof {
        reveal_strlit("---");
    }
    let n = s.unicode_len();
    if n < 3 || from > n - 3 {
        return None;
    }
    let mut i = from;
    while i <= n - 3
        invariant
            from <= i,
            i <= n - 2,
            forall|q: int| from <= q < i ==> !is_sep_at(s@, q),
        decreases n - i,
    {
        let c0 = s.get_char(i);
        let c1 = s.get_char(i + 1);
        let c2 = s.get_char(i + 2);
        if c0 == '-' && c1 == '-' && c2 == '-' {
            proof {
                assert(s@.subrange(i as int, i as int + 3) =~= "---"@);
            }
            return Some(i);
        }
        proof {
            assert(!is_sep_at(s@, i as int)) by {
                if is_sep_at(s@, i as int) {
                    assert(s@.subrange(i as int, i as int + 3)[0] == '-');
                    assert(s@.subrange(i as int, i as int + 3)[1] == '-');
                    assert(s@.subrange(i as int, i as int + 3)[2] == '-');
                }
            }
        }
        i += 1;
    }
    None
}

/// Rebuild the edited post file: metadata block, one fence, body.
pub fn join_front_matter(meta: &str, body: &str) -> (r: String)
    ensures
        r@ == meta@ + "---"@ + body@,
{
    let mut s = String::from_str(meta);
    s.append("---");
    s.append(body);
    s
}

/// How an edited post merges with the stored record: the slug and the
/// edited title, version and body are taken as given; `created` survives
/// from the stored record (a new post is created now); a post that stays
/// published keeps its original publication time, one published just now
/// is published now, and one unpublished loses its timestamp; `updated`
/// is always now.
pub fn merge_post(
    edited: &Post,
    orig: Option<&crate::models::Post>,
    url: &str,
    now: DateTime,
) -> (p: crate::models::Post)
    ensures
        p.url@ == url@,
        p.title@ == edited.meta.title@,
        p.version@ == edited.meta.version@,
        p.content@ == edited.content@,
        p.updated == now,
        p.created == (match orig {
            Some(o) => o.created,
            None => now,
        }),
        p.published == (if edited.meta.published {
            Some(
                match orig {
                    Some(o) => match o.published {
                        Some(t) => t,
                        None => now,
                    },
                    None => now,
                },
            )
        } else {
            None
        }),
{
    let created = match orig {
        Some(o) => o.created,
        None => now,
    };
    let kept = match orig {
        Some(o) => match o.published {
            Some(t) => t,
            None => now,
        },
        None => now,
    };
    let published = if edited.meta.published {
        Some(kept)
    } else {
        None
    };
    crate::models::Post {
        url: String::from_str(url),
        title: edited.meta.title.clone(),
        version: edited.meta.version.clone(),
        created,
        updated: now,
        content: edited.content.clone(),
        published,
    }
}

/// The tag associations an edited post carries: one record per tag name,
/// all pointing at the post's slug.
pub fn tags_for(tags: &Vec<String>, url: &str) -> (r: Vec<Tag>)
    ensures
        r@.len() == tags@.len(),
        forall|i: int|
            0 <= i < r@.len() ==> r@[i].tag@ == tags@[i]@ && r@[i].url@ == url@,
{
    let mut out: Vec<Tag> = Vec::new();
    let mut i: usize = 0;
    while i < tags.len()
        invariant
            i <= tags@.len(),
            out@.len() == i,
            forall|j: int| 0 <= j < i ==> out@[j].tag@ == tags@[j]@ && out@[j].url@ == url@,
        decreases tags@.len() - i,
    {
        out.push(Tag { tag: tags[i].clone(), url: String::from_str(url) });
        i += 1;
    }
    out
}

} // verus!

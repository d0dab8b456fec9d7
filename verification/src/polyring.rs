//! The webring membership: given the member directory fetched by the
//! surrounding program and this site's own URL, find the ring neighbours
//! (wrapping at both ends) and compose the promotional banner fragment
//! spliced into the overview page.  A site that is not in the directory
//! gets no banner; the caller omits the section rather than failing.

use crate::text::{dec_rep, u64_to_dec};
use vstd::prelude::*;
use vstd::string::StringExecFns;

verus! {

/// One member of the ring's directory.
#[derive(Clone, Debug)]
pub struct Member {
    pub title: String,
    pub url: String,
    pub feed: String,
}

/// The ring neighbours of the first directory entry whose URL is
/// `own_url`: the entry before it and the entry after it, wrapping from
/// the first entry to the last and from the last to the first.
pub fn prev_next(members: &Vec<Member>, own_url: &String) -> (r: Option<(String, String)>)
    ensures
        (r is Some) <==> (exists|i: int|
            0 <= i < members@.len() && members@[i].url@ == own_url@),
        r matches Some(pn) ==> exists|i: int|
            {
                &&& 0 <= i < members@.len()
                &&& members@[i].url@ == own_url@
                &&& (forall|j: int| 0 <= j < i ==> members@[j].url@ != own_url@)
                &&& pn.0@ == (if i == 0 {
                    members@[members@.len() - 1]
                } else {
                    members@[i - 1]
                }).url@
                &&& pn.1@ == (if i + 1 == members@.len() {
                    members@[0]
                } else {
                    members@[i + 1]
                }).url@
            },
{
    let n = members.len();
    let mut i: usize = 0;
    while i < n
        invariant
            i <= n,
            n == members@.len(),
            forall|j: int| 0 <= j < i ==> members@[j].url@ != own_url@,
        decreases n - i,
    {
        if members[i].url == *own_url {
            let pi: usize = if i == 0 {
                n - 1
            } else {
                i - 1
            };
            let ni: usize = if i + 1 == n {
                0
            } else {
                i + 1
            };
            let prev = members[pi].url.clone();
            let next = members[ni].url.clone();
            return Some((prev, next));
        }
        i += 1;
    }
    None
}

/// The banner fragment, with the neighbour links and the member count
/// spliced into its fixed skeleton.
pub open spec fn spec_banner(prev: Seq<char>, next: Seq<char>, count: nat) -> Seq<char> {
    "<hr><div class=\"polyring\">Part of a webring of "@ + dec_rep(count)
        + " sites: <a href=\""@ + prev + "\">previous</a> | <a href=\""@ + next
        + "\">next</a></div>"@
}

pub fn banner_html(prev: &str, next: &str, count: u64) -> (r: String)
    ensures
        r@ == spec_banner(prev@, next@, count as nat),
{
    let mut s = String::from_str("<hr><div class=\"polyring\">Part of a webring of ");
    s.append(u64_to_dec(count).as_str());
    s.append(" sites: <a href=\"");
    s.append(prev);
    s.append("\">previous</a> | <a href=\"");
    s.append(next);
    s.append("\">next</a></div>");
    proof {
        assert(s@ =~= spec_banner(prev@, next@, count as nat));
    }
    s
}

} // verus!

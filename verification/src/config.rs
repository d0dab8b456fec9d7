//! The site's own configuration: its public URL (also its identity in the
//! webring's member directory) and the remote shell target the rendered
//! tree is transferred to.  The surrounding program reads the value from
//! disk and hands it in; the core never touches the filesystem.

use vstd::prelude::*;

verus! {

#[derive(Clone, Debug)]
pub struct Config {
    pub url: String,
    pub ssh_url: String,
}

} // verus!

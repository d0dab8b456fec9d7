//! A personal static-site generator's rendering core: markdown posts with
//! syntax-highlighted code blocks become cross-linked HTML pages and an
//! RSS feed.  Every page is a pure function of the post/tag snapshot it is
//! given; the outside tokenizer and highlighter are reached through a few
//! narrow trusted declarations, and everything around them is verified.

pub mod code;
pub mod config;
pub mod datetime;
pub mod editing;
pub mod markdown;
pub mod models;
pub mod org;
pub mod polyring;
pub mod render;
pub mod rss;
pub mod text;

use vstd::prelude::*;

verus! {

/// The recoverable failures of the rendering core.  An unknown language
/// tag falls back to unhighlighted code; a tag page requested for a tag
/// without a metadata row fails that one page only.
#[derive(Clone, Copy, PartialEq, Eq, Structural, Debug)]
pub enum RenderError {
    UnknownLanguage,
    MissingCrossReference,
}

impl RenderError {
    pub fn message(&self) -> (r: &'static str)
        ensures
            *self is UnknownLanguage ==> r@ == "no grammar matches the language tag"@,
            *self is MissingCrossReference ==> r@ == "no metadata row for the requested tag"@,
    {
        match self {
            RenderError::UnknownLanguage => "no grammar matches the language tag",
            RenderError::MissingCrossReference => "no metadata row for the requested tag",
        }
    }
}

} // verus!

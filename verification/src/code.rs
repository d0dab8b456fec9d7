//! Syntax highlighting: a code fragment and a language tag become inline
//! styled HTML spans, with no dependency on an external stylesheet
//! background.  The grammar table and theme are the outside highlighter's
//! bundled defaults, loaded once into an explicit [`Highlighter`] value
//! and passed to whoever renders.  An unknown tag is a recoverable error:
//! callers fall back to emitting the code as plain escaped text.

use crate::RenderError;
use vstd::prelude::*;

verus! {

#[verifier::external_type_specification]
#[verifier::external_body]
pub struct ExSyntaxSet(syntect::parsing::SyntaxSet);

#[verifier::external_type_specification]
#[verifier::external_body]
pub struct ExTheme(syntect::highlighting::Theme);

/// The bundled grammar table and colour theme.  The private fields keep
/// every value of this type identical: only [`Highlighter::new`] builds
/// one, always from the same bundled defaults.
pub struct Highlighter {
    syntaxes: syntect::parsing::SyntaxSet,
    theme: syntect::highlighting::Theme,
}

/// Whether the bundled grammar table has a grammar of exactly this
/// display name.
pub uninterp spec fn known_lang(lang: Seq<char>) -> bool;

/// What highlighting a code fragment under a known language tag yields:
/// inline styled HTML, a function of the fragment and the tag alone
/// (the grammar table and theme are fixed bundled defaults).
pub uninterp spec fn hl_block(code: Seq<char>, lang: Seq<char>) -> Seq<char>;

/// Relies on syntect's `SyntaxSet::load_defaults_newlines`: the bundled
/// grammar table, in the newline-preserving flavour required for
/// line-by-line highlighting.
#[verifier::external_body]
fn load_syntaxes() -> syntect::parsing::SyntaxSet {
    syntect::parsing::SyntaxSet::load_defaults_newlines()
}

/// Relies on syntect's `ThemeSet::load_defaults`: the bundled theme list,
/// which always contains the "base16-ocean.dark" theme used here.
#[verifier::external_body]
fn load_theme() -> syntect::highlighting::Theme {
    let mut themes = syntect::highlighting::ThemeSet::load_defaults();
    themes.themes.remove("base16-ocean.dark").expect("bundled theme list")
}

impl Highlighter {
    pub fn new() -> Highlighter {
        Highlighter { syntaxes: load_syntaxes(), theme: load_theme() }
    }

    /// Relies on syntect's `SyntaxSet::find_syntax_by_name`: an exact
    /// lookup of the tag among the table's grammar display names.
    #[verifier::external_body]
    fn knows(&self, lang: &str) -> (r: bool)
        ensures
            r == known_lang(lang@),
    {
        self.syntaxes.find_syntax_by_name(lang).is_some()
    }

    /// Relies on syntect's `HighlightLines` driven line by line over
    /// `LinesWithEndings`, serialized by `styled_line_to_highlighted_html`
    /// with `IncludeBackground::No`.  One tokenizer state is threaded
    /// across all lines of the fragment, so context opened on one line
    /// (a multi-line string or comment) carries into the next; the states
    /// and styled ranges borrow from the table and cannot cross a
    /// verified boundary, which keeps the whole pass in this one body.
    /// The output is deterministic in (code, lang), and non-empty for a
    /// non-empty fragment: the first styled range already emits a span.
    #[verifier::external_body]
    fn run(&self, code: &str, lang: &str) -> (r: String)
        requires
            known_lang(lang@),
        ensures
            r@ == hl_block(code@, lang@),
            code@.len() > 0 ==> r@.len() > 0,
    {
        let syntax = self.syntaxes.find_syntax_by_name(lang).expect("known language tag");
        let mut lines = syntect::easy::HighlightLines::new(syntax, &self.theme);
        let mut buf = String::new();
        for line in syntect::util::LinesWithEndings::from(code) {
            let ranges = lines.highlight(line, &self.syntaxes);
            buf += &syntect::html::styled_line_to_highlighted_html(
                &ranges,
                syntect::html::IncludeBackground::No,
            );
        }
        buf
    }
}

/// Highlight a code fragment as `lang`.  Succeeds exactly on the language
/// tags the grammar table knows, and then returns non-empty HTML for
/// non-empty code; an unknown tag is the recoverable `UnknownLanguage`.
pub fn highlight(hl: &Highlighter, code: &str, lang: &str) -> (r: Result<String, RenderError>)
    ensures
        (r is Ok) <==> known_lang(lang@),
        r matches Ok(h) ==> h@ == hl_block(code@, lang@) && (code@.len() > 0 ==> h@.len() > 0),
        r matches Err(e) ==> e is UnknownLanguage,
{
    if hl.knows(lang) {
        Ok(hl.run(code, lang))
    } else {
        Err(RenderError::UnknownLanguage)
    }
}

} // verus!

//! The markdown renderer: a document is tokenized by the outside parser
//! into a structural event sequence; a verified state machine walks that
//! sequence, wraps each code block in its container and substitutes the
//! highlighter's output for the text of fenced blocks with a known
//! language; the rewritten sequence is serialized back to HTML by the
//! outside serializer.  At most one code-block language is tracked at a
//! time (fenced blocks do not nest), and it is cleared exactly at block
//! close, so several blocks in one document stay independent.

use crate::code::{highlight, hl_block, known_lang, Highlighter};
use vstd::prelude::*;
use vstd::string::StringExecFns;

verus! {

/// The outside tokenizer's event type, kept opaque.  The library stores
/// fully owned events so that no borrow crosses a verified boundary.
#[verifier::external_type_specification]
#[verifier::external_body]
pub struct ExEvent<'a>(pulldown_cmark::Event<'a>);

/// One structural event of a markdown document, as the rewriting pass
/// sees it: the three event shapes the code-block machine decides on,
/// injected HTML, and an opaque passthrough for every other event.
pub enum MdEvent {
    CodeStart(Option<String>),
    CodeEnd,
    Text(String),
    Html(String),
    Other(pulldown_cmark::Event<'static>),
}

/// The mathematical model of an [`MdEvent`]: string payloads become
/// character sequences, passthrough events stay opaque.
pub ghost enum EvModel {
    CodeStart(Option<Seq<char>>),
    CodeEnd,
    Text(Seq<char>),
    Html(Seq<char>),
    Other(pulldown_cmark::Event<'static>),
}

impl MdEvent {
    pub open spec fn model(self) -> EvModel {
        match self {
            MdEvent::CodeStart(Some(l)) => EvModel::CodeStart(Some(l@)),
            MdEvent::CodeStart(None) => EvModel::CodeStart(None),
            MdEvent::CodeEnd => EvModel::CodeEnd,
            MdEvent::Text(t) => EvModel::Text(t@),
            MdEvent::Html(h) => EvModel::Html(h@),
            MdEvent::Other(e) => EvModel::Other(e),
        }
    }
}

pub open spec fn models(evs: Seq<MdEvent>) -> Seq<EvModel> {
    evs.map_values(|e: MdEvent| e.model())
}

/// What the outside tokenizer yields for a document, at the level of the
/// library's event model: a function of the text alone.
pub uninterp spec fn md_parse(s: Seq<char>) -> Seq<EvModel>;

/// What the outside serializer emits for an event sequence: a function of
/// the events alone.
pub uninterp spec fn html_of(evs: Seq<EvModel>) -> Seq<char>;

/// Relies on `pulldown_cmark::Parser::new`: tokenizes a markdown document
/// into a deterministic event sequence.  Code-block delimiters and text
/// nodes are told apart here, moving their payloads into the library's
/// event type; every other event passes through owned and untouched.
#[verifier::external_body]
pub fn parse_markdown(s: &str) -> (r: Vec<MdEvent>)
    ensures
        models(r@) == md_parse(s@),
{
    let mut out = Vec::new();
    for e in pulldown_cmark::Parser::new(s) {
        out.push(match e.into_static() {
            pulldown_cmark::Event::Start(pulldown_cmark::Tag::CodeBlock(
                pulldown_cmark::CodeBlockKind::Fenced(l),
            )) => MdEvent::CodeStart(Some(l.into_string())),
            pulldown_cmark::Event::Start(pulldown_cmark::Tag::CodeBlock(
                pulldown_cmark::CodeBlockKind::Indented,
            )) => MdEvent::CodeStart(None),
            pulldown_cmark::Event::End(pulldown_cmark::TagEnd::CodeBlock) => MdEvent::CodeEnd,
            pulldown_cmark::Event::Text(t) => MdEvent::Text(t.into_string()),
            other => MdEvent::Other(other),
        });
    }
    out
}

/// Relies on `pulldown_cmark::html::push_html`: serializes the event
/// sequence to HTML by the standard markdown rules.  The library's event
/// shapes are moved back into the tokenizer's own; injected HTML rides an
/// HTML node, so it is spliced in verbatim.
#[verifier::external_body]
pub fn events_to_html(evs: Vec<MdEvent>) -> (r: String)
    ensures
        r@ == html_of(models(evs@)),
{
    let it = evs.into_iter().map(|m| match m {
        MdEvent::CodeStart(Some(l)) => pulldown_cmark::Event::Start(pulldown_cmark::Tag::CodeBlock(
            pulldown_cmark::CodeBlockKind::Fenced(l.into()),
        )),
        MdEvent::CodeStart(None) => pulldown_cmark::Event::Start(pulldown_cmark::Tag::CodeBlock(
            pulldown_cmark::CodeBlockKind::Indented,
        )),
        MdEvent::CodeEnd => pulldown_cmark::Event::End(pulldown_cmark::TagEnd::CodeBlock),
        MdEvent::Text(t) => pulldown_cmark::Event::Text(t.into()),
        MdEvent::Html(h) => pulldown_cmark::Event::Html(h.into()),
        MdEvent::Other(e) => e,
    });
    let mut out = String::new();
    pulldown_cmark::html::push_html(&mut out, it);
    out
}

/// The tracked state of the rewriting machine: the fence language of the
/// currently open fenced code block, if any.
pub open spec fn step_state(st: Option<Seq<char>>, e: EvModel) -> Option<Seq<char>> {
    match e {
        EvModel::CodeStart(Some(l)) => Some(l),
        EvModel::CodeStart(None) => st,
        EvModel::CodeEnd => None,
        _ => st,
    }
}

/// What one event becomes: code blocks are wrapped in the code container;
/// text inside a fenced block with a known language is replaced by the
/// highlighter's HTML; everything else passes through unchanged.
pub open spec fn step_out(st: Option<Seq<char>>, e: EvModel) -> Seq<EvModel> {
    match e {
        EvModel::CodeStart(_) => seq![EvModel::Html("<div class=\"code\">"@), e],
        EvModel::CodeEnd => seq![e, EvModel::Html("</div>"@)],
        EvModel::Text(t) => match st {
            Some(l) => if known_lang(l) {
                seq![EvModel::Html(hl_block(t, l))]
            } else {
                seq![e]
            },
            None => seq![e],
        },
        _ => seq![e],
    }
}

pub open spec fn spec_rewrite_from(st: Option<Seq<char>>, evs: Seq<EvModel>) -> Seq<EvModel>
    decreases evs.len(),
{
    if evs.len() == 0 {
        Seq::empty()
    } else {
        step_out(st, evs[0]) + spec_rewrite_from(step_state(st, evs[0]), evs.drop_first())
    }
}

/// The whole rewriting pass, started outside any code block.
pub open spec fn spec_rewrite(evs: Seq<EvModel>) -> Seq<EvModel> {
    spec_rewrite_from(None, evs)
}

/// The machine state after a whole sequence has been walked.
pub open spec fn state_after(st: Option<Seq<char>>, evs: Seq<EvModel>) -> Option<Seq<char>>
    decreases evs.len(),
{
    if evs.len() == 0 {
        st
    } else {
        state_after(step_state(st, evs[0]), evs.drop_first())
    }
}

/// Rewriting distributes over concatenation: the second part continues
/// from the state the first part left behind.
pub proof fn lemma_rewrite_append(st: Option<Seq<char>>, a: Seq<EvModel>, b: Seq<EvModel>)
    ensures
        spec_rewrite_from(st, a + b) == spec_rewrite_from(st, a) + spec_rewrite_from(
            state_after(st, a),
            b,
        ),
    decreases a.len(),
{
    if a.len() == 0 {
        assert(a + b =~= b);
        assert(spec_rewrite_from(st, a) + spec_rewrite_from(state_after(st, a), b) =~=
            spec_rewrite_from(st, b));
    } else {
        assert((a + b).drop_first() =~= a.drop_first() + b);
        lemma_rewrite_append(step_state(st, a[0]), a.drop_first(), b);
        assert(step_out(st, a[0]) + (spec_rewrite_from(step_state(st, a[0]), a.drop_first())
            + spec_rewrite_from(state_after(st, a), b)) =~= spec_rewrite_from(st, a)
            + spec_rewrite_from(state_after(st, a), b));
    }
}

/// The exec model of the machine state.
pub open spec fn st_model(st: Option<String>) -> Option<Seq<char>> {
    match st {
        Some(l) => Some(l@),
        None => None,
    }
}

/// Walk an event sequence through the rewriting machine.
pub fn rewrite_events(events: Vec<MdEvent>, hl: &Highlighter) -> (out: Vec<MdEvent>)
    ensures
        models(out@) == spec_rewrite(models(events@)),
{
    let mut evs = events;
    let mut out: Vec<MdEvent> = Vec::new();
    let mut st: Option<String> = None;
    let ghost orig = models(evs@);
    proof {
        assert(models(out@) + spec_rewrite_from(st_model(st), models(evs@)) =~= spec_rewrite(
            orig,
        ));
    }
    while evs.len() > 0
        invariant
            models(out@) + spec_rewrite_from(st_model(st), models(evs@)) == spec_rewrite(orig),
        decreases evs.len(),
    {
        let ghost pre_evs = models(evs@);
        let ghost pre_out = models(out@);
        let ghost pre_st = st_model(st);
        let e = evs.remove(0);
        proof {
            assert(models(evs@) =~= pre_evs.drop_first());
            assert(e.model() == pre_evs[0]);
        }
        match e {
            MdEvent::CodeStart(l) => {
                out.push(MdEvent::Html(String::from_str("<div class=\"code\">")));
                match l {
                    Some(s) => {
                        st = Some(s.clone());
                        out.push(MdEvent::CodeStart(Some(s)));
                    },
                    None => {
                        out.push(MdEvent::CodeStart(None));
                    },
                }
            },
            MdEvent::CodeEnd => {
                st = None;
                out.push(MdEvent::CodeEnd);
                out.push(MdEvent::Html(String::from_str("</div>")));
            },
            MdEvent::Text(t) => {
                match &st {
                    Some(l) => {
                        match highlight(hl, t.as_str(), l.as_str()) {
                            Ok(h) => {
                                out.push(MdEvent::Html(h));
                            },
                            Err(_) => {
                                out.push(MdEvent::Text(t));
                            },
                        }
                    },
                    None => {
                        out.push(MdEvent::Text(t));
                    },
                }
            },
            MdEvent::Html(h) => {
                out.push(MdEvent::Html(h));
            },
            MdEvent::Other(ev) => {
                out.push(MdEvent::Other(ev));
            },
        }
        proof {
            assert(models(out@) =~= pre_out + step_out(pre_st, pre_evs[0]));
            assert(st_model(st) == step_state(pre_st, pre_evs[0]));
            assert(models(out@) + spec_rewrite_from(st_model(st), models(evs@)) =~= spec_rewrite(
                orig,
            ));
        }
    }
    proof {
        assert(models(evs@) =~= Seq::<EvModel>::empty());
        assert(models(out@) =~= spec_rewrite(orig));
    }
    out
}

/// Raw mode: the document serialized by the standard markdown rules
/// alone, with no code-block wrapping and no highlighting.
pub fn render_raw(post: &str) -> (r: String)
    ensures
        r@ == html_of(md_parse(post@)),
{
    events_to_html(parse_markdown(post))
}

/// Highlighting mode: the document's event sequence walked through the
/// rewriting machine, then serialized.
pub fn render_markdown(post: &str, hl: &Highlighter) -> (r: String)
    ensures
        r@ == html_of(spec_rewrite(md_parse(post@))),
{
    events_to_html(rewrite_events(parse_markdown(post), hl))
}

/// A fenced code block whose language tag no grammar matches still
/// renders: its text passes through verbatim (the serializer escapes it),
/// wrapped in the code container, and rewriting continues outside the
/// block as if the block had been recognized.
pub proof fn lemma_unknown_language_passthrough(
    st: Option<Seq<char>>,
    lang: Seq<char>,
    t: Seq<char>,
    rest: Seq<EvModel>,
)
    requires
        !known_lang(lang),
    ensures
        spec_rewrite_from(
            st,
            seq![EvModel::CodeStart(Some(lang)), EvModel::Text(t), EvModel::CodeEnd] + rest,
        ) == seq![
            EvModel::Html("<div class=\"code\">"@),
            EvModel::CodeStart(Some(lang)),
            EvModel::Text(t),
            EvModel::CodeEnd,
            EvModel::Html("</div>"@),
        ] + spec_rewrite_from(None, rest),
{
    let block = seq![EvModel::CodeStart(Some(lang)), EvModel::Text(t), EvModel::CodeEnd];
    lemma_rewrite_append(st, block, rest);
    lemma_block_unfold(st, lang, t);
    assert(spec_rewrite_from(st, block) + spec_rewrite_from(None, rest) =~= seq![
        EvModel::Html("<div class=\"code\">"@),
        EvModel::CodeStart(Some(lang)),
        EvModel::Text(t),
        EvModel::CodeEnd,
        EvModel::Html("</div>"@),
    ] + spec_rewrite_from(None, rest));
}

/// How one whole fenced block with a single text node rewrites, from any
/// starting state: the container around it, the text replaced exactly
/// when the language is known, and the machine back outside any block.
proof fn lemma_block_unfold(st: Option<Seq<char>>, lang: Seq<char>, t: Seq<char>)
    ensures
        state_after(st, seq![EvModel::CodeStart(Some(lang)), EvModel::Text(t), EvModel::CodeEnd])
            is None,
        spec_rewrite_from(
            st,
            seq![EvModel::CodeStart(Some(lang)), EvModel::Text(t), EvModel::CodeEnd],
        ) == seq![EvModel::Html("<div class=\"code\">"@), EvModel::CodeStart(Some(lang))] + (
        if known_lang(lang) {
            seq![EvModel::Html(hl_block(t, lang))]
        } else {
            seq![EvModel::Text(t)]
        }) + seq![EvModel::CodeEnd, EvModel::Html("</div>"@)],
{
    let block = seq![EvModel::CodeStart(Some(lang)), EvModel::Text(t), EvModel::CodeEnd];
    let b1 = seq![EvModel::Text(t), EvModel::CodeEnd];
    let b2 = seq![EvModel::CodeEnd];
    let b3 = Seq::<EvModel>::empty();
    assert(block.drop_first() =~= b1);
    assert(b1.drop_first() =~= b2);
    assert(b2.drop_first() =~= b3);
    let s1 = step_state(st, block[0]);
    let s2 = step_state(s1, b1[0]);
    assert(s1 == Some(lang));
    assert(s2 == Some(lang));
    assert(step_state(s2, b2[0]) is None);
    assert(state_after(st, block) == state_after(s1, b1));
    assert(state_after(s1, b1) == state_after(s2, b2));
    assert(state_after(s2, b2) == state_after(None, b3));
    assert(spec_rewrite_from(st, block) == step_out(st, block[0]) + spec_rewrite_from(s1, b1));
    assert(spec_rewrite_from(s1, b1) == step_out(s1, b1[0]) + spec_rewrite_from(s2, b2));
    assert(spec_rewrite_from(s2, b2) == step_out(s2, b2[0]) + spec_rewrite_from(None, b3));
    assert(spec_rewrite_from(None, b3) =~= Seq::<EvModel>::empty());
    assert(spec_rewrite_from(st, block) =~= seq![
        EvModel::Html("<div class=\"code\">"@),
        EvModel::CodeStart(Some(lang)),
    ] + (if known_lang(lang) {
        seq![EvModel::Html(hl_block(t, lang))]
    } else {
        seq![EvModel::Text(t)]
    }) + seq![EvModel::CodeEnd, EvModel::Html("</div>"@)]);
}

/// The counterpart for a recognized language: the block's text is
/// replaced by the highlighter's HTML for (text, language), inside the
/// same container.
pub proof fn lemma_known_language_highlight(
    st: Option<Seq<char>>,
    lang: Seq<char>,
    t: Seq<char>,
    rest: Seq<EvModel>,
)
    requires
        known_lang(lang),
    ensures
        spec_rewrite_from(
            st,
            seq![EvModel::CodeStart(Some(lang)), EvModel::Text(t), EvModel::CodeEnd] + rest,
        ) == seq![
            EvModel::Html("<div class=\"code\">"@),
            EvModel::CodeStart(Some(lang)),
            EvModel::Html(hl_block(t, lang)),
            EvModel::CodeEnd,
            EvModel::Html("</div>"@),
        ] + spec_rewrite_from(None, rest),
{
    let block = seq![EvModel::CodeStart(Some(lang)), EvModel::Text(t), EvModel::CodeEnd];
    lemma_rewrite_append(st, block, rest);
    lemma_block_unfold(st, lang, t);
    assert(spec_rewrite_from(st, block) + spec_rewrite_from(None, rest) =~= seq![
        EvModel::Html("<div class=\"code\">"@),
        EvModel::CodeStart(Some(lang)),
        EvModel::Html(hl_block(t, lang)),
        EvModel::CodeEnd,
        EvModel::Html("</div>"@),
    ] + spec_rewrite_from(None, rest));
}

} // verus!

//! The calls into `pulldown-cmark`, the CommonMark parser and HTML writer.

use vstd::prelude::*;

verus! {

/// The HTML that `pulldown-cmark` writes for the Markdown text `md`, with
/// every extension of `Options::all()` switched on.
pub uninterp spec fn cmark_html(md: Seq<char>) -> Seq<char>;

/// Calls `pulldown_cmark::Parser::new_ext` with `Options::all()` and writes
/// the events with `pulldown_cmark::html::push_html`. The HTML is a function
/// of the text alone; the contract names it `cmark_html`.
#[verifier::external_body]
pub(crate) fn render_markdown_html(md: &str) -> (r: String)
    ensures
        r@ == cmark_html(md@),
{
    let parser = pulldown_cmark::Parser::new_ext(md, pulldown_cmark::Options::all());
    let mut out = String::new();
    pulldown_cmark::html::push_html(&mut out, parser);
    out
}

} // verus!

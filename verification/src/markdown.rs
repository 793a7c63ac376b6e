//! Markdown processing: alerts, frontmatter, headings and the HTML pieces
//! the viewer adds.

pub mod alerts;
pub mod cmark;
pub mod events;
pub mod frontmatter;
pub mod headings;
pub mod post_process;
pub mod slug;

use vstd::prelude::*;
use vstd::string::StrSliceExecFns;
use crate::markdown::alerts::process_alerts;
use crate::markdown::events::{prepend_frontmatter, render_markdown_body};
use crate::markdown::frontmatter::frontmatter;
use crate::markdown::post_process::{post_process_html_with_headings, rewrite_links};
use crate::markdown::headings::{heading_events, headings_from_events, HeadingInfo};
use crate::paths;
use crate::paths::extension;
use crate::text;
use crate::text::{chars_of, find_from, matches_at, str_equals, trim_start_from};

pub use crate::markdown::alerts::{get_alert_icon_placeholder, parse_alert_start};
pub use crate::markdown::slug::generate_slug;

verus! {

broadcast use vstd::string::group_string_axioms;

/// The MIME type for an image file's extension; `image/png` when the
/// extension is missing or unknown.
pub open spec fn mime_for_extension(ext: Option<Seq<char>>) -> Seq<char> {
    if ext == Some("png"@) {
        "image/png"@
    } else if ext == Some("jpg"@) || ext == Some("jpeg"@) {
        "image/jpeg"@
    } else if ext == Some("gif"@) {
        "image/gif"@
    } else if ext == Some("svg"@) {
        "image/svg+xml"@
    } else if ext == Some("webp"@) {
        "image/webp"@
    } else if ext == Some("bmp"@) {
        "image/bmp"@
    } else if ext == Some("ico"@) {
        "image/x-icon"@
    } else {
        "image/png"@
    }
}

fn ext_is(ext: &Option<String>, t: &str) -> (r: bool)
    ensures
        r == (paths::opt_view(*ext) == Some(t@)),
{
    match ext {
        Some(e) => str_equals(e.as_str(), t),
        None => false,
    }
}

/// Infers the MIME type of an image from its path's extension.
pub fn get_mime_type(path: &str) -> (r: &'static str)
    ensures
        r@ == mime_for_extension(paths::path_extension(path@)),
{
    let ext = extension(path);
    if ext_is(&ext, "png") {
        "image/png"
    } else if ext_is(&ext, "jpg") || ext_is(&ext, "jpeg") {
        "image/jpeg"
    } else if ext_is(&ext, "gif") {
        "image/gif"
    } else if ext_is(&ext, "svg") {
        "image/svg+xml"
    } else if ext_is(&ext, "webp") {
        "image/webp"
    } else if ext_is(&ext, "bmp") {
        "image/bmp"
    } else if ext_is(&ext, "ico") {
        "image/x-icon"
    } else {
        "image/png"
    }
}

/// Processes the GitHub alerts of `markdown` into HTML blocks, keeping every
/// other line.
pub fn process_github_alerts(markdown: &str) -> (r: String)
    ensures
        r@ == alerts::alerts_text(markdown@, None),
{
    process_alerts(markdown, None).0
}

/// The text that headings are read from: after a frontmatter block (a first
/// `---` up to the next line that starts with `---`), with leading
/// whitespace removed; the whole text when there is no such block.
pub open spec fn heading_source(md: Seq<char>) -> Seq<char> {
    if text::has_prefix(md, "---"@) {
        let after = md.subrange(3, md.len() as int);
        match text::first_occurrence_from(after, "\n---"@, 0) {
            Some(p) => text::trim_start(after.subrange(p + 4, after.len() as int)),
            None => md,
        }
    } else {
        md
    }
}

/// Where `heading_source` starts in `md`.
fn heading_source_start(md: &Vec<char>) -> (r: usize)
    ensures
        r <= md@.len(),
        md@.subrange(r as int, md@.len() as int) == heading_source(md@),
{
    let n = md.len();
    let dashes = chars_of("---");
    proof {
        reveal_strlit("---");
        reveal_strlit("\n---");
    }
    assert(md@.subrange(0, n as int) =~= md@);
    if !matches_at(md, 0, &dashes) {
        return 0;
    }
    let after = slice_from(md, 3);
    let closing = chars_of("\n---");
    match find_from(&after, &closing, 0) {
        Some(p) => {
            proof {
                assert(text::first_occurrence_from(after@, "\n---"@, 0) == Some(p as int)) by {
                    let c = choose|i: int| 0 <= i && text::occurs_at(after@, i, "\n---"@) && forall|j: int| 0 <= j < i ==> !text::occurs_at(after@, j, "\n---"@);
                    if c < p {
                    } else if c > p {
                    }
                }
            }
            let a = trim_start_from(md, 3 + p + 4, n);
            assert(md@.subrange(3 + p + 4, n as int) =~= after@.subrange(p + 4, after@.len() as int));
            a
        },
        None => 0,
    }
}

/// A new vector holding `v[from..]`.
fn slice_from(v: &Vec<char>, from: usize) -> (r: Vec<char>)
    requires
        from <= v@.len(),
    ensures
        r@ == v@.subrange(from as int, v@.len() as int),
{
    let mut r: Vec<char> = Vec::new();
    let mut i = from;
    while i < v.len()
        invariant
            from <= i <= v@.len(),
            r@ == v@.subrange(from as int, i as int),
        decreases v@.len() - i,
    {
        r.push(v[i]);
        i += 1;
        assert(r@ =~= v@.subrange(from as int, i as int));
    }
    r
}

/// The headings of a document, as plain values.
pub open spec fn document_headings(md: Seq<char>) -> Seq<(u8, Seq<char>, Seq<char>)> {
    headings::heading_infos(
        headings::scan(headings::cmark_heading_events(alerts::alerts_text(heading_source(md), None))).2,
    )
}

/// Extracts the headings of a Markdown document: frontmatter is skipped,
/// alerts are processed, and each heading gets an anchor id.
pub fn extract_headings(markdown: &str) -> (r: Vec<HeadingInfo>)
    ensures
        r@.map_values(|h: HeadingInfo| headings::heading_view(h)) == document_headings(markdown@),
{
    let md = chars_of(markdown);
    let start = heading_source_start(&md);
    let content = markdown.substring_char(start, md.len());
    let processed = process_github_alerts(content);
    let events = heading_events(processed.as_str());
    headings_from_events(&events)
}

/// The text a document's body is rendered from: the document after its
/// frontmatter, with its alerts processed.
pub open spec fn body_source(md: Seq<char>) -> Seq<char> {
    alerts::alerts_text(frontmatter::frontmatter_parts(md).1, None)
}

/// The body HTML: the body written by the Markdown writer, with links to
/// local files turned into spans.
pub open spec fn body_html(md: Seq<char>) -> Seq<char> {
    post_process::html_with_link_spans(
        events::cmark_write(body_source(md), events::body_events(body_source(md))),
    )
}

/// The frontmatter table, when there is one, above `html`.
pub open spec fn with_frontmatter(md: Seq<char>, html: Seq<char>) -> Seq<char> {
    let table = frontmatter::frontmatter_parts(md).0;
    if table.len() == 0 {
        html
    } else {
        table + "\n"@ + html
    }
}

/// The anchor ids of a document's headings, in order.
pub open spec fn heading_ids(md: Seq<char>) -> Seq<Seq<char>> {
    document_headings(md).map_values(|h: (u8, Seq<char>, Seq<char>)| h.2)
}

/// Renders a Markdown document to HTML: the frontmatter table, then the
/// body with its alerts, diagrams and math prepared for the viewer, and
/// links to local files turned into spans. Local images are left for the
/// application to inline.
pub fn render_html(markdown: &str) -> (r: String)
    ensures
        r@ == with_frontmatter(markdown@, body_html(markdown@)),
{
    let (table, content, _lines) = frontmatter(markdown);
    let processed = process_github_alerts(content.as_str());
    let body = render_markdown_body(processed.as_str());
    let html = rewrite_links(body.as_str());
    prepend_frontmatter(table.as_str(), html.as_str())
}

/// Renders a Markdown document to HTML with an id on each heading, and
/// gives its headings: as `render_html`, the k-th heading element of the
/// body getting the id of the k-th heading `extract_headings` finds.
pub fn render_body(markdown: &str) -> (r: (String, Vec<HeadingInfo>))
    ensures
        r.0@ == with_frontmatter(
            markdown@,
            post_process::html_with_link_spans(
                post_process::html_with_heading_ids(
                    events::cmark_write(body_source(markdown@), events::body_events(body_source(markdown@))),
                    heading_ids(markdown@),
                ),
            ),
        ),
        r.1@.map_values(|h: HeadingInfo| headings::heading_view(h)) == document_headings(markdown@),
{
    let headings = extract_headings(markdown);
    proof {
        let dh = document_headings(markdown@);
        assert(dh.len() == headings@.len());
        assert forall|j: int| 0 <= j < dh.len() implies #[trigger] dh[j].2 == headings@[j].id@ by {
            assert(dh[j] == headings@.map_values(|h: HeadingInfo| headings::heading_view(h))[j]);
        }
        assert(post_process::ids_of(headings@) =~= heading_ids(markdown@));
    }
    let (table, content, _lines) = frontmatter(markdown);
    let processed = process_github_alerts(content.as_str());
    let body = render_markdown_body(processed.as_str());
    let html = post_process_html_with_headings(body.as_str(), &headings);
    (prepend_frontmatter(table.as_str(), html.as_str()), headings)
}

} // verus!

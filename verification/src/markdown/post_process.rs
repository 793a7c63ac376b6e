//! What the HTML post-processing does to each element it rewrites: local
//! images become data URLs, links to local files become spans that the
//! viewer's script opens.
//!
//! Walking the HTML and reading the image files is the application's part;
//! it asks this module what each element becomes.

use vstd::prelude::*;
use crate::markdown::headings::HeadingInfo;
use crate::markdown::mime_for_extension;
use crate::paths;
use crate::paths::extension;
use crate::text;
use crate::text::{chars_of, push_char, push_str, starts_with, str_equals};
use crate::utils::image::{data_url_base64, data_url_mime_type};
use lol_html::html_content::Element;
use lol_html::{ElementContentHandlers, HandlerResult, HtmlRewriter, Settings};
use std::borrow::Cow;

verus! {

broadcast use vstd::string::group_string_axioms;

/// Infers the MIME type of an image from its path's extension.
pub fn get_mime_type(path: &str) -> (r: &'static str)
    ensures
        r@ == mime_for_extension(paths::path_extension(path@)),
{
    crate::markdown::get_mime_type(path)
}

/// Whether a URL points to the web (`http://` or `https://`).
pub open spec fn is_web_url(url: Seq<char>) -> bool {
    text::has_prefix(url, "http://"@) || text::has_prefix(url, "https://"@)
}

/// Whether an image source names a local file, which the viewer inlines: not
/// a web URL and not already a `data:` URL.
pub open spec fn is_local_source(src: Seq<char>) -> bool {
    !is_web_url(src) && !text::has_prefix(src, "data:"@)
}

fn is_web(url: &str) -> (r: bool)
    ensures
        r == is_web_url(url@),
{
    starts_with(url, "http://") || starts_with(url, "https://")
}

/// Decides whether the image source `src` is a local file to inline.
pub fn is_local_image_src(src: &str) -> (r: bool)
    ensures
        r == is_local_source(src@),
{
    !is_web(src) && !starts_with(src, "data:")
}

// ---------------------------------------------------------------------------
// Data URLs
// ---------------------------------------------------------------------------

/// The Base64 digit for a six-bit value: `A`–`Z`, `a`–`z`, `0`–`9`, `+`, `/`.
pub open spec fn base64_digit(v: int) -> char {
    if v < 26 {
        (65 + v) as char
    } else if v < 52 {
        (97 + v - 26) as char
    } else if v < 62 {
        (48 + v - 52) as char
    } else if v == 62 {
        '+'
    } else {
        '/'
    }
}

/// The four digits of a 24-bit group `n`, six bits each, highest first.
pub open spec fn base64_quad(n: int) -> Seq<char> {
    seq![base64_digit(n / 262144), base64_digit((n / 4096) % 64), base64_digit((n / 64) % 64), base64_digit(n % 64)]
}

/// The standard Base64 encoding of `data`: each group of three bytes, read
/// as a 24-bit number, gives four digits; a last group of one or two bytes
/// is filled with zero bits, and its digits that hold none of its bits are
/// written `=`.
pub open spec fn base64_standard(data: Seq<u8>) -> Seq<char>
    decreases data.len(),
{
    if data.len() == 0 {
        Seq::empty()
    } else if data.len() == 1 {
        base64_quad(data[0] * 65536).take(2) + "=="@
    } else if data.len() == 2 {
        base64_quad(data[0] * 65536 + data[1] * 256).take(3) + "="@
    } else {
        base64_quad(data[0] * 65536 + data[1] * 256 + data[2]) + base64_standard(data.subrange(3, data.len() as int))
    }
}

/// Calls `base64`'s `Engine::encode` with the `STANDARD` engine (standard
/// alphabet, `=` padding), whose output is what `base64_standard` states.
/// The call panics when the crate's `encoded_len` (four characters for
/// every three bytes or part of three) overflows `usize`, which `requires`
/// rules out.
#[verifier::external_body]
fn base64_encode(data: &[u8]) -> (r: String)
    requires
        4 * (data@.len() / 3) + 4 <= usize::MAX,
    ensures
        r@ == base64_standard(data@),
{
    base64::Engine::encode(&base64::engine::general_purpose::STANDARD, data)
}

/// The data URL that inlines an image: `data:<mime>;base64,<data>`.
pub open spec fn data_url(mime: Seq<char>, data: Seq<u8>) -> Seq<char> {
    "data:"@ + mime + ";base64,"@ + base64_standard(data)
}

/// Builds the data URL of an image's bytes.
pub fn image_data_url(mime_type: &str, data: &[u8]) -> (r: String)
    requires
        4 * (data@.len() / 3) + 4 <= usize::MAX,
    ensures
        r@ == data_url(mime_type@, data@),
{
    let encoded = base64_encode(data);
    let mut s = String::new();
    push_str(&mut s, "data:");
    push_str(&mut s, mime_type);
    push_str(&mut s, ";base64,");
    push_str(&mut s, encoded.as_str());
    s
}

/// An inlined image's data URL reads back as what went into it: its MIME
/// type (one without `;` or `,`, as MIME types are written) and its Base64
/// data are what the image helpers extract from it.
pub proof fn data_url_reads_back(mime: Seq<char>, data: Seq<u8>)
    requires
        !mime.contains(';'),
        !mime.contains(','),
    ensures
        data_url_mime_type(data_url(mime, data)) == Some(mime),
        data_url_base64(data_url(mime, data)) == Ok::<Seq<char>, Seq<char>>(base64_standard(data)),
{
    reveal_strlit("data:");
    reveal_strlit(";base64,");
    reveal_strlit(";base64");
    let url = data_url(mime, data);
    let b = base64_standard(data);
    let m = mime.len() as int;
    assert(url =~= "data:"@ + (mime + (";base64,"@ + b)));
    assert(text::has_prefix(url, "data:"@)) by {
        assert(url.subrange(0, 5) =~= "data:"@);
    }
    let rest = url.subrange(5, url.len() as int);
    assert(rest =~= mime + (";base64,"@ + b));
    assert forall|j: int| 0 <= j < m implies rest[j] != ';' by {
        assert(rest[j] == mime[j]);
    }
    assert(rest[m] == ';');
    text::lemma_index_of_unique(rest, ';', m);
    assert(rest.subrange(0, m) =~= mime);
    let k = 5 + m + 7;
    assert forall|j: int| 0 <= j < k implies url[j] != ',' by {
        if 5 <= j < 5 + m {
            assert(url[j] == mime[j - 5]);
        }
    }
    assert(url[k] == ',');
    text::lemma_index_of_unique(url, ',', k);
    assert(text::occurs_at(url.subrange(0, k), 5 + m, ";base64"@)) by {
        assert(url.subrange(0, k).subrange(5 + m, k) =~= ";base64"@);
    }
    assert(url.subrange(k + 1, url.len() as int) =~= b);
}

// ---------------------------------------------------------------------------
// Links to local files
// ---------------------------------------------------------------------------

/// `s` with each `'` written `\'`, for a single-quoted JavaScript string.
pub open spec fn js_quote_escape(s: Seq<char>) -> Seq<char>
    decreases s.len(),
{
    if s.len() == 0 {
        Seq::empty()
    } else {
        js_quote_escape(s.drop_last()) + if s.last() == '\'' {
            seq!['\\', '\'']
        } else {
            seq![s.last()]
        }
    }
}

/// The `onmousedown` script of a link span: a left or middle click asks the
/// viewer to open `href`.
pub open spec fn link_click_script(href: Seq<char>) -> Seq<char> {
    "if (event.button === 0 || event.button === 1) {\n    event.preventDefault();\n    window.handleMarkdownLinkClick('"@
        + js_quote_escape(href) + "', event.button);\n}"@
}

/// The class of a link span: Markdown files open in the viewer, any other
/// file is marked invalid.
pub open spec fn link_class(ext: Seq<char>) -> Seq<char> {
    if ext == "md"@ || ext == "markdown"@ {
        "md-link"@
    } else {
        "md-link md-link-invalid"@
    }
}

/// What an anchor to a local file becomes: a `span` with these attributes in
/// place of `href`.
pub struct MarkdownLink {
    /// The `class` attribute.
    pub class: String,
    /// The `onmousedown` attribute.
    pub onmousedown: String,
}

fn escape_quotes(href: &str) -> (r: String)
    ensures
        r@ == js_quote_escape(href@),
{
    let v = chars_of(href);
    let mut s = String::new();
    let mut i: usize = 0;
    while i < v.len()
        invariant
            i <= v@.len(),
            s@ == js_quote_escape(v@.take(i as int)),
        decreases v@.len() - i,
    {
        assert(v@.take(i + 1).drop_last() =~= v@.take(i as int));
        if v[i] == '\'' {
            push_char(&mut s, '\\');
            push_char(&mut s, '\'');
            assert(s@ =~= js_quote_escape(v@.take(i + 1)));
        } else {
            push_char(&mut s, v[i]);
            assert(s@ =~= js_quote_escape(v@.take(i + 1)));
        }
        i += 1;
    }
    assert(v@.take(v@.len() as int) =~= v@);
    s
}

/// Decides what an anchor with `href` becomes: `None` keeps it a link (web
/// URLs, and paths without an extension); otherwise the span that replaces it.
pub fn markdown_link(href: &str) -> (r: Option<MarkdownLink>)
    ensures
        match r {
            None => is_web_url(href@) || paths::path_extension(href@) is None,
            Some(link) => {
                &&& !is_web_url(href@)
                &&& paths::path_extension(href@) matches Some(ext)
                &&& link.class@ == link_class(ext)
                &&& link.onmousedown@ == link_click_script(href@)
            },
        },
{
    if is_web(href) {
        return None;
    }
    let ext = extension(href);
    match ext {
        None => None,
        Some(e) => {
            let class = if str_equals(e.as_str(), "md") || str_equals(e.as_str(), "markdown") {
                "md-link".to_owned()
            } else {
                "md-link md-link-invalid".to_owned()
            };
            let mut script = String::new();
            push_str(
                &mut script,
                "if (event.button === 0 || event.button === 1) {\n    event.preventDefault();\n    window.handleMarkdownLinkClick('",
            );
            let escaped = escape_quotes(href);
            push_str(&mut script, escaped.as_str());
            push_str(&mut script, "', event.button);\n}");
            Some(MarkdownLink { class, onmousedown: script })
        },
    }
}

// ---------------------------------------------------------------------------
// Numbering the elements of a kind
// ---------------------------------------------------------------------------

/// Counts the elements of one kind (headings, tables) as the rewriter meets
/// them, so that the k-th of them (from 0) gets the k-th of a list of
/// values.
pub struct ElementNumbering {
    seen: usize,
}

impl ElementNumbering {
    /// How many elements were met so far (up to `usize::MAX`).
    pub closed spec fn seen(&self) -> nat {
        self.seen as nat
    }

    /// No element met yet.
    pub fn new() -> (r: Self)
        ensures
            r.seen() == 0,
    {
        ElementNumbering { seen: 0 }
    }

    /// Meets the next element and gives its value: the k-th element gets
    /// `items[k]`, and elements past the end of `items` get none.
    pub fn next_of<'a, T>(&mut self, items: &'a Vec<T>) -> (r: Option<&'a T>)
        ensures
            r == if old(self).seen() < items@.len() {
                Some(&items@[old(self).seen() as int])
            } else {
                None
            },
            final(self).seen() == if old(self).seen() < usize::MAX {
                old(self).seen() + 1
            } else {
                old(self).seen()
            },
    {
        let k = self.seen;
        if self.seen < usize::MAX {
            self.seen = self.seen + 1;
        }
        if k < items.len() {
            Some(&items[k])
        } else {
            None
        }
    }
}

// ---------------------------------------------------------------------------
// Rewriting headings and links
// ---------------------------------------------------------------------------

/// The HTML that `lol_html` writes from `html` when the k-th `h1`–`h6`
/// element (from 0) is given the id `ids[k]` (as `ElementNumbering` hands
/// them out); headings past the end of `ids`, and everything else, are
/// left as they are.
pub uninterp spec fn html_with_heading_ids(html: Seq<char>, ids: Seq<Seq<char>>) -> Seq<char>;

/// The views of a list of strings.
pub open spec fn strings_view(v: Seq<String>) -> Seq<Seq<char>> {
    v.map_values(|s: String| s@)
}

/// Streams `html` through a `lol_html::HtmlRewriter` with one element
/// handler on `h1, h2, h3, h4, h5, h6` that sets the `id` the numbering
/// hands out. The result is a function of the HTML and the ids, named
/// `html_with_heading_ids`: on a rewriting error what was written so far
/// is kept; output that is not UTF-8 gives back the HTML.
#[verifier::external_body]
pub(crate) fn set_heading_ids(html: &str, ids: &Vec<String>) -> (r: String)
    ensures
        r@ == html_with_heading_ids(html@, strings_view(ids@)),
{
    let mut numbering = ElementNumbering::new();
    let handler = ElementContentHandlers::default().element(move |el: &mut Element| -> HandlerResult {
        if let Some(id) = numbering.next_of(ids) {
            el.set_attribute("id", id)?;
        }
        Ok(())
    });
    let settings = Settings::new().append_element_content_handler((Cow::Owned("h1, h2, h3, h4, h5, h6".parse().unwrap()), handler));
    let mut out = Vec::new();
    let mut rw = HtmlRewriter::new(settings, |c: &[u8]| out.extend_from_slice(c));
    let _ = rw.write(html.as_bytes()).and_then(|_| rw.end());
    String::from_utf8(out).unwrap_or_else(|_| html.to_owned())
}

/// The HTML that `lol_html` writes from `html` when each `a[href]` element
/// for which `markdown_link` gives a span becomes that span: tag `span`, no
/// `href`, and the span's `class` and `onmousedown`; everything else is
/// left as it is.
pub uninterp spec fn html_with_link_spans(html: Seq<char>) -> Seq<char>;

/// Streams `html` through a `lol_html::HtmlRewriter` with one element
/// handler on `a[href]` that applies what `markdown_link` decides. The
/// result is a function of the HTML, named `html_with_link_spans`: on a
/// rewriting error what was written so far is kept; output that is not
/// UTF-8 gives back the HTML.
#[verifier::external_body]
pub(crate) fn rewrite_links(html: &str) -> (r: String)
    ensures
        r@ == html_with_link_spans(html@),
{
    let handler = ElementContentHandlers::default().element(|el: &mut Element| -> HandlerResult {
        if let Some(link) = el.get_attribute("href").as_deref().and_then(markdown_link) {
            el.set_tag_name("span")?;
            el.remove_attribute("href");
            el.set_attribute("class", &link.class)?;
            el.set_attribute("onmousedown", &link.onmousedown)?;
        }
        Ok(())
    });
    let settings = Settings::new().append_element_content_handler((Cow::Owned("a[href]".parse().unwrap()), handler));
    let mut out = Vec::new();
    let mut rw = HtmlRewriter::new(settings, |c: &[u8]| out.extend_from_slice(c));
    let _ = rw.write(html.as_bytes()).and_then(|_| rw.end());
    String::from_utf8(out).unwrap_or_else(|_| html.to_owned())
}

/// The anchor ids of a list of headings, in order.
pub open spec fn ids_of(headings: Seq<HeadingInfo>) -> Seq<Seq<char>> {
    headings.map_values(|h: HeadingInfo| h.id@)
}

/// Post-processes rendered HTML: the k-th heading element gets the id of
/// the k-th heading, and links to local files become the spans the viewer
/// opens. Local images are left for the application to inline.
pub fn post_process_html_with_headings(html: &str, headings: &Vec<HeadingInfo>) -> (r: String)
    ensures
        r@ == html_with_link_spans(html_with_heading_ids(html@, ids_of(headings@))),
{
    let mut ids: Vec<String> = Vec::new();
    let mut i: usize = 0;
    while i < headings.len()
        invariant
            i <= headings@.len(),
            ids@.len() == i,
            forall|j: int| 0 <= j < i ==> (#[trigger] ids@[j])@ == headings@[j].id@,
        decreases headings@.len() - i,
    {
        ids.push(headings[i].id.clone());
        i += 1;
    }
    assert(strings_view(ids@) =~= ids_of(headings@));
    let with_ids = set_heading_ids(html, &ids);
    rewrite_links(with_ids.as_str())
}

} // verus!

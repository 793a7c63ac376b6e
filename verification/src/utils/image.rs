//! What the library reads out of image URLs: the MIME type and Base64 data
//! of `data:` URLs, the file name and extension of HTTP URLs, and the save
//! dialog's filter for a MIME type.

use vstd::prelude::*;
use vstd::string::StrSliceExecFns;
use crate::text::{
    after_last_bound, before_first_bound, chars_of, find_char, find_from, matches_at, rfind_char,
    str_equals, string_of,
};
use crate::text;

verus! {

broadcast use vstd::string::group_string_axioms;

// ---------------------------------------------------------------------------
// Data URLs
// ---------------------------------------------------------------------------

/// The MIME type of a data URL `data:<mime>;...`: what follows `data:` up to
/// the first `;`.
pub open spec fn data_url_mime_type(url: Seq<char>) -> Option<Seq<char>> {
    if text::has_prefix(url, "data:"@) {
        let rest = url.subrange(5, url.len() as int);
        match text::index_of(rest, ';') {
            Some(k) => Some(rest.subrange(0, k)),
            None => None,
        }
    } else {
        None
    }
}

/// Extracts the MIME type from a data URL of the form
/// `data:<mime-type>;base64,<data>`.
pub fn extract_mime_type_from_data_url(data_url: &str) -> (r: Option<&str>)
    ensures
        match r {
            Some(m) => data_url_mime_type(data_url@) == Some(m@),
            None => data_url_mime_type(data_url@) is None,
        },
{
    let v = chars_of(data_url);
    let prefix = chars_of("data:");
    proof {
        reveal_strlit("data:");
    }
    if !matches_at(&v, 0, &prefix) {
        return None;
    }
    let ghost rest = v@.subrange(5, v@.len() as int);
    match find_char(&v, ';', 5, v.len()) {
        Some(k) => {
            proof {
                text::lemma_index_of_unique(rest, ';', k - 5);
                assert(rest.subrange(0, k - 5) =~= v@.subrange(5, k as int));
            }
            Some(data_url.substring_char(5, k))
        },
        None => {
            proof {
                text::lemma_index_of_unique(rest, ';', rest.len() as int);
            }
            None
        },
    }
}

/// Why a data URL holds no Base64 data.
pub open spec fn missing_comma_message() -> Seq<char> {
    "Invalid data URL: missing comma separator"@
}

/// Why a data URL holds no Base64 data.
pub open spec fn not_base64_message() -> Seq<char> {
    "Invalid data URL: not base64 encoded"@
}

/// The Base64 data of a data URL: what follows the first `,`, provided the
/// part before it mentions `;base64`.
pub open spec fn data_url_base64(url: Seq<char>) -> Result<Seq<char>, Seq<char>> {
    match text::index_of(url, ',') {
        None => Err(missing_comma_message()),
        Some(k) => if text::contains_seq(url.subrange(0, k), ";base64"@) {
            Ok(url.subrange(k + 1, url.len() as int))
        } else {
            Err(not_base64_message())
        },
    }
}

/// Extracts the Base64 data from a data URL of the form
/// `data:<mime-type>;base64,<data>`.
pub fn extract_base64_from_data_url(data_url: &str) -> (r: Result<&str, &'static str>)
    ensures
        match r {
            Ok(d) => data_url_base64(data_url@) == Ok::<Seq<char>, Seq<char>>(d@),
            Err(e) => data_url_base64(data_url@) == Err::<Seq<char>, Seq<char>>(e@),
        },
{
    let v = chars_of(data_url);
    let n = v.len();
    let comma = match find_char(&v, ',', 0, n) {
        Some(k) => {
            proof {
                text::lemma_index_of_unique(v@, ',', k as int);
            }
            k
        },
        None => {
            proof {
                text::lemma_index_of_unique(v@, ',', n as int);
            }
            return Err("Invalid data URL: missing comma separator");
        },
    };
    let marker = chars_of(";base64");
    let prefix: Vec<char> = slice_vec(&v, 0, comma);
    let found = find_from(&prefix, &marker, 0);
    if found.is_none() {
        return Err("Invalid data URL: not base64 encoded");
    }
    Ok(data_url.substring_char(comma + 1, n))
}

/// A new vector holding `v[from..to]`.
pub fn slice_vec(v: &Vec<char>, from: usize, to: usize) -> (r: Vec<char>)
    requires
        from <= to <= v@.len(),
    ensures
        r@ == v@.subrange(from as int, to as int),
{
    let mut r: Vec<char> = Vec::new();
    let mut i = from;
    while i < to
        invariant
            from <= i <= to <= v@.len(),
            r@ == v@.subrange(from as int, i as int),
        decreases to - i,
    {
        r.push(v[i]);
        i += 1;
        assert(r@ =~= v@.subrange(from as int, i as int));
    }
    r
}

// ---------------------------------------------------------------------------
// HTTP URLs
// ---------------------------------------------------------------------------

/// The last path segment of a URL: the part before any `?`, after its last `/`.
#[verifier::opaque]
pub open spec fn url_last_segment(url: Seq<char>) -> Seq<char> {
    text::after_last(text::before_first(url, '?'), '/')
}

/// Bounds of the last path segment of the URL `v`.
fn last_segment_bounds(v: &Vec<char>) -> (r: (usize, usize))
    ensures
        r.0 <= r.1 <= v@.len(),
        v@.subrange(r.0 as int, r.1 as int) == url_last_segment(v@),
{
    let end = before_first_bound(v, '?', v.len());
    assert(v@.subrange(0, v@.len() as int) =~= v@);
    let start = after_last_bound(v, '/', 0, end);
    proof {
        reveal(url_last_segment);
    }
    (start, end)
}

/// The file name in a URL's path, provided it is not empty and has a `.`.
pub open spec fn url_file_name(url: Seq<char>) -> Option<Seq<char>> {
    let f = url_last_segment(url);
    if f.len() == 0 || !f.contains('.') {
        None
    } else {
        Some(f)
    }
}

/// Extracts the file name from a URL's path.
pub fn extract_filename_from_url(url: &str) -> (r: Option<String>)
    ensures
        match r {
            Some(f) => url_file_name(url@) == Some(f@),
            None => url_file_name(url@) is None,
        },
{
    let v = chars_of(url);
    let (a, b) = last_segment_bounds(&v);
    let ghost f = v@.subrange(a as int, b as int);
    if a == b {
        return None;
    }
    match find_char(&v, '.', a, b) {
        Some(k) => {
            assert(f[k - a] == '.');
            Some(string_of(&v, a, b))
        },
        None => {
            assert forall|j: int| 0 <= j < f.len() implies f[j] != '.' by {
                assert(f[j] == v@[a + j]);
            }
            None
        },
    }
}

/// The extension of a URL's file name: what follows its last `.`.
pub open spec fn url_extension(url: Seq<char>) -> Option<Seq<char>> {
    let f = url_last_segment(url);
    match text::last_index_of(f, '.') {
        Some(k) => Some(f.subrange(k + 1, f.len() as int)),
        None => None,
    }
}

/// Extracts the file extension from a URL's path.
pub fn extract_extension_from_url(url: &str) -> (r: Option<&str>)
    ensures
        match r {
            Some(e) => url_extension(url@) == Some(e@),
            None => url_extension(url@) is None,
        },
{
    let v = chars_of(url);
    let (a, b) = last_segment_bounds(&v);
    let ghost f = v@.subrange(a as int, b as int);
    match rfind_char(&v, '.', a, b) {
        Some(k) => {
            proof {
                text::lemma_last_index_of_unique(f, '.', k - a);
                assert(f.subrange(k - a + 1, f.len() as int) =~= v@.subrange(k + 1, b as int));
            }
            Some(url.substring_char(k + 1, b))
        },
        None => {
            proof {
                text::lemma_last_index_of_unique(f, '.', -1);
            }
            None
        },
    }
}

// ---------------------------------------------------------------------------
// File dialog filters
// ---------------------------------------------------------------------------

/// The save dialog's filter name, its extensions and the default extension
/// for a MIME type.
pub open spec fn file_info_for_mime(mime: Option<Seq<char>>) -> (Seq<char>, Seq<Seq<char>>, Seq<char>) {
    if mime == Some("image/png"@) {
        ("PNG Image"@, seq!["png"@], "png"@)
    } else if mime == Some("image/jpeg"@) {
        ("JPEG Image"@, seq!["jpg"@, "jpeg"@], "jpg"@)
    } else if mime == Some("image/gif"@) {
        ("GIF Image"@, seq!["gif"@], "gif"@)
    } else if mime == Some("image/webp"@) {
        ("WebP Image"@, seq!["webp"@], "webp"@)
    } else if mime == Some("image/svg+xml"@) {
        ("SVG Image"@, seq!["svg"@], "svg"@)
    } else if mime == Some("image/bmp"@) {
        ("BMP Image"@, seq!["bmp"@], "bmp"@)
    } else {
        ("Image"@, seq!["png"@, "jpg"@, "gif"@, "webp"@], "png"@)
    }
}

/// The views of a list of texts.
pub open spec fn strs_view(v: Seq<&str>) -> Seq<Seq<char>> {
    v.map_values(|s: &str| s@)
}

/// Whether `mime` is present and equal to the text `t`.
fn mime_is(mime: Option<&str>, t: &str) -> (r: bool)
    ensures
        r == (match mime {
            Some(m) => m@ == t@,
            None => false,
        }),
{
    match mime {
        Some(m) => str_equals(m, t),
        None => false,
    }
}

/// Gets the file filter (filter name, extensions, default extension) for a
/// MIME type.
pub fn get_file_info_from_mime_type(mime_type: Option<&str>) -> (r: (&'static str, Vec<&'static str>, &'static str))
    ensures
        (r.0@, strs_view(r.1@), r.2@) == file_info_for_mime(match mime_type {
            Some(m) => Some(m@),
            None => None,
        }),
{
    let r = if mime_is(mime_type, "image/png") {
        ("PNG Image", vec!["png"], "png")
    } else if mime_is(mime_type, "image/jpeg") {
        ("JPEG Image", vec!["jpg", "jpeg"], "jpg")
    } else if mime_is(mime_type, "image/gif") {
        ("GIF Image", vec!["gif"], "gif")
    } else if mime_is(mime_type, "image/webp") {
        ("WebP Image", vec!["webp"], "webp")
    } else if mime_is(mime_type, "image/svg+xml") {
        ("SVG Image", vec!["svg"], "svg")
    } else if mime_is(mime_type, "image/bmp") {
        ("BMP Image", vec!["bmp"], "bmp")
    } else {
        ("Image", vec!["png", "jpg", "gif", "webp"], "png")
    };
    assert(strs_view(r.1@) =~= file_info_for_mime(match mime_type {
        Some(m) => Some(m@),
        None => None,
    }).1);
    r
}

// ---------------------------------------------------------------------------
// Saving and copying images
// ---------------------------------------------------------------------------

/// The bytes that standard Base64 text (with `+`, `/` and `=` padding)
/// decodes to; `None` when the text is not valid Base64.
pub uninterp spec fn base64_standard_decoded(text: Seq<char>) -> Option<Seq<u8>>;

/// The view of optional bytes.
pub open spec fn opt_bytes(o: Option<Vec<u8>>) -> Option<Seq<u8>> {
    match o {
        Some(b) => Some(b@),
        None => None,
    }
}

/// Calls `base64`'s `Engine::decode` with the `STANDARD` engine; a decoding
/// error becomes `None`. The result is a function of the text, named
/// `base64_standard_decoded`.
#[verifier::external_body]
fn base64_decode(text: &str) -> (r: Option<Vec<u8>>)
    ensures
        opt_bytes(r) == base64_standard_decoded(text@),
{
    base64::Engine::decode(&base64::engine::general_purpose::STANDARD, text).ok()
}

/// Why an image could not be saved or copied.
#[derive(Debug, PartialEq, Eq)]
pub enum ImageActionError {
    /// The data URL holds no Base64 data; the message says why.
    NoBase64(String),
    /// The data URL's Base64 data does not decode.
    BadBase64,
    /// An SVG image, which cannot be copied as pixels.
    Svg,
    /// The source is neither a `data:` URL nor a web URL.
    Unsupported,
}

/// The view of an `ImageActionError`.
pub enum ImageActionErrorView {
    NoBase64(Seq<char>),
    BadBase64,
    Svg,
    Unsupported,
}

impl View for ImageActionError {
    type V = ImageActionErrorView;

    open spec fn view(&self) -> ImageActionErrorView {
        match self {
            ImageActionError::NoBase64(m) => ImageActionErrorView::NoBase64(m@),
            ImageActionError::BadBase64 => ImageActionErrorView::BadBase64,
            ImageActionError::Svg => ImageActionErrorView::Svg,
            ImageActionError::Unsupported => ImageActionErrorView::Unsupported,
        }
    }
}

/// Whether a URL points to the web (`http://` or `https://`).
pub open spec fn is_web_url(url: Seq<char>) -> bool {
    text::has_prefix(url, "http://"@) || text::has_prefix(url, "https://"@)
}

fn is_web(url: &str) -> (r: bool)
    ensures
        r == is_web_url(url@),
{
    text::starts_with(url, "http://") || text::starts_with(url, "https://")
}

/// The bytes of a data URL's image, or why there are none.
pub open spec fn data_url_bytes(url: Seq<char>) -> Result<Seq<u8>, ImageActionErrorView> {
    match data_url_base64(url) {
        Err(m) => Err(ImageActionErrorView::NoBase64(m)),
        Ok(d) => match base64_standard_decoded(d) {
            Some(b) => Ok(b),
            None => Err(ImageActionErrorView::BadBase64),
        },
    }
}

/// Decodes the image of a data URL.
pub(crate) fn decode_data_url(src: &str) -> (r: Result<Vec<u8>, ImageActionError>)
    ensures
        match r {
            Ok(b) => data_url_bytes(src@) == Ok::<Seq<u8>, ImageActionErrorView>(b@),
            Err(e) => data_url_bytes(src@) == Err::<Seq<u8>, ImageActionErrorView>(e@),
        },
{
    match extract_base64_from_data_url(src) {
        Err(m) => Err(ImageActionError::NoBase64(m.to_owned())),
        Ok(d) => match base64_decode(d) {
            Some(b) => Ok(b),
            None => Err(ImageActionError::BadBase64),
        },
    }
}

/// What saving an image takes: write known bytes, or download them first.
#[derive(Debug, PartialEq, Eq)]
pub enum SavePlan {
    /// Ask where to save with this dialog filter and file name, and write
    /// the bytes there.
    Write {
        bytes: Vec<u8>,
        filter_name: &'static str,
        extensions: Vec<&'static str>,
        file_name: String,
    },
    /// Download the image, then ask `downloaded_save_info` for the dialog.
    Download,
}

/// How a data URL's image is saved: its bytes, with the dialog filter of
/// its MIME type and the file name `image.<ext>`.
pub open spec fn data_url_save(url: Seq<char>, plan: SavePlan) -> bool {
    let info = file_info_for_mime(data_url_mime_type(url));
    match plan {
        SavePlan::Write { bytes, filter_name, extensions, file_name } => {
            &&& data_url_bytes(url) == Ok::<Seq<u8>, ImageActionErrorView>(bytes@)
            &&& filter_name@ == info.0
            &&& strs_view(extensions@) == info.1
            &&& file_name@ == "image."@ + info.2
        },
        SavePlan::Download => false,
    }
}

/// Decides how to save the image at `src`: a data URL's bytes are decoded
/// here; a web image must be downloaded; any other source is refused.
pub fn plan_save_image(src: &str) -> (r: Result<SavePlan, ImageActionError>)
    ensures
        text::has_prefix(src@, "data:"@) ==> match r {
            Ok(plan) => data_url_save(src@, plan),
            Err(e) => data_url_bytes(src@) == Err::<Seq<u8>, ImageActionErrorView>(e@),
        },
        !text::has_prefix(src@, "data:"@) && is_web_url(src@) ==> r == Ok::<SavePlan, ImageActionError>(SavePlan::Download),
        !text::has_prefix(src@, "data:"@) && !is_web_url(src@) ==> r == Err::<SavePlan, ImageActionError>(ImageActionError::Unsupported),
{
    if text::starts_with(src, "data:") {
        let mime = extract_mime_type_from_data_url(src);
        let (filter_name, extensions, ext) = get_file_info_from_mime_type(mime);
        let bytes = match decode_data_url(src) {
            Ok(b) => b,
            Err(e) => return Err(e),
        };
        let mut file_name = String::new();
        text::push_str(&mut file_name, "image.");
        text::push_str(&mut file_name, ext);
        Ok(SavePlan::Write { bytes, filter_name, extensions, file_name })
    } else if is_web(src) {
        Ok(SavePlan::Download)
    } else {
        Err(ImageActionError::Unsupported)
    }
}

/// The MIME type a URL's file extension stands for, when no content type
/// came with the download; the empty text for an unknown extension.
pub open spec fn mime_for_url_extension(ext: Seq<char>) -> Seq<char> {
    if ext == "jpg"@ || ext == "jpeg"@ {
        "image/jpeg"@
    } else if ext == "png"@ {
        "image/png"@
    } else if ext == "gif"@ {
        "image/gif"@
    } else if ext == "webp"@ {
        "image/webp"@
    } else if ext == "svg"@ {
        "image/svg+xml"@
    } else if ext == "bmp"@ {
        "image/bmp"@
    } else {
        ""@
    }
}

fn mime_of_url_extension(ext: &str) -> (r: &'static str)
    ensures
        r@ == mime_for_url_extension(ext@),
{
    if str_equals(ext, "jpg") || str_equals(ext, "jpeg") {
        "image/jpeg"
    } else if str_equals(ext, "png") {
        "image/png"
    } else if str_equals(ext, "gif") {
        "image/gif"
    } else if str_equals(ext, "webp") {
        "image/webp"
    } else if str_equals(ext, "svg") {
        "image/svg+xml"
    } else if str_equals(ext, "bmp") {
        "image/bmp"
    } else {
        ""
    }
}

/// The MIME type a downloaded image is saved as: the response's content
/// type, else the one its URL's extension stands for.
pub open spec fn downloaded_mime(url: Seq<char>, content_type: Option<Seq<char>>) -> Option<Seq<char>> {
    match content_type {
        Some(c) => Some(c),
        None => match url_extension(url) {
            Some(e) => Some(mime_for_url_extension(e)),
            None => None,
        },
    }
}

/// The save dialog's filter and file name for an image downloaded from
/// `src` with the response's content type: the URL's file name, or
/// `image.<ext>`.
pub fn downloaded_save_info(src: &str, content_type: Option<&str>) -> (r: (&'static str, Vec<&'static str>, String))
    ensures
        ({
            let info = file_info_for_mime(
                downloaded_mime(
                    src@,
                    match content_type {
                        Some(c) => Some(c@),
                        None => None,
                    },
                ),
            );
            &&& r.0@ == info.0
            &&& strs_view(r.1@) == info.1
            &&& r.2@ == match url_file_name(src@) {
                Some(f) => f,
                None => "image."@ + info.2,
            }
        }),
{
    let mime: Option<&str> = match content_type {
        Some(c) => Some(c),
        None => match extract_extension_from_url(src) {
            Some(e) => Some(mime_of_url_extension(e)),
            None => None,
        },
    };
    let (filter_name, extensions, ext) = get_file_info_from_mime_type(mime);
    let file_name = match extract_filename_from_url(src) {
        Some(f) => f,
        None => {
            let mut f = String::new();
            text::push_str(&mut f, "image.");
            text::push_str(&mut f, ext);
            f
        },
    };
    (filter_name, extensions, file_name)
}

/// The MIME type in a `Content-Type` header: the part before any `;`,
/// without surrounding whitespace.
pub open spec fn content_type_essence_of(header: Seq<char>) -> Seq<char> {
    text::trim(text::before_first(header, ';'))
}

/// Reads the MIME type out of a `Content-Type` header.
pub fn content_type_essence(header: &str) -> (r: String)
    ensures
        r@ == content_type_essence_of(header@),
{
    let v = chars_of(header);
    let n = v.len();
    let end = before_first_bound(&v, ';', n);
    assert(v@.subrange(0, n as int) =~= v@);
    let (a, b) = text::trim_bounds(&v, 0, end);
    string_of(&v, a, b)
}

} // verus!

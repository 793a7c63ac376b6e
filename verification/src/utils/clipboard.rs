//! What copying an image to the clipboard takes: the image's bytes, which
//! a data URL holds and a web image must be downloaded for. SVG images are
//! refused: they cannot be put on the clipboard as pixels.
//!
//! Downloading, decoding the pixels and the clipboard itself are the
//! application's part.

use vstd::prelude::*;
use crate::text;
use crate::text::{before_first_bound, chars_of, matches_at, str_equals};
use crate::utils::image::{
    data_url_bytes, data_url_mime_type, extract_mime_type_from_data_url, is_web_url, ImageActionError,
    ImageActionErrorView,
};

verus! {

broadcast use vstd::string::group_string_axioms;

/// What copying an image takes.
#[derive(Debug, PartialEq, Eq)]
pub enum CopyPlan {
    /// Copy these image bytes.
    Bytes(Vec<u8>),
    /// Download the image first, then check its content type with
    /// `accept_downloaded_image`.
    Download,
}

/// Whether a web URL's path (before any `?`) ends in `.svg`.
pub open spec fn url_names_svg(url: Seq<char>) -> bool {
    text::has_suffix(text::before_first(url, '?'), ".svg"@)
}

fn names_svg(url: &str) -> (r: bool)
    ensures
        r == url_names_svg(url@),
{
    let v = chars_of(url);
    let n = v.len();
    let end = before_first_bound(&v, '?', n);
    assert(v@.subrange(0, n as int) =~= v@);
    let suffix = chars_of(".svg");
    proof {
        reveal_strlit(".svg");
    }
    if end < 4 {
        return false;
    }
    let path = crate::utils::image::slice_vec(&v, 0, end);
    matches_at(&path, end - 4, &suffix)
}

/// Decides how to copy the image at `src`: a data URL's bytes are decoded
/// here (an SVG one is refused); a web image must be downloaded (one whose
/// path ends in `.svg` is refused); any other source is refused.
pub fn plan_copy_image(src: &str) -> (r: Result<CopyPlan, ImageActionError>)
    ensures
        text::has_prefix(src@, "data:"@) ==> (if data_url_mime_type(src@) == Some("image/svg+xml"@) {
            r == Err::<CopyPlan, ImageActionError>(ImageActionError::Svg)
        } else {
            match r {
                Ok(CopyPlan::Bytes(b)) => data_url_bytes(src@) == Ok::<Seq<u8>, ImageActionErrorView>(b@),
                Ok(CopyPlan::Download) => false,
                Err(e) => data_url_bytes(src@) == Err::<Seq<u8>, ImageActionErrorView>(e@),
            }
        }),
        !text::has_prefix(src@, "data:"@) && is_web_url(src@) ==> r == (if url_names_svg(src@) {
            Err::<CopyPlan, ImageActionError>(ImageActionError::Svg)
        } else {
            Ok::<CopyPlan, ImageActionError>(CopyPlan::Download)
        }),
        !text::has_prefix(src@, "data:"@) && !is_web_url(src@) ==> r == Err::<CopyPlan, ImageActionError>(
            ImageActionError::Unsupported,
        ),
{
    if text::starts_with(src, "data:") {
        let is_svg = match extract_mime_type_from_data_url(src) {
            Some(m) => str_equals(m, "image/svg+xml"),
            None => false,
        };
        if is_svg {
            return Err(ImageActionError::Svg);
        }
        match crate::utils::image::decode_data_url(src) {
            Ok(b) => Ok(CopyPlan::Bytes(b)),
            Err(e) => Err(e),
        }
    } else if text::starts_with(src, "http://") || text::starts_with(src, "https://") {
        if names_svg(src) {
            Err(ImageActionError::Svg)
        } else {
            Ok(CopyPlan::Download)
        }
    } else {
        Err(ImageActionError::Unsupported)
    }
}

/// Checks a downloaded image's content type before copying: an SVG image is
/// refused.
pub fn accept_downloaded_image(content_type: Option<&str>) -> (r: Result<(), ImageActionError>)
    ensures
        r == if content_type matches Some(c) && c@ == "image/svg+xml"@ {
            Err::<(), ImageActionError>(ImageActionError::Svg)
        } else {
            Ok::<(), ImageActionError>(())
        },
{
    match content_type {
        Some(c) => if str_equals(c, "image/svg+xml") {
            Err(ImageActionError::Svg)
        } else {
            Ok(())
        },
        None => Ok(()),
    }
}

} // verus!

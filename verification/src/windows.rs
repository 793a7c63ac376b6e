//! Ids and titles of the windows that show one diagram, formula or image:
//! a window is found again by its id, so the same content opens once.

use vstd::prelude::*;
use vstd::string::StringSliceAdditionalSpecFns;
use crate::paths;
use crate::paths::file_name;
use crate::text;
use crate::text::{after_last_bound, before_first_end, chars_of, push_char, push_str, starts_with, string_of};

verus! {

broadcast use vstd::string::group_string_axioms;

/// The SHA-256 digest of `data`.
pub uninterp spec fn sha256_digest(data: Seq<u8>) -> Seq<u8>;

/// Calls `sha2`'s `Digest::digest` for `Sha256`. The digest is a function of
/// the bytes, named `sha256_digest`; its output type holds 32 bytes.
#[verifier::external_body]
fn sha256(data: &[u8]) -> (r: Vec<u8>)
    ensures
        r@ == sha256_digest(data@),
        r@.len() == 32,
{
    <sha2::Sha256 as sha2::Digest>::digest(data).to_vec()
}

/// The lower-case hexadecimal digit for `d` (below 16).
pub open spec fn hex_digit(d: int) -> char {
    "0123456789abcdef"@[d]
}

/// Lower-case hexadecimal of `bytes`, two digits each, as `{:x}` writes a digest.
pub open spec fn hex(bytes: Seq<u8>) -> Seq<char>
    decreases bytes.len(),
{
    if bytes.len() == 0 {
        Seq::empty()
    } else {
        hex(bytes.drop_last()) + seq![hex_digit((bytes.last() / 16) as int), hex_digit((bytes.last() % 16) as int)]
    }
}

/// Two digits for each byte, each a lower-case hexadecimal digit.
pub proof fn lemma_hex_digits(bytes: Seq<u8>)
    ensures
        hex(bytes).len() == 2 * bytes.len(),
        forall|i: int| 0 <= i < hex(bytes).len() ==> "0123456789abcdef"@.contains(#[trigger] hex(bytes)[i]),
    decreases bytes.len(),
{
    reveal_strlit("0123456789abcdef");
    if bytes.len() > 0 {
        let prev = bytes.drop_last();
        lemma_hex_digits(prev);
        let b = bytes.last();
        let h = hex(bytes);
        assert forall|i: int| 0 <= i < h.len() implies "0123456789abcdef"@.contains(#[trigger] h[i]) by {
            if i < hex(prev).len() {
                assert(h[i] == hex(prev)[i]);
            } else if i == hex(prev).len() {
                assert(h[i] == "0123456789abcdef"@[(b / 16) as int]);
            } else {
                assert(h[i] == "0123456789abcdef"@[(b % 16) as int]);
            }
        }
    }
}

/// The first 16 hexadecimal digits of the SHA-256 digest of `data`.
pub open spec fn short_hash(data: Seq<u8>) -> Seq<char> {
    hex(sha256_digest(data).take(8))
}

/// The first 16 hexadecimal digits of `digest`.
fn short_hex(digest: &Vec<u8>) -> (r: String)
    requires
        digest@.len() >= 8,
    ensures
        r@ == hex(digest@.take(8)),
{
    let digits = chars_of("0123456789abcdef");
    proof {
        reveal_strlit("0123456789abcdef");
    }
    assert(digits@.len() == 16);
    let mut s = String::new();
    let mut i: usize = 0;
    while i < 8
        invariant
            i <= 8 <= digest@.len(),
            digits@ == "0123456789abcdef"@,
            digits@.len() == 16,
            s@ == hex(digest@.take(i as int)),
        decreases 8 - i,
    {
        let b = digest[i];
        assert(digest@.take(i + 1).drop_last() =~= digest@.take(i as int));
        push_char(&mut s, digits[(b / 16) as usize]);
        push_char(&mut s, digits[(b % 16) as usize]);
        i += 1;
    }
    s
}

/// Generates the id of a math window from the LaTeX source: `math:` and the
/// first 16 hexadecimal digits of the source's SHA-256.
pub fn generate_math_id(source: &str) -> (r: String)
    ensures
        r@ == "math:"@ + short_hash(source.spec_bytes()),
        r@.len() == 21,
{
    let digest = sha256(source.as_bytes());
    proof {
        lemma_hex_digits(digest@.take(8));
        reveal_strlit("math:");
    }
    let h = short_hex(&digest);
    let mut s = String::new();
    push_str(&mut s, "math:");
    push_str(&mut s, h.as_str());
    s
}

/// Generates the id of a diagram window from the Mermaid source: the first
/// 16 hexadecimal digits of the source's SHA-256.
pub fn generate_diagram_id(source: &str) -> (r: String)
    ensures
        r@ == short_hash(source.spec_bytes()),
        r@.len() == 16,
        forall|i: int| 0 <= i < r@.len() ==> "0123456789abcdef"@.contains(#[trigger] r@[i]),
{
    let digest = sha256(source.as_bytes());
    proof {
        lemma_hex_digits(digest@.take(8));
    }
    short_hex(&digest)
}

/// Whether a URL points to the web (`http://` or `https://`).
pub open spec fn is_web_url(url: Seq<char>) -> bool {
    text::has_prefix(url, "http://"@) || text::has_prefix(url, "https://"@)
}

fn is_web(url: &str) -> (r: bool)
    ensures
        r == is_web_url(url@),
{
    starts_with(url, "http://") || starts_with(url, "https://")
}

/// The key under which an image window is found again: the image's file
/// path when there is one, the URL of a web image, and otherwise the first 16
/// hexadecimal digits of the SHA-256 of the source's first 1024 bytes.
pub open spec fn image_dedup_key(src: &str, original_src: Option<&str>) -> Seq<char> {
    if original_src matches Some(p) && p@.len() > 0 {
        "image:"@ + original_src->0@
    } else if is_web_url(src@) {
        "image:"@ + src@
    } else {
        let bytes = src.spec_bytes();
        "image:"@ + short_hash(bytes.take(if bytes.len() < 1024 { bytes.len() as int } else { 1024 }))
    }
}

/// Computes the deduplication key of an image window.
pub fn compute_image_dedup_key(src: &str, original_src: Option<&str>) -> (r: String)
    ensures
        r@ == image_dedup_key(src, original_src),
        !(original_src matches Some(p) && p@.len() > 0) && !is_web_url(src@) ==> {
            &&& r@.len() == 22
            &&& forall|i: int| 6 <= i < 22 ==> "0123456789abcdef"@.contains(#[trigger] r@[i])
        },
{
    let mut key = String::new();
    push_str(&mut key, "image:");
    if let Some(path) = original_src {
        if !path.is_empty() {
            push_str(&mut key, path);
            return key;
        }
    }
    if is_web(src) {
        push_str(&mut key, src);
        return key;
    }
    let bytes = src.as_bytes();
    let n = bytes.len();
    let k = if n < 1024 {
        n
    } else {
        1024
    };
    let mut head: Vec<u8> = Vec::new();
    let mut i: usize = 0;
    while i < k
        invariant
            i <= k <= bytes@.len(),
            head@ == bytes@.take(i as int),
        decreases k - i,
    {
        head.push(bytes[i]);
        i += 1;
        assert(head@ =~= bytes@.take(i as int));
    }
    let digest = sha256(head.as_slice());
    let h = short_hex(&digest);
    proof {
        lemma_hex_digits(digest@.take(8));
        reveal_strlit("image:");
    }
    let ghost before = key@;
    push_str(&mut key, h.as_str());
    assert forall|i: int| 6 <= i < 22 implies "0123456789abcdef"@.contains(#[trigger] key@[i]) by {
        assert(key@[i] == h@[i - 6]);
    }
    key
}

/// The title of an image window: the file name of the image's path, else
/// the file name in a web URL (after its last `/`, before any `?`), else a
/// fixed title.
pub open spec fn image_title(src: Seq<char>, original_src: Option<Seq<char>>) -> Seq<char> {
    let from_path = match original_src {
        Some(p) => paths::std_file_name(p),
        None => None,
    };
    let segment = text::before_first(text::after_last(src, '/'), '?');
    if from_path is Some {
        from_path->0 + " - Image Viewer"@
    } else if is_web_url(src) && segment.len() > 0 {
        segment + " - Image Viewer"@
    } else {
        "Image Viewer - Arto"@
    }
}

/// Extracts the title of an image window.
pub fn extract_image_title(src: &str, original_src: Option<&str>) -> (r: String)
    ensures
        r@ == image_title(
            src@,
            match original_src {
                Some(p) => Some(p@),
                None => None,
            },
        ),
{
    if let Some(path) = original_src {
        if let Some(name) = file_name(path) {
            let mut s = name;
            push_str(&mut s, " - Image Viewer");
            return s;
        }
    }
    if is_web(src) {
        let v = chars_of(src);
        let n = v.len();
        let a = after_last_bound(&v, '/', 0, n);
        assert(v@.subrange(0, n as int) =~= v@);
        let b = before_first_end(&v, '?', a, n);
        if a < b {
            let mut s = string_of(&v, a, b);
            push_str(&mut s, " - Image Viewer");
            return s;
        }
    }
    "Image Viewer - Arto".to_owned()
}

} // verus!

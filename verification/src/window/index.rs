//! The HTML pages the application's windows load; the theme is given as
//! the name it resolved to (`light` or `dark`).

use vstd::prelude::*;
use crate::text::push_str;
use crate::windows::hex_digit;

verus! {

broadcast use vstd::string::group_string_axioms;

/// The page of a main window.
pub open spec fn custom_index(theme: Seq<char>) -> Seq<char> {
    "<!DOCTYPE html>\n<html>\n    <head>\n        <title>Arto</title>\n        <meta name=\"viewport\" content=\"width=device-width, initial-scale=1.0, maximum-scale=1.0, user-scalable=no\">\n        <!-- CUSTOM HEAD -->\n    </head>\n    <body data-theme=\""@
        + theme + "\">\n        <div id=\"main\"></div>\n        <!-- MODULE LOADER -->\n    </body>\n</html>\n"@
}

/// Builds the page of a main window.
pub fn build_custom_index(resolved_theme: &str) -> (r: String)
    ensures
        r@ == custom_index(resolved_theme@),
{
    let mut s = String::new();
    push_str(
        &mut s,
        "<!DOCTYPE html>\n<html>\n    <head>\n        <title>Arto</title>\n        <meta name=\"viewport\" content=\"width=device-width, initial-scale=1.0, maximum-scale=1.0, user-scalable=no\">\n        <!-- CUSTOM HEAD -->\n    </head>\n    <body data-theme=\"",
    );
    push_str(&mut s, resolved_theme);
    push_str(
        &mut s,
        "\">\n        <div id=\"main\"></div>\n        <!-- MODULE LOADER -->\n    </body>\n</html>\n",
    );
    s
}

/// The page of a diagram window.
pub open spec fn mermaid_window_index(theme: Seq<char>) -> Seq<char> {
    "<!DOCTYPE html>\n<html>\n    <head>\n        <title>Mermaid Viewer - Arto</title>\n        <meta name=\"viewport\" content=\"width=device-width, initial-scale=1.0\">\n        <!-- CUSTOM HEAD -->\n    </head>\n    <body data-theme=\""@
        + theme + "\" class=\"mermaid-window-body\">\n        <div id=\"main\"></div>\n        <!-- MODULE LOADER -->\n    </body>\n</html>\n"@
}

/// Builds the page of a diagram window.
pub fn build_mermaid_window_index(resolved_theme: &str) -> (r: String)
    ensures
        r@ == mermaid_window_index(resolved_theme@),
{
    let mut s = String::new();
    push_str(
        &mut s,
        "<!DOCTYPE html>\n<html>\n    <head>\n        <title>Mermaid Viewer - Arto</title>\n        <meta name=\"viewport\" content=\"width=device-width, initial-scale=1.0\">\n        <!-- CUSTOM HEAD -->\n    </head>\n    <body data-theme=\"",
    );
    push_str(&mut s, resolved_theme);
    push_str(
        &mut s,
        "\" class=\"mermaid-window-body\">\n        <div id=\"main\"></div>\n        <!-- MODULE LOADER -->\n    </body>\n</html>\n",
    );
    s
}

/// How `serde_json` writes one character inside a JSON string: `"` and `\`
/// get a backslash; backspace, form feed, newline, carriage return and tab
/// become `\b`, `\f`, `\n`, `\r` and `\t`; any other character below
/// U+0020 becomes `\u00` and two lower-case hexadecimal digits; every other
/// character stays.
pub open spec fn json_escape_char(c: char) -> Seq<char> {
    if c == '"' {
        seq!['\\', '"']
    } else if c == '\\' {
        seq!['\\', '\\']
    } else if c == '\u{8}' {
        seq!['\\', 'b']
    } else if c == '\u{c}' {
        seq!['\\', 'f']
    } else if c == '\n' {
        seq!['\\', 'n']
    } else if c == '\r' {
        seq!['\\', 'r']
    } else if c == '\t' {
        seq!['\\', 't']
    } else if (c as u32) < 0x20 {
        seq!['\\', 'u', '0', '0', hex_digit(c as int / 16), hex_digit(c as int % 16)]
    } else {
        seq![c]
    }
}

/// `s` with each character written as `json_escape_char` gives it.
pub open spec fn json_escaped(s: Seq<char>) -> Seq<char>
    decreases s.len(),
{
    if s.len() == 0 {
        Seq::empty()
    } else {
        json_escaped(s.drop_last()) + json_escape_char(s.last())
    }
}

/// The text as `serde_json` writes it as a JSON string: in double quotes,
/// each character escaped as `json_escape_char` says.
pub open spec fn json_string(s: Seq<char>) -> Seq<char> {
    seq!['"'] + json_escaped(s) + seq!['"']
}

/// Calls `serde_json::to_string` on the text. Serializing a `str` cannot
/// fail; its source writes a double quote, each character escaped by its
/// `ESCAPE` table and `write_char_escape` (which `json_escape_char` states),
/// and a closing double quote.
#[verifier::external_body]
fn to_json_string(s: &str) -> (r: String)
    ensures
        r@ == json_string(s@),
{
    serde_json::to_string(s).unwrap_or_default()
}

/// The page of an image window: the image's data URL is handed to the
/// page's script as a JSON string.
pub open spec fn image_window_index(theme: Seq<char>, data_url: Seq<char>) -> Seq<char> {
    "<!DOCTYPE html>\n<html>\n    <head>\n        <title>Image Viewer - Arto</title>\n        <meta name=\"viewport\" content=\"width=device-width, initial-scale=1.0\">\n        <!-- CUSTOM HEAD -->\n    </head>\n    <body data-theme=\""@
        + theme + "\" class=\"image-window-body\">\n        <div id=\"main\"></div>\n        <script>window._imageDataUrl = "@
        + json_string(data_url) + ";</script>\n        <!-- MODULE LOADER -->\n    </body>\n</html>\n"@
}

/// Builds the page of an image window.
pub fn build_image_window_index(resolved_theme: &str, image_data_url: &str) -> (r: String)
    ensures
        r@ == image_window_index(resolved_theme@, image_data_url@),
{
    let escaped = to_json_string(image_data_url);
    let mut s = String::new();
    push_str(
        &mut s,
        "<!DOCTYPE html>\n<html>\n    <head>\n        <title>Image Viewer - Arto</title>\n        <meta name=\"viewport\" content=\"width=device-width, initial-scale=1.0\">\n        <!-- CUSTOM HEAD -->\n    </head>\n    <body data-theme=\"",
    );
    push_str(&mut s, resolved_theme);
    push_str(
        &mut s,
        "\" class=\"image-window-body\">\n        <div id=\"main\"></div>\n        <script>window._imageDataUrl = ",
    );
    push_str(&mut s, escaped.as_str());
    push_str(&mut s, ";</script>\n        <!-- MODULE LOADER -->\n    </body>\n</html>\n");
    s
}

} // verus!

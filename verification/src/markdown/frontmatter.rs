//! YAML frontmatter: found at the top of a document, shown as a table.
//!
//! This module finds the frontmatter, parses its YAML (through
//! `serde_yaml`) and renders the parsed value.

use vstd::prelude::*;
use crate::text;
use crate::text::{
    chars_of, count_chars_in, encode_text, find_from, matches_at, push_str, string_of, trim_bounds,
    trim_start_from,
};

verus! {

broadcast use vstd::string::group_string_axioms;

/// A parsed YAML value, as the frontmatter table shows it. A tagged value is
/// given as the value it tags.
#[derive(Debug, PartialEq, Eq)]
pub enum Yaml {
    /// `null` or an empty value.
    Null,
    /// `true` or `false`.
    Bool(bool),
    /// A number, as YAML writes it.
    Number(String),
    /// A string.
    Str(String),
    /// A list.
    Sequence(Vec<Yaml>),
    /// A mapping, in document order.
    Mapping(Vec<(Yaml, Yaml)>),
}

/// The mathematical value of a YAML value: texts as character sequences.
pub enum YamlView {
    Null,
    Bool(bool),
    Number(Seq<char>),
    Str(Seq<char>),
    Sequence(Seq<YamlView>),
    Mapping(Seq<(YamlView, YamlView)>),
}

/// The view of a YAML value.
pub open spec fn yaml_view(v: Yaml) -> YamlView
    decreases v,
{
    match v {
        Yaml::Null => YamlView::Null,
        Yaml::Bool(b) => YamlView::Bool(b),
        Yaml::Number(n) => YamlView::Number(n@),
        Yaml::Str(s) => YamlView::Str(s@),
        Yaml::Sequence(items) => YamlView::Sequence(yaml_views(items@)),
        Yaml::Mapping(entries) => YamlView::Mapping(entry_views(entries@)),
    }
}

/// The view of each value of a list.
pub open spec fn yaml_views(items: Seq<Yaml>) -> Seq<YamlView>
    decreases items,
{
    if items.len() == 0 {
        Seq::empty()
    } else {
        yaml_views(items.drop_last()).push(yaml_view(items.last()))
    }
}

/// The view of each entry of a mapping.
pub open spec fn entry_views(entries: Seq<(Yaml, Yaml)>) -> Seq<(YamlView, YamlView)>
    decreases entries,
{
    if entries.len() == 0 {
        Seq::empty()
    } else {
        entry_views(entries.drop_last()).push((yaml_view(entries.last().0), yaml_view(entries.last().1)))
    }
}

/// The view of an optional YAML value.
pub open spec fn yaml_view_opt(v: Option<Yaml>) -> Option<YamlView> {
    match v {
        Some(y) => Some(yaml_view(y)),
        None => None,
    }
}

/// `true` or `false`.
pub open spec fn bool_text(b: bool) -> Seq<char> {
    if b {
        "true"@
    } else {
        "false"@
    }
}

/// A YAML value as plain text: scalars as written, lists joined by `, `,
/// mappings as `[object]`.
pub open spec fn yaml_text(v: YamlView) -> Seq<char>
    decreases v,
{
    match v {
        YamlView::Null => "null"@,
        YamlView::Bool(b) => bool_text(b),
        YamlView::Number(n) => n,
        YamlView::Str(s) => s,
        YamlView::Sequence(items) => text::join(yaml_texts(items), ", "@),
        YamlView::Mapping(_) => "[object]"@,
    }
}

/// `yaml_text` of each item.
pub open spec fn yaml_texts(items: Seq<YamlView>) -> Seq<Seq<char>>
    decreases items,
{
    if items.len() == 0 {
        Seq::empty()
    } else {
        yaml_texts(items.drop_last()).push(yaml_text(items.last()))
    }
}

/// The HTML for one YAML value in the frontmatter table.
pub open spec fn yaml_html(v: YamlView) -> Seq<char>
    decreases v,
{
    match v {
        YamlView::Null => "<span class=\"yaml-null\">null</span>"@,
        YamlView::Bool(b) => "<span class=\"yaml-bool\">"@ + bool_text(b) + "</span>"@,
        YamlView::Number(n) => "<span class=\"yaml-number\">"@ + n + "</span>"@,
        YamlView::Str(s) => text::escape_text(s),
        YamlView::Sequence(items) => if items.len() == 0 {
            "<span class=\"yaml-empty\">[]</span>"@
        } else {
            "<ul class=\"yaml-list\">"@ + list_items_html(items) + "</ul>"@
        },
        YamlView::Mapping(entries) => if entries.len() == 0 {
            "<span class=\"yaml-empty\">{{}}</span>"@
        } else {
            "<table class=\"yaml-nested-table\"><tbody>"@ + nested_rows_html(entries) + "</tbody></table>"@
        },
    }
}

/// The `<li>` items of a YAML list.
pub open spec fn list_items_html(items: Seq<YamlView>) -> Seq<char>
    decreases items,
{
    if items.len() == 0 {
        Seq::empty()
    } else {
        list_items_html(items.drop_last()) + "<li>"@ + yaml_html(items.last()) + "</li>"@
    }
}

/// The rows of a nested YAML mapping.
pub open spec fn nested_rows_html(entries: Seq<(YamlView, YamlView)>) -> Seq<char>
    decreases entries,
{
    if entries.len() == 0 {
        Seq::empty()
    } else {
        nested_rows_html(entries.drop_last()) + "<tr><th>"@ + text::escape_text(yaml_text(entries.last().0))
            + "</th><td>"@ + yaml_html(entries.last().1) + "</td></tr>"@
    }
}

/// The rows of the frontmatter table, one line each.
pub open spec fn table_rows_html(entries: Seq<(YamlView, YamlView)>) -> Seq<char>
    decreases entries.len(),
{
    if entries.len() == 0 {
        Seq::empty()
    } else {
        table_rows_html(entries.drop_last()) + "<tr><th>"@ + text::escape_text(yaml_text(entries.last().0))
            + "</th><td>"@ + yaml_html(entries.last().1) + "</td></tr>\n"@
    }
}

/// The frontmatter table for a parsed value: a collapsible table of the
/// top-level mapping; nothing when the value is not a non-empty mapping.
pub open spec fn frontmatter_table(v: YamlView) -> Seq<char> {
    match v {
        YamlView::Mapping(entries) => if entries.len() == 0 {
            Seq::empty()
        } else {
            "<details class=\"frontmatter\">\n<summary class=\"frontmatter-summary\">Frontmatter</summary>\n<table class=\"frontmatter-table\">\n<tbody>\n"@
                + table_rows_html(entries) + "\n</tbody>\n</table>\n</details>"@
        },
        _ => Seq::empty(),
    }
}

proof fn lemma_item_decreases(v: Yaml, items: Vec<Yaml>, i: int)
    requires
        v == Yaml::Sequence(items),
        0 <= i < items@.len(),
    ensures
        decreases_to!(v => items@[i]),
{
    assert(decreases_to!(v => v->Sequence_0));
    assert(decreases_to!(items => items@));
    assert(decreases_to!(items@ => items@[i]));
}

proof fn lemma_entry_decreases(v: Yaml, entries: Vec<(Yaml, Yaml)>, i: int)
    requires
        v == Yaml::Mapping(entries),
        0 <= i < entries@.len(),
    ensures
        decreases_to!(v => entries@[i].0),
        decreases_to!(v => entries@[i].1),
{
    assert(decreases_to!(v => v->Mapping_0));
    assert(decreases_to!(entries => entries@));
    assert(decreases_to!(entries@ => entries@[i]));
    assert(decreases_to!(entries@[i] => entries@[i].0));
    assert(decreases_to!(entries@[i] => entries@[i].1));
}

fn push_bool(s: &mut String, b: bool)
    ensures
        final(s)@ == old(s)@ + bool_text(b),
{
    if b {
        push_str(s, "true");
    } else {
        push_str(s, "false");
    }
}

/// Converts a YAML value to a string representation.
pub fn yaml_to_string(value: &Yaml) -> (r: String)
    ensures
        r@ == yaml_text(yaml_view(*value)),
    decreases value,
{
    match value {
        Yaml::Null => "null".to_owned(),
        Yaml::Bool(b) => {
            let mut s = String::new();
            push_bool(&mut s, *b);
            s
        },
        Yaml::Number(n) => n.clone(),
        Yaml::Str(s) => s.clone(),
        Yaml::Sequence(items) => {
            let mut parts: Vec<String> = Vec::new();
            let mut i: usize = 0;
            while i < items.len()
                invariant
                    i <= items@.len(),
                    *value == Yaml::Sequence(*items),
                    parts@.map_values(|p: String| p@) == yaml_texts(yaml_views(items@.take(i as int))),
                decreases items@.len() - i,
            {
                proof {
                    lemma_item_decreases(*value, *items, i as int);
                }
                let t = yaml_to_string(&items[i]);
                let ghost before = parts@;
                parts.push(t);
                assert(items@.take(i + 1).drop_last() =~= items@.take(i as int));
                assert(items@.take(i + 1).last() == items@[i as int]);
                assert(yaml_views(items@.take(i + 1)) == yaml_views(items@.take(i as int)).push(yaml_view(items@[i as int])));
                assert(yaml_views(items@.take(i as int)).push(yaml_view(items@[i as int])).drop_last() =~= yaml_views(items@.take(i as int)));
                assert(parts@.map_values(|p: String| p@) =~= before.map_values(|p: String| p@).push(
                    yaml_text(yaml_view(items@[i as int])),
                ));
                i += 1;
            }
            assert(items@.take(items@.len() as int) =~= items@);
            text::join_strings(&parts, ", ")
        },
        Yaml::Mapping(_) => "[object]".to_owned(),
    }
}

/// Renders a YAML value as HTML, lists and mappings as nested elements.
pub fn render_yaml_value(value: &Yaml) -> (r: String)
    ensures
        r@ == yaml_html(yaml_view(*value)),
    decreases value,
{
    match value {
        Yaml::Null => "<span class=\"yaml-null\">null</span>".to_owned(),
        Yaml::Bool(b) => {
            let mut s = String::new();
            push_str(&mut s, "<span class=\"yaml-bool\">");
            push_bool(&mut s, *b);
            push_str(&mut s, "</span>");
            s
        },
        Yaml::Number(n) => {
            let mut s = String::new();
            push_str(&mut s, "<span class=\"yaml-number\">");
            push_str(&mut s, n.as_str());
            push_str(&mut s, "</span>");
            s
        },
        Yaml::Str(t) => encode_text(t.as_str()),
        Yaml::Sequence(items) => {
            if items.len() == 0 {
                return "<span class=\"yaml-empty\">[]</span>".to_owned();
            }
            let mut body = String::new();
            let mut i: usize = 0;
            while i < items.len()
                invariant
                    i <= items@.len(),
                    *value == Yaml::Sequence(*items),
                    body@ == list_items_html(yaml_views(items@.take(i as int))),
                decreases items@.len() - i,
            {
                proof {
                    lemma_item_decreases(*value, *items, i as int);
                }
                let item = render_yaml_value(&items[i]);
                push_str(&mut body, "<li>");
                push_str(&mut body, item.as_str());
                push_str(&mut body, "</li>");
                assert(items@.take(i + 1).drop_last() =~= items@.take(i as int));
                assert(items@.take(i + 1).last() == items@[i as int]);
                assert(yaml_views(items@.take(i + 1)) == yaml_views(items@.take(i as int)).push(yaml_view(items@[i as int])));
                assert(yaml_views(items@.take(i as int)).push(yaml_view(items@[i as int])).drop_last() =~= yaml_views(items@.take(i as int)));
                i += 1;
            }
            assert(items@.take(items@.len() as int) =~= items@);
            let mut s = String::new();
            push_str(&mut s, "<ul class=\"yaml-list\">");
            push_str(&mut s, body.as_str());
            push_str(&mut s, "</ul>");
            s
        },
        Yaml::Mapping(entries) => {
            if entries.len() == 0 {
                return "<span class=\"yaml-empty\">{{}}</span>".to_owned();
            }
            let mut body = String::new();
            let mut i: usize = 0;
            while i < entries.len()
                invariant
                    i <= entries@.len(),
                    *value == Yaml::Mapping(*entries),
                    body@ == nested_rows_html(entry_views(entries@.take(i as int))),
                decreases entries@.len() - i,
            {
                proof {
                    lemma_entry_decreases(*value, *entries, i as int);
                }
                let key = yaml_to_string(&entries[i].0);
                let key_html = encode_text(key.as_str());
                let val = render_yaml_value(&entries[i].1);
                push_str(&mut body, "<tr><th>");
                push_str(&mut body, key_html.as_str());
                push_str(&mut body, "</th><td>");
                push_str(&mut body, val.as_str());
                push_str(&mut body, "</td></tr>");
                assert(entries@.take(i + 1).drop_last() =~= entries@.take(i as int));
                assert(entries@.take(i + 1).last() == entries@[i as int]);
                assert(entry_views(entries@.take(i + 1)) == entry_views(entries@.take(i as int)).push((yaml_view(entries@[i as int].0), yaml_view(entries@[i as int].1))));
                assert(entry_views(entries@.take(i as int)).push((yaml_view(entries@[i as int].0), yaml_view(entries@[i as int].1))).drop_last() =~= entry_views(entries@.take(i as int)));
                i += 1;
            }
            assert(entries@.take(entries@.len() as int) =~= entries@);
            let mut s = String::new();
            push_str(&mut s, "<table class=\"yaml-nested-table\"><tbody>");
            push_str(&mut s, body.as_str());
            push_str(&mut s, "</tbody></table>");
            s
        },
    }
}

/// Renders YAML frontmatter as an HTML table.
pub fn render_frontmatter_table(yaml: &Yaml) -> (r: String)
    ensures
        r@ == frontmatter_table(yaml_view(*yaml)),
{
    match yaml {
        Yaml::Mapping(entries) => {
            if entries.len() == 0 {
                return String::new();
            }
            let mut rows = String::new();
            let mut i: usize = 0;
            while i < entries.len()
                invariant
                    i <= entries@.len(),
                    rows@ == table_rows_html(entry_views(entries@.take(i as int))),
                decreases entries@.len() - i,
            {
                let key = yaml_to_string(&entries[i].0);
                let key_html = encode_text(key.as_str());
                let val = render_yaml_value(&entries[i].1);
                push_str(&mut rows, "<tr><th>");
                push_str(&mut rows, key_html.as_str());
                push_str(&mut rows, "</th><td>");
                push_str(&mut rows, val.as_str());
                push_str(&mut rows, "</td></tr>\n");
                assert(entries@.take(i + 1).drop_last() =~= entries@.take(i as int));
                assert(entries@.take(i + 1).last() == entries@[i as int]);
                assert(entry_views(entries@.take(i + 1)) == entry_views(entries@.take(i as int)).push((yaml_view(entries@[i as int].0), yaml_view(entries@[i as int].1))));
                assert(entry_views(entries@.take(i as int)).push((yaml_view(entries@[i as int].0), yaml_view(entries@[i as int].1))).drop_last() =~= entry_views(entries@.take(i as int)));
                i += 1;
            }
            assert(entries@.take(entries@.len() as int) =~= entries@);
            let mut s = String::new();
            push_str(
                &mut s,
                "<details class=\"frontmatter\">\n<summary class=\"frontmatter-summary\">Frontmatter</summary>\n<table class=\"frontmatter-table\">\n<tbody>\n",
            );
            push_str(&mut s, rows.as_str());
            push_str(&mut s, "\n</tbody>\n</table>\n</details>");
            s
        },
        _ => String::new(),
    }
}

// ---------------------------------------------------------------------------
// Finding the frontmatter
// ---------------------------------------------------------------------------

/// Where the closing delimiter of the frontmatter starts: the document opens
/// with `---`, and the first later `\n---` closes it.
pub open spec fn frontmatter_close(md: Seq<char>) -> Option<int> {
    if text::has_prefix(md, "---"@) {
        text::first_occurrence_from(md, "\n---"@, 3)
    } else {
        None
    }
}

/// The YAML text between the delimiters, without surrounding whitespace.
pub open spec fn frontmatter_yaml(md: Seq<char>, close: int) -> Seq<char> {
    text::trim(md.subrange(3, close))
}

/// The document after the closing delimiter, without leading whitespace.
pub open spec fn frontmatter_content(md: Seq<char>, close: int) -> Seq<char> {
    text::trim_start(md.subrange(close + 4, md.len() as int))
}

/// The number of lines the frontmatter takes, delimiters and the whitespace
/// after it included: the line breaks before the content.
pub open spec fn frontmatter_lines(md: Seq<char>, close: int) -> nat {
    text::count_char(
        md.subrange(0, md.len() - frontmatter_content(md, close).len()),
        '\n',
    )
}

/// Counts the line breaks in `v[0..to]`.
fn count_newlines(v: &Vec<char>, to: usize) -> (n: usize)
    requires
        to <= v@.len(),
    ensures
        n == text::count_char(v@.subrange(0, to as int), '\n'),
{
    let mut n: usize = 0;
    let mut i: usize = 0;
    while i < to
        invariant
            i <= to <= v@.len(),
            n == text::count_char(v@.subrange(0, i as int), '\n'),
            n <= i,
        decreases to - i,
    {
        assert(v@.subrange(0, i + 1).drop_last() =~= v@.subrange(0, i as int));
        if v[i] == '\n' {
            n += 1;
        }
        i += 1;
    }
    n
}

/// Finds the closing delimiter of the frontmatter.
fn find_close(v: &Vec<char>) -> (r: Option<usize>)
    ensures
        r is Some <==> frontmatter_close(v@) is Some,
        r is Some ==> {
            &&& frontmatter_close(v@) == Some(r->0 as int)
            &&& 3 <= r->0
            &&& r->0 + 4 <= v@.len()
        },
{
    let open = chars_of("---");
    let close = chars_of("\n---");
    proof {
        reveal_strlit("---");
        reveal_strlit("\n---");
    }
    if !matches_at(v, 0, &open) {
        return None;
    }
    let r = find_from(v, &close, 3);
    match r {
        Some(c) => {
            assert(text::first_occurrence_from(v@, "\n---"@, 3) == Some(c as int)) by {
                let w = choose|i: int|
                    3 <= i && text::occurs_at(v@, i, "\n---"@) && forall|j: int|
                        3 <= j < i ==> !text::occurs_at(v@, j, "\n---"@);
                assert(3 <= c && text::occurs_at(v@, c as int, "\n---"@));
                if w < c {
                    assert(!text::occurs_at(v@, w, "\n---"@));
                }
                if c < w {
                    assert(!text::occurs_at(v@, c as int, "\n---"@));
                }
            }
            Some(c)
        },
        None => None,
    }
}

/// The YAML text of the frontmatter, for the parser: `None` when the
/// document has no frontmatter.
pub fn frontmatter_source(markdown: &str) -> (r: Option<String>)
    ensures
        match frontmatter_close(markdown@) {
            Some(c) => r matches Some(s) && s@ == frontmatter_yaml(markdown@, c),
            None => r is None,
        },
{
    let v = chars_of(markdown);
    match find_close(&v) {
        Some(c) => {
            let (a, b) = trim_bounds(&v, 3, c);
            Some(string_of(&v, a, b))
        },
        None => None,
    }
}

/// Extracts the frontmatter of `markdown` and renders it as an HTML table.
///
/// `parsed` is what the YAML parser made of `frontmatter_source(markdown)`,
/// `None` where it failed. Returns the table, the document after the
/// frontmatter, and the number of lines the frontmatter took; a document
/// without frontmatter, or whose frontmatter is not valid YAML, comes back
/// unchanged with no table and no lines.
pub fn extract_and_render_frontmatter(markdown: &str, parsed: Option<&Yaml>) -> (r: (
    String,
    String,
    usize,
))
    ensures
        match (frontmatter_close(markdown@), parsed) {
            (Some(c), Some(y)) => {
                &&& r.0@ == frontmatter_table(yaml_view(*y))
                &&& r.1@ == frontmatter_content(markdown@, c)
                &&& r.2 == frontmatter_lines(markdown@, c)
            },
            _ => r.0@ == Seq::<char>::empty() && r.1@ == markdown@ && r.2 == 0,
        },
{
    let v = chars_of(markdown);
    let close = find_close(&v);
    if close.is_none() || parsed.is_none() {
        return (String::new(), markdown.to_owned(), 0);
    }
    let c = close.unwrap();
    let y = parsed.unwrap();
    let n = v.len();
    assert(close == Some(c));
    let start = trim_start_from(&v, c + 4, n);
    let lines = count_newlines(&v, start);
    let html = render_frontmatter_table(y);
    let content = string_of(&v, start, v.len());
    assert(markdown@.len() - frontmatter_content(markdown@, c as int).len() == start);
    (html, content, lines)
}

/// Splitting off the frontmatter loses nothing: the part counted as
/// frontmatter lines, followed by the content, is the whole document.
pub proof fn frontmatter_split_is_exact(md: Seq<char>, close: int)
    requires
        frontmatter_close(md) == Some(close),
    ensures
        ({
            let content = frontmatter_content(md, close);
            &&& content.len() <= md.len() - close - 4
            &&& md.subrange(0, md.len() - content.len()) + content == md
        }),
{
    reveal_strlit("\n---");
    let after = md.subrange(close + 4, md.len() as int);
    text::lemma_first_occurrence(md, "\n---"@, 3);
    text::lemma_trim_start_is_tail(after);
    let content = frontmatter_content(md, close);
    assert(md.subrange(0, md.len() - content.len()) + content =~= md);
}

/// The texts of a list's items are in the list's order.
pub proof fn yaml_texts_in_order(a: Seq<YamlView>, b: Seq<YamlView>)
    ensures
        yaml_texts(a + b) == yaml_texts(a) + yaml_texts(b),
        yaml_texts(a).len() == a.len(),
        forall|k: int| 0 <= k < a.len() ==> #[trigger] yaml_texts(a)[k] == yaml_text(a[k]),
    decreases a.len() + b.len(),
{
    if b.len() == 0 {
        assert(a + b =~= a);
        if a.len() > 0 {
            yaml_texts_in_order(a.drop_last(), b);
            assert forall|k: int| 0 <= k < a.len() implies #[trigger] yaml_texts(a)[k] == yaml_text(a[k]) by {
                if k < a.len() - 1 {
                    assert(yaml_texts(a.drop_last())[k] == yaml_text(a.drop_last()[k]));
                }
            }
        }
    } else {
        yaml_texts_in_order(a, b.drop_last());
        assert((a + b).drop_last() =~= a + b.drop_last());
        assert((a + b).last() == b.last());
        assert(yaml_texts(a + b) =~= yaml_texts(a) + yaml_texts(b));
    }
}

/// A YAML list is shown item by item, in the list's order: the items of
/// `a` followed by those of `b` give the HTML of `a` followed by that of
/// `b`, and one item gives one `<li>` holding its value's HTML.
pub proof fn list_items_html_in_order(a: Seq<YamlView>, b: Seq<YamlView>, x: YamlView)
    ensures
        list_items_html(a + b) == list_items_html(a) + list_items_html(b),
        list_items_html(seq![x]) == "<li>"@ + yaml_html(x) + "</li>"@,
    decreases b.len(),
{
    assert(seq![x].drop_last() =~= Seq::<YamlView>::empty());
    assert(list_items_html(seq![x]) =~= "<li>"@ + yaml_html(x) + "</li>"@) by {
        assert(list_items_html(seq![x]) == list_items_html(seq![x].drop_last()) + "<li>"@ + yaml_html(seq![x].last())
            + "</li>"@);
    }
    if b.len() == 0 {
        assert(a + b =~= a);
    } else {
        list_items_html_in_order(a, b.drop_last(), x);
        assert((a + b).drop_last() =~= a + b.drop_last());
        assert((a + b).last() == b.last());
        assert(list_items_html(a + b) =~= list_items_html(a) + list_items_html(b));
    }
}

/// The rows of a nested mapping are shown entry by entry, in the mapping's
/// order; one entry gives one row with its key's text and its value's HTML.
pub proof fn nested_rows_html_in_order(a: Seq<(YamlView, YamlView)>, b: Seq<(YamlView, YamlView)>, x: (YamlView, YamlView))
    ensures
        nested_rows_html(a + b) == nested_rows_html(a) + nested_rows_html(b),
        nested_rows_html(seq![x]) == "<tr><th>"@ + text::escape_text(yaml_text(x.0)) + "</th><td>"@ + yaml_html(x.1)
            + "</td></tr>"@,
    decreases b.len(),
{
    assert(seq![x].drop_last() =~= Seq::<(YamlView, YamlView)>::empty());
    assert(nested_rows_html(seq![x]) =~= "<tr><th>"@ + text::escape_text(yaml_text(x.0)) + "</th><td>"@ + yaml_html(x.1) + "</td></tr>"@) by {
        assert(seq![x].last() == x);
        assert(nested_rows_html(seq![x]) == nested_rows_html(seq![x].drop_last()) + "<tr><th>"@ + text::escape_text(yaml_text(x.0))
            + "</th><td>"@ + yaml_html(x.1) + "</td></tr>"@);
    }
    if b.len() == 0 {
        assert(a + b =~= a);
    } else {
        nested_rows_html_in_order(a, b.drop_last(), x);
        assert((a + b).drop_last() =~= a + b.drop_last());
        assert((a + b).last() == b.last());
        assert(nested_rows_html(a + b) =~= nested_rows_html(a) + nested_rows_html(b));
    }
}

/// The frontmatter table has one line per top-level entry, in the
/// mapping's order; one entry gives one row with its key's text and its
/// value's HTML.
pub proof fn table_rows_html_in_order(a: Seq<(YamlView, YamlView)>, b: Seq<(YamlView, YamlView)>, x: (YamlView, YamlView))
    ensures
        table_rows_html(a + b) == table_rows_html(a) + table_rows_html(b),
        table_rows_html(seq![x]) == "<tr><th>"@ + text::escape_text(yaml_text(x.0)) + "</th><td>"@ + yaml_html(x.1)
            + "</td></tr>\n"@,
    decreases b.len(),
{
    assert(seq![x].drop_last() =~= Seq::<(YamlView, YamlView)>::empty());
    assert(table_rows_html(seq![x]) =~= "<tr><th>"@ + text::escape_text(yaml_text(x.0)) + "</th><td>"@ + yaml_html(x.1) + "</td></tr>\n"@) by {
        assert(seq![x].last() == x);
        assert(table_rows_html(seq![x]) == table_rows_html(seq![x].drop_last()) + "<tr><th>"@ + text::escape_text(yaml_text(x.0))
            + "</th><td>"@ + yaml_html(x.1) + "</td></tr>\n"@);
    }
    if b.len() == 0 {
        assert(a + b =~= a);
    } else {
        table_rows_html_in_order(a, b.drop_last(), x);
        assert((a + b).drop_last() =~= a + b.drop_last());
        assert((a + b).last() == b.last());
        assert(table_rows_html(a + b) =~= table_rows_html(a) + table_rows_html(b));
    }
}

// ---------------------------------------------------------------------------
// Parsing the YAML
// ---------------------------------------------------------------------------

#[verifier::external_type_specification]
#[verifier::external_body]
pub struct ExYamlValue(serde_yaml::Value);

/// The value `serde_yaml` parses from the YAML text, in the library's form
/// (numbers as `serde_yaml` writes them, tagged values as the value they
/// tag); `None` when the text is not valid YAML.
pub uninterp spec fn yaml_value(text: Seq<char>) -> Option<YamlView>;

/// Converts a value that `serde_yaml` parsed to the library's form, one
/// variant for one: a number as its `Display` writes it, a tagged value as
/// the value it tags. It is the conversion half of `parse_yaml`, whose
/// contract names the whole result; it states nothing of its own.
#[verifier::external_body]
fn yaml_from_value(v: &serde_yaml::Value) -> Yaml {
    match v {
        serde_yaml::Value::Null => Yaml::Null,
        serde_yaml::Value::Bool(b) => Yaml::Bool(*b),
        serde_yaml::Value::Number(n) => Yaml::Number(n.to_string()),
        serde_yaml::Value::String(t) => Yaml::Str(t.clone()),
        serde_yaml::Value::Sequence(items) => Yaml::Sequence(items.iter().map(yaml_from_value).collect()),
        serde_yaml::Value::Mapping(m) => Yaml::Mapping(m.iter().map(|(k, x)| (yaml_from_value(k), yaml_from_value(x))).collect()),
        serde_yaml::Value::Tagged(t) => yaml_from_value(&t.value),
    }
}

/// Calls `serde_yaml::from_str::<serde_yaml::Value>` and converts the value;
/// a parse error becomes `None`. The result is a function of the text,
/// named `yaml_value`.
#[verifier::external_body]
fn parse_yaml(text: &str) -> (r: Option<Yaml>)
    ensures
        yaml_view_opt(r) == yaml_value(text@),
{
    serde_yaml::from_str::<serde_yaml::Value>(text).ok().map(|v| yaml_from_value(&v))
}

/// What splitting off and rendering the frontmatter gives: the table, the
/// document after the frontmatter and the number of lines it took; a
/// document without frontmatter, or whose frontmatter is not valid YAML,
/// comes back unchanged with no table and no lines.
pub open spec fn frontmatter_parts(md: Seq<char>) -> (Seq<char>, Seq<char>, nat) {
    match frontmatter_close(md) {
        Some(c) => match yaml_value(frontmatter_yaml(md, c)) {
            Some(y) => (frontmatter_table(y), frontmatter_content(md, c), frontmatter_lines(md, c)),
            None => (Seq::empty(), md, 0),
        },
        None => (Seq::empty(), md, 0),
    }
}

/// Extracts the frontmatter of `markdown`, parses its YAML and renders it
/// as an HTML table. Returns the table, the document after the
/// frontmatter, and the number of lines the frontmatter took.
pub fn frontmatter(markdown: &str) -> (r: (String, String, usize))
    ensures
        (r.0@, r.1@, r.2 as nat) == frontmatter_parts(markdown@),
{
    let parsed = match frontmatter_source(markdown) {
        Some(src) => parse_yaml(src.as_str()),
        None => None,
    };
    match &parsed {
        Some(y) => extract_and_render_frontmatter(markdown, Some(y)),
        None => extract_and_render_frontmatter(markdown, None),
    }
}

} // verus!

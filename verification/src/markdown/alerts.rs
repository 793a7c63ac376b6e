//! GitHub alerts (`> [!NOTE]` and the like) turned into HTML blocks.
//!
//! A line that starts with an alert marker opens an alert; the quoted lines
//! (`>`) that follow it are its content, rendered as Markdown. Every other
//! line is kept as it is. Alongside the text, the processing reports, for
//! each line of its output, the line of the input it came from.

use vstd::prelude::*;
use vstd::string::StrSliceExecFns;
use crate::markdown::cmark;
use crate::markdown::cmark::render_markdown_html;
use crate::text;
use crate::text::{
    chars_of, char_is_whitespace, count_chars_in, join_strings, matches_at, push_chars,
    push_decimal, push_str, split_lines, string_of, trim_bounds, trim_start_from,
};

verus! {

broadcast use vstd::string::group_string_axioms;

// ---------------------------------------------------------------------------
// Alert kinds
// ---------------------------------------------------------------------------

/// The alert names, in the order they are tried.
pub open spec fn alert_names() -> Seq<Seq<char>> {
    seq!["NOTE"@, "TIP"@, "IMPORTANT"@, "WARNING"@, "CAUTION"@]
}

/// The CSS class of each alert, in the same order.
pub open spec fn alert_classes() -> Seq<Seq<char>> {
    seq!["note"@, "tip"@, "important"@, "warning"@, "caution"@]
}

/// The text that opens an alert of the given name: `> [!NAME]`.
pub open spec fn alert_marker(name: Seq<char>) -> Seq<char> {
    "> [!"@ + name + "]"@
}

/// The first alert kind, at or after `i`, whose marker starts `line`.
pub open spec fn first_alert_from(line: Seq<char>, i: int) -> Option<int>
    decreases 5 - i,
{
    if i < 0 || i >= 5 {
        None
    } else if text::has_prefix(line, alert_marker(alert_names()[i])) {
        Some(i)
    } else {
        first_alert_from(line, i + 1)
    }
}

/// The alert kind that `line` opens, if any.
pub open spec fn alert_kind(line: Seq<char>) -> Option<int> {
    first_alert_from(line, 0)
}

fn alert_name(i: usize) -> (r: &'static str)
    requires
        i < 5,
    ensures
        r@ == alert_names()[i as int],
{
    if i == 0 { "NOTE" } else if i == 1 { "TIP" } else if i == 2 { "IMPORTANT" } else if i == 3 { "WARNING" } else { "CAUTION" }
}

fn alert_class(i: usize) -> (r: &'static str)
    requires
        i < 5,
    ensures
        r@ == alert_classes()[i as int],
{
    if i == 0 { "note" } else if i == 1 { "tip" } else if i == 2 { "important" } else if i == 3 { "warning" } else { "caution" }
}

/// The marker of alert kind `i`, as characters.
fn marker_chars(i: usize) -> (r: Vec<char>)
    requires
        i < 5,
    ensures
        r@ == alert_marker(alert_names()[i as int]),
{
    let mut s = String::new();
    push_str(&mut s, "> [!");
    push_str(&mut s, alert_name(i));
    push_str(&mut s, "]");
    chars_of(s.as_str())
}

/// The alert kind that the line `line` opens, and the length of its marker.
pub fn alert_kind_of(line: &Vec<char>) -> (r: Option<(usize, usize)>)
    ensures
        match r {
            Some((k, n)) => alert_kind(line@) == Some(k as int) && k < 5
                && n == alert_marker(alert_names()[k as int]).len() && n <= line@.len(),
            None => alert_kind(line@) is None,
        },
{
    let mut i: usize = 0;
    while i < 5
        invariant
            i <= 5,
            alert_kind(line@) == first_alert_from(line@, i as int),
        decreases 5 - i,
    {
        let m = marker_chars(i);
        if matches_at(line, 0, &m) {
            return Some((i, m.len()));
        }
        i += 1;
    }
    None
}

/// The placeholder for an alert's icon; the script of the page puts the SVG in.
pub open spec fn icon_placeholder(alert_type: Seq<char>) -> Seq<char> {
    "<span class=\"alert-icon\" data-alert-type=\""@ + alert_type + "\"></span>"@
}

/// Gets the icon placeholder for an alert type.
pub fn get_alert_icon_placeholder(alert_type: &str) -> (r: String)
    ensures
        r@ == icon_placeholder(alert_type@),
{
    let mut s = String::new();
    push_str(&mut s, "<span class=\"alert-icon\" data-alert-type=\"");
    push_str(&mut s, alert_type);
    push_str(&mut s, "\"></span>");
    s
}

/// Checks whether `line` starts a GitHub alert; gives the alert's name, its
/// class and what follows the marker on the line.
pub fn parse_alert_start(line: &str) -> (r: Option<(&'static str, &'static str, &str)>)
    ensures
        match r {
            Some((name, class, rest)) => exists|k: int|
                alert_kind(line@) == Some(k) && 0 <= k < 5 && name@ == alert_names()[k] && class@
                    == alert_classes()[k] && rest@ == line@.subrange(
                    alert_marker(alert_names()[k]).len() as int,
                    line@.len() as int,
                ),
            None => alert_kind(line@) is None,
        },
{
    let v = chars_of(line);
    match alert_kind_of(&v) {
        Some((k, n)) => Some((alert_name(k), alert_class(k), line.substring_char(n, v.len()))),
        None => None,
    }
}

// ---------------------------------------------------------------------------
// One alert block
// ---------------------------------------------------------------------------

/// Whether a line is quoted (starts with `>`).
pub open spec fn is_quoted(line: Seq<char>) -> bool {
    line.len() > 0 && line[0] == '>'
}

/// The first line at or after `i` that is not quoted.
pub open spec fn quoted_end(lines: Seq<Seq<char>>, i: int) -> int
    decreases lines.len() - i,
{
    if 0 <= i < lines.len() && is_quoted(lines[i]) {
        quoted_end(lines, i + 1)
    } else {
        i
    }
}

/// The quoted lines from `i` on, each without its `>` and leading whitespace.
pub open spec fn quoted_contents(lines: Seq<Seq<char>>, i: int) -> Seq<Seq<char>>
    decreases lines.len() - i,
{
    if 0 <= i < lines.len() && is_quoted(lines[i]) {
        seq![text::trim_start(lines[i].drop_first())] + quoted_contents(lines, i + 1)
    } else {
        Seq::empty()
    }
}

/// The Markdown lines inside the alert that opens at `start`.
pub open spec fn alert_content(lines: Seq<Seq<char>>, start: int, first: Seq<char>) -> Seq<Seq<char>> {
    let head = if text::trim(first).len() > 0 { seq![text::trim(first)] } else { Seq::empty() };
    head + quoted_contents(lines, start + 1)
}

/// The opening `div` of an alert, with its source line when one is given.
pub open spec fn alert_open_tag(class: Seq<char>, source_line: Option<int>) -> Seq<char> {
    "<div class=\"markdown-alert markdown-alert-"@ + class + match source_line {
        Some(n) => "\" data-source-line=\""@ + text::decimal(n as nat),
        None => Seq::empty(),
    } + "\" dir=\"auto\">"@
}

/// The title paragraph of an alert.
pub open spec fn alert_title(name: Seq<char>, class: Seq<char>) -> Seq<char> {
    "<p class=\"markdown-alert-title\" dir=\"auto\">"@ + icon_placeholder(class) + name + "</p>"@
}

/// The HTML lines of the alert that opens at line `start`.
pub open spec fn alert_block(
    lines: Seq<Seq<char>>,
    start: int,
    name: Seq<char>,
    class: Seq<char>,
    first: Seq<char>,
    source_line: Option<int>,
) -> Seq<Seq<char>> {
    let content = alert_content(lines, start, first);
    seq![alert_open_tag(class, source_line), alert_title(name, class)] + if content.len() > 0 {
        seq![cmark::cmark_html(text::join(content, "\n"@))]
    } else {
        Seq::empty()
    } + seq!["</div>"@]
}

/// `quoted_end` never goes back, and stops within the lines.
pub proof fn lemma_quoted_end(lines: Seq<Seq<char>>, i: int)
    requires
        0 <= i,
    ensures
        i <= quoted_end(lines, i),
        i <= lines.len() ==> quoted_end(lines, i) <= lines.len(),
        quoted_end(lines, i) < lines.len() ==> !is_quoted(lines[quoted_end(lines, i)]),
    decreases lines.len() - i,
{
    if 0 <= i < lines.len() && is_quoted(lines[i]) {
        lemma_quoted_end(lines, i + 1);
    }
}

/// The views of a list of vectors of characters.
pub open spec fn vecs_view(v: Seq<Vec<char>>) -> Seq<Seq<char>> {
    v.map_values(|x: Vec<char>| x@)
}

/// The views of a list of strings.
pub open spec fn strings_view(v: Seq<String>) -> Seq<Seq<char>> {
    v.map_values(|x: String| x@)
}

/// The opening tag, as `alert_open_tag` states it.
fn open_tag(class: &str, source_line: Option<usize>) -> (r: String)
    ensures
        r@ == alert_open_tag(class@, match source_line {
            Some(n) => Some(n as int),
            None => None,
        }),
{
    let mut s = String::new();
    push_str(&mut s, "<div class=\"markdown-alert markdown-alert-");
    push_str(&mut s, class);
    match source_line {
        Some(n) => {
            push_str(&mut s, "\" data-source-line=\"");
            push_decimal(&mut s, n);
        },
        None => {},
    }
    push_str(&mut s, "\" dir=\"auto\">");
    s
}

/// Renders the alert that opens at line `start_index`; gives its HTML lines
/// and the index of the first line after it.
pub fn process_alert_block(
    lines: &Vec<Vec<char>>,
    start_index: usize,
    alert_name: &str,
    alert_class: &str,
    first_line_content: &Vec<char>,
    source_line: Option<usize>,
) -> (r: (Vec<String>, usize))
    requires
        start_index < usize::MAX,
    ensures
        strings_view(r.0@) == alert_block(
            vecs_view(lines@),
            start_index as int,
            alert_name@,
            alert_class@,
            first_line_content@,
            match source_line {
                Some(n) => Some(n as int),
                None => None,
            },
        ),
        r.1 == quoted_end(vecs_view(lines@), start_index + 1),
{
    let ghost ls = vecs_view(lines@);
    let mut html_lines: Vec<String> = Vec::new();
    html_lines.push(open_tag(alert_class, source_line));
    let mut title = String::new();
    push_str(&mut title, "<p class=\"markdown-alert-title\" dir=\"auto\">");
    let icon = get_alert_icon_placeholder(alert_class);
    push_str(&mut title, icon.as_str());
    push_str(&mut title, alert_name);
    push_str(&mut title, "</p>");
    html_lines.push(title);

    let mut content_lines: Vec<String> = Vec::new();
    let (a, b) = trim_bounds(first_line_content, 0, first_line_content.len());
    assert(first_line_content@.subrange(0, first_line_content@.len() as int) =~= first_line_content@);
    if a < b {
        content_lines.push(string_of(first_line_content, a, b));
    }
    let ghost head = strings_view(content_lines@);
    assert(head =~= if text::trim(first_line_content@).len() > 0 {
        seq![text::trim(first_line_content@)]
    } else {
        Seq::<Seq<char>>::empty()
    });

    let n_lines = lines.len();
    let mut i = start_index + 1;
    proof {
        assert(quoted_contents(ls, i as int) == quoted_contents(ls, i as int));
    }
    while i < lines.len() && lines[i].len() > 0 && lines[i][0] == '>'
        invariant
            start_index < i,
            i == start_index + 1 || i <= lines@.len(),
            ls == vecs_view(lines@),
            strings_view(content_lines@) + quoted_contents(ls, i as int) == head + quoted_contents(
                ls,
                start_index + 1,
            ),
            quoted_end(ls, i as int) == quoted_end(ls, start_index + 1),
        decreases lines@.len() - i,
    {
        let line = &lines[i];
        assert(ls[i as int] == line@);
        let from = trim_start_from(line, 1, line.len());
        assert(line@.subrange(1, line@.len() as int) =~= line@.drop_first());
        let ghost before = strings_view(content_lines@);
        content_lines.push(string_of(line, from, line.len()));
        assert(strings_view(content_lines@) =~= before.push(text::trim_start(ls[i as int].drop_first())));
        assert(quoted_contents(ls, i as int) == seq![text::trim_start(ls[i as int].drop_first())]
            + quoted_contents(ls, i + 1));
        assert(before + quoted_contents(ls, i as int) =~= before.push(
            text::trim_start(ls[i as int].drop_first()),
        ) + quoted_contents(ls, i + 1));
        i += 1;
    }
    proof {
        assert(!(0 <= i < ls.len() && is_quoted(ls[i as int])));
        assert(quoted_contents(ls, i as int) =~= Seq::<Seq<char>>::empty());
        assert(strings_view(content_lines@) =~= alert_content(ls, start_index as int, first_line_content@));
    }

    let ghost fixed = strings_view(html_lines@);
    if content_lines.len() > 0 {
        let content_markdown = join_strings(&content_lines, "\n");
        let content_html = render_markdown_html(content_markdown.as_str());
        html_lines.push(content_html);
    }
    html_lines.push("</div>".to_owned());
    let ghost src = match source_line {
        Some(n) => Some(n as int),
        None => None,
    };
    assert(strings_view(html_lines@) =~= alert_block(
        ls,
        start_index as int,
        alert_name@,
        alert_class@,
        first_line_content@,
        src,
    ));
    (html_lines, i)
}


// ---------------------------------------------------------------------------
// Whole documents
// ---------------------------------------------------------------------------

/// What follows the marker of alert kind `k` on `line`.
pub open spec fn alert_rest(line: Seq<char>, k: int) -> Seq<char> {
    line.subrange(alert_marker(alert_names()[k]).len() as int, line.len() as int)
}

/// The source line given to the alert at line `i`: one-based, after the
/// `offset` lines of frontmatter; none when no offset is asked for.
pub open spec fn source_line_of(offset: Option<int>, i: int) -> Option<int> {
    match offset {
        Some(f) => Some(i + 1 + f),
        None => None,
    }
}

/// The output lines for the input lines from `i` on.
pub open spec fn alert_pass(lines: Seq<Seq<char>>, i: int, offset: Option<int>) -> Seq<Seq<char>>
    decreases lines.len() - i,
{
    if 0 <= i < lines.len() {
        match alert_kind(lines[i]) {
            Some(k) => {
                proof {
                    lemma_quoted_end(lines, i + 1);
                }
                alert_block(
                    lines,
                    i,
                    alert_names()[k],
                    alert_classes()[k],
                    alert_rest(lines[i], k),
                    source_line_of(offset, i),
                ) + alert_pass(lines, quoted_end(lines, i + 1), offset)
            },
            None => seq![lines[i]] + alert_pass(lines, i + 1, offset),
        }
    } else {
        Seq::empty()
    }
}

/// How many lines the texts in `ls` make once joined by newlines: each adds
/// one line, plus one per newline inside it.
pub open spec fn joined_line_count(ls: Seq<Seq<char>>) -> nat
    decreases ls.len(),
{
    if ls.len() == 0 {
        0
    } else {
        joined_line_count(ls.drop_last()) + text::count_char(ls.last(), '\n') + 1
    }
}

/// For each output line from input line `i` on, the input line it came from.
pub open spec fn origin_pass(lines: Seq<Seq<char>>, i: int, offset: Option<int>) -> Seq<int>
    decreases lines.len() - i,
{
    if 0 <= i < lines.len() {
        match alert_kind(lines[i]) {
            Some(k) => {
                proof {
                    lemma_quoted_end(lines, i + 1);
                }
                Seq::new(
                    joined_line_count(
                        alert_block(
                            lines,
                            i,
                            alert_names()[k],
                            alert_classes()[k],
                            alert_rest(lines[i], k),
                            source_line_of(offset, i),
                        ),
                    ),
                    |_j: int| i,
                ) + origin_pass(lines, quoted_end(lines, i + 1), offset)
            },
            None => seq![i] + origin_pass(lines, i + 1, offset),
        }
    } else {
        Seq::empty()
    }
}

/// The text after alert processing, with `offset` as in `source_line_of`.
pub open spec fn alerts_text(markdown: Seq<char>, offset: Option<int>) -> Seq<char> {
    text::join(alert_pass(text::lines(markdown), 0, offset), "\n"@)
}

/// The origin of each output line, with `offset` as in `source_line_of`.
pub open spec fn alerts_origins(markdown: Seq<char>, offset: Option<int>) -> Seq<int> {
    origin_pass(text::lines(markdown), 0, offset)
}

/// A text has no more lines than characters.
pub proof fn lemma_lines_len(s: Seq<char>)
    ensures
        text::lines(s).len() <= s.len(),
    decreases s.len(),
{
    if s.len() > 0 {
        text::lemma_index_of(s, '\n');
        match text::index_of(s, '\n') {
            Some(k) => {
                lemma_lines_len(s.subrange(k + 1, s.len() as int));
            },
            None => {},
        }
    }
}

/// The origins as integers.
pub open spec fn origins_view(v: Seq<usize>) -> Seq<int> {
    v.map_values(|x: usize| x as int)
}

/// Alert processing, with the source-line offset `offset` when one is asked for.
pub fn process_alerts(markdown: &str, offset: Option<usize>) -> (r: (String, Vec<usize>))
    requires
        match offset {
            Some(f) => markdown@.len() + f < usize::MAX,
            None => true,
        },
    ensures
        r.0@ == alerts_text(markdown@, match offset {
            Some(f) => Some(f as int),
            None => None,
        }),
        origins_view(r.1@) == alerts_origins(markdown@, match offset {
            Some(f) => Some(f as int),
            None => None,
        }),
{
    let ghost off = match offset {
        Some(f) => Some(f as int),
        None => None,
    };
    let md = chars_of(markdown);
    let lines = split_lines(&md);
    let ghost ls = vecs_view(lines@);
    assert(ls =~= text::lines(markdown@));
    proof {
        lemma_lines_len(markdown@);
    }
    let mut result: Vec<String> = Vec::new();
    let mut line_origins: Vec<usize> = Vec::new();
    let mut i: usize = 0;
    while i < lines.len()
        invariant
            i <= lines@.len() <= markdown@.len(),
            ls == vecs_view(lines@),
            off == match offset {
                Some(f) => Some(f as int),
                None => None::<int>,
            },
            match offset {
                Some(f) => markdown@.len() + f < usize::MAX,
                None => true,
            },
            strings_view(result@) + alert_pass(ls, i as int, off) == alert_pass(ls, 0, off),
            origins_view(line_origins@) + origin_pass(ls, i as int, off) == origin_pass(ls, 0, off),
        decreases lines@.len() - i,
    {
        let line = &lines[i];
        assert(ls[i as int] == line@);
        match alert_kind_of(line) {
            Some((k, n)) => {
                let rest = slice_of(line, n, line.len());
                let source_line = match offset {
                    Some(f) => Some(i + 1 + f),
                    None => None,
                };
                let (alert_html, next_index) = process_alert_block(
                    &lines,
                    i,
                    alert_name(k),
                    alert_class(k),
                    &rest,
                    source_line,
                );
                let ghost block = strings_view(alert_html@);
                proof {
                    lemma_quoted_end(ls, i + 1);
                    assert(block == alert_block(
                        ls,
                        i as int,
                        alert_names()[k as int],
                        alert_classes()[k as int],
                        alert_rest(ls[i as int], k as int),
                        source_line_of(off, i as int),
                    ));
                }
                let ghost before_origins = origins_view(line_origins@);
                let mut j: usize = 0;
                while j < alert_html.len()
                    invariant
                        j <= alert_html@.len(),
                        block == strings_view(alert_html@),
                        origins_view(line_origins@) == before_origins + Seq::new(
                            joined_line_count(block.take(j as int)),
                            |_x: int| i as int,
                        ),
                    decreases alert_html@.len() - j,
                {
                    let newlines = count_chars_in(alert_html[j].as_str(), '\n');
                    let ghost mid = origins_view(line_origins@);
                    let ghost mid_raw = line_origins@;
                    line_origins.push(i);
                    assert(origins_view(line_origins@) =~= mid + Seq::new(1nat, |_x: int| i as int)) by {
                        assert(line_origins@ == mid_raw.push(i));
                    }
                    let mut c: usize = 0;
                    while c < newlines
                        invariant
                            c <= newlines,
                            origins_view(line_origins@) == mid + Seq::new((c + 1) as nat, |_x: int| i as int),
                        decreases newlines - c,
                    {
                        let ghost prev = line_origins@;
                        line_origins.push(i);
                        assert(line_origins@ == prev.push(i));
                        assert(origins_view(line_origins@) =~= origins_view(prev).push(i as int));
                        c += 1;
                        assert(origins_view(line_origins@) =~= mid + Seq::new((c + 1) as nat, |_x: int| i as int));
                    }
                    assert(block.take(j + 1).drop_last() =~= block.take(j as int));
                    assert(block.take(j + 1).last() == block[j as int]);
                    assert(origins_view(line_origins@) =~= before_origins + Seq::new(
                        joined_line_count(block.take(j + 1)),
                        |_x: int| i as int,
                    ));
                    j += 1;
                }
                assert(block.take(alert_html@.len() as int) =~= block);
                let ghost before = strings_view(result@);
                let mut h = alert_html;
                let mut moved: Vec<String> = Vec::new();
                std::mem::swap(&mut moved, &mut h);
                for html_line in it: moved
                    invariant
                        it.seq() == alert_html@,
                        strings_view(result@) == before + strings_view(it.seq().take(it.index() as int)),
                {
                    let ghost k2 = it.index() as int;
                    assert(it.seq().take(k2 + 1) =~= it.seq().take(k2).push(html_line));
                    let ghost prev = result@;
                    result.push(html_line);
                    assert(result@ == prev.push(html_line));
                    assert(strings_view(result@) =~= strings_view(prev).push(html_line@));
                    assert(strings_view(it.seq().take(k2 + 1)) =~= strings_view(it.seq().take(k2)).push(html_line@));
                    assert(strings_view(result@) =~= before + strings_view(it.seq().take(k2 + 1)));
                }
                assert(alert_html@.take(alert_html@.len() as int) =~= alert_html@);
                assert(alert_pass(ls, i as int, off) == block + alert_pass(ls, next_index as int, off));
                assert(origin_pass(ls, i as int, off) == Seq::new(
                    joined_line_count(block),
                    |_x: int| i as int,
                ) + origin_pass(ls, next_index as int, off));
                assert(strings_view(result@) + alert_pass(ls, next_index as int, off)
                    =~= before + alert_pass(ls, i as int, off));
                assert(origins_view(line_origins@) + origin_pass(ls, next_index as int, off)
                    =~= before_origins + origin_pass(ls, i as int, off));
                i = next_index;
            },
            None => {
                let ghost before = strings_view(result@);
                let ghost before_origins = origins_view(line_origins@);
                line_origins.push(i);
                result.push(string_of(line, 0, line.len()));
                assert(line@.subrange(0, line@.len() as int) =~= line@);
                assert(strings_view(result@) =~= before.push(ls[i as int]));
                assert(origins_view(line_origins@) =~= before_origins.push(i as int));
                assert(strings_view(result@) + alert_pass(ls, i + 1, off)
                    =~= before + alert_pass(ls, i as int, off));
                assert(origins_view(line_origins@) + origin_pass(ls, i + 1, off)
                    =~= before_origins + origin_pass(ls, i as int, off));
                i += 1;
            },
        }
    }
    assert(alert_pass(ls, i as int, off) =~= Seq::<Seq<char>>::empty());
    assert(origin_pass(ls, i as int, off) =~= Seq::<int>::empty());
    assert(strings_view(result@) =~= alert_pass(ls, 0, off));
    assert(origins_view(line_origins@) =~= origin_pass(ls, 0, off));
    (join_strings(&result, "\n"), line_origins)
}

/// A new vector holding `v[from..to]`.
fn slice_of(v: &Vec<char>, from: usize, to: usize) -> (r: Vec<char>)
    requires
        from <= to <= v@.len(),
    ensures
        r@ == v@.subrange(from as int, to as int),
{
    let mut r: Vec<char> = Vec::new();
    let mut i = from;
    while i < to
        invariant
            from <= i <= to <= v@.len(),
            r@ == v@.subrange(from as int, i as int),
        decreases to - i,
    {
        r.push(v[i]);
        i += 1;
        assert(r@ =~= v@.subrange(from as int, i as int));
    }
    r
}

/// Processes the GitHub alerts of `markdown`, whose first line comes after
/// `frontmatter_lines` lines of frontmatter. Returns the processed text and,
/// for each of its lines, the 0-based line of `markdown` it came from.
pub fn process_github_alerts(markdown: &str, frontmatter_lines: usize) -> (r: (String, Vec<usize>))
    requires
        markdown@.len() + frontmatter_lines < usize::MAX,
    ensures
        r.0@ == alerts_text(markdown@, Some(frontmatter_lines as int)),
        origins_view(r.1@) == alerts_origins(markdown@, Some(frontmatter_lines as int)),
{
    process_alerts(markdown, Some(frontmatter_lines))
}


// ---------------------------------------------------------------------------
// Laws
// ---------------------------------------------------------------------------

/// Line counts add up over a concatenation.
pub proof fn lemma_joined_line_count_add(a: Seq<Seq<char>>, b: Seq<Seq<char>>)
    ensures
        joined_line_count(a + b) == joined_line_count(a) + joined_line_count(b),
    decreases b.len(),
{
    if b.len() == 0 {
        assert(a + b =~= a);
    } else {
        lemma_joined_line_count_add(a, b.drop_last());
        assert((a + b).drop_last() =~= a + b.drop_last());
    }
}

/// Joining texts by newlines gives one line more than it has newlines.
pub proof fn lemma_join_newlines(parts: Seq<Seq<char>>)
    requires
        parts.len() > 0,
    ensures
        text::count_char(text::join(parts, "\n"@), '\n') + 1 == joined_line_count(parts),
    decreases parts.len(),
{
    reveal_strlit("\n");
    let nl = "\n"@;
    assert(nl.len() == 1 && nl[0] == '\n');
    assert(text::count_char(nl.drop_last(), '\n') == 0);
    assert(text::count_char(nl, '\n') == 1);
    if parts.len() == 1 {
        assert(parts.drop_last().len() == 0);
        assert(joined_line_count(parts.drop_last()) == 0);
        assert(parts.last() == parts[0]);
    } else {
        let init = parts.drop_last();
        lemma_join_newlines(init);
        let j = text::join(init, nl);
        text::lemma_count_char_add(j, nl, '\n');
        text::lemma_count_char_add(j + nl, parts.last(), '\n');
    }
}

/// A text without newlines counts as one line.
proof fn lemma_single_line_count(l: Seq<char>)
    requires
        !l.contains('\n'),
    ensures
        joined_line_count(seq![l]) == 1,
{
    lemma_count_char_absent(l, '\n');
    let one = seq![l];
    assert(one.drop_last() =~= Seq::<Seq<char>>::empty());
    assert(joined_line_count(one.drop_last()) == 0);
    assert(one.last() == l);
    assert(joined_line_count(one) == joined_line_count(one.drop_last()) + text::count_char(l, '\n') + 1);
}

/// No occurrence, no count.
pub proof fn lemma_count_char_absent(s: Seq<char>, c: char)
    requires
        !s.contains(c),
    ensures
        text::count_char(s, c) == 0,
    decreases s.len(),
{
    if s.len() > 0 {
        assert(!s.drop_last().contains(c)) by {
            if s.drop_last().contains(c) {
                let j = choose|j: int| 0 <= j < s.drop_last().len() && s.drop_last()[j] == c;
                assert(s[j] == c);
            }
        }
        lemma_count_char_absent(s.drop_last(), c);
        assert(s.last() != c) by {
            assert(s[s.len() - 1] == s.last());
        }
    }
}

/// The lines of a text hold no newline.
pub proof fn lemma_lines_no_newline(s: Seq<char>)
    ensures
        forall|i: int| 0 <= i < text::lines(s).len() ==> !(#[trigger] text::lines(s)[i]).contains('\n'),
    decreases s.len(),
{
    if s.len() > 0 {
        text::lemma_index_of(s, '\n');
        match text::index_of(s, '\n') {
            Some(k) => {
                let rest = s.subrange(k + 1, s.len() as int);
                lemma_lines_no_newline(rest);
                let head = text::strip_cr(s.subrange(0, k));
                assert(!head.contains('\n')) by {
                    if head.contains('\n') {
                        let j = choose|j: int| 0 <= j < head.len() && head[j] == '\n';
                        assert(s[j] == '\n');
                    }
                }
                assert forall|i: int| 0 <= i < text::lines(s).len() implies !(#[trigger] text::lines(s)[i]).contains('\n') by {
                    if i > 0 {
                        assert(text::lines(s)[i] == text::lines(rest)[i - 1]);
                    }
                }
            },
            None => {
                assert(text::lines(s) == seq![s]);
            },
        }
    }
}

/// There is one origin for each line of output.
pub proof fn lemma_origin_count(lines: Seq<Seq<char>>, i: int, offset: Option<int>)
    requires
        0 <= i,
        forall|j: int| 0 <= j < lines.len() ==> !(#[trigger] lines[j]).contains('\n'),
    ensures
        origin_pass(lines, i, offset).len() == joined_line_count(alert_pass(lines, i, offset)),
    decreases lines.len() - i,
{
    if 0 <= i < lines.len() {
        lemma_quoted_end(lines, i + 1);
        match alert_kind(lines[i]) {
            Some(k) => {
                let block = alert_block(
                    lines,
                    i,
                    alert_names()[k],
                    alert_classes()[k],
                    alert_rest(lines[i], k),
                    source_line_of(offset, i),
                );
                let next = quoted_end(lines, i + 1);
                assert(alert_pass(lines, i, offset) == block + alert_pass(lines, next, offset));
                assert(origin_pass(lines, i, offset) == Seq::new(joined_line_count(block), |_j: int| i)
                    + origin_pass(lines, next, offset));
                lemma_origin_count(lines, next, offset);
                lemma_joined_line_count_add(block, alert_pass(lines, next, offset));
            },
            None => {
                assert(alert_pass(lines, i, offset) == seq![lines[i]] + alert_pass(lines, i + 1, offset));
                assert(origin_pass(lines, i, offset) == seq![i] + origin_pass(lines, i + 1, offset));
                lemma_origin_count(lines, i + 1, offset);
                lemma_joined_line_count_add(seq![lines[i]], alert_pass(lines, i + 1, offset));
                lemma_single_line_count(lines[i]);
            },
        }
    }
}

/// The origins from line `i` on name input lines from `i` on, in order.
pub proof fn lemma_origin_bounds(lines: Seq<Seq<char>>, i: int, offset: Option<int>)
    requires
        0 <= i,
    ensures
        forall|a: int| 0 <= a < origin_pass(lines, i, offset).len() ==> i <= #[trigger] origin_pass(lines, i, offset)[a] < lines.len(),
        forall|a: int, b: int|
            0 <= a <= b < origin_pass(lines, i, offset).len() ==> #[trigger] origin_pass(lines, i, offset)[a]
                <= #[trigger] origin_pass(lines, i, offset)[b],
    decreases lines.len() - i,
{
    let o = origin_pass(lines, i, offset);
    if 0 <= i < lines.len() {
        lemma_quoted_end(lines, i + 1);
        let (first, next) = match alert_kind(lines[i]) {
            Some(k) => {
                let block = alert_block(
                    lines,
                    i,
                    alert_names()[k],
                    alert_classes()[k],
                    alert_rest(lines[i], k),
                    source_line_of(offset, i),
                );
                (Seq::new(joined_line_count(block), |_j: int| i), quoted_end(lines, i + 1))
            },
            None => (seq![i], i + 1),
        };
        let rest = origin_pass(lines, next, offset);
        assert(o == first + rest);
        assert(forall|a: int| 0 <= a < first.len() ==> first[a] == i);
        lemma_origin_bounds(lines, next, offset);
        assert forall|a: int| 0 <= a < o.len() implies i <= #[trigger] o[a] < lines.len() by {
            if a >= first.len() {
                assert(o[a] == rest[a - first.len()]);
            }
        }
        assert forall|a: int, b: int| 0 <= a <= b < o.len() implies #[trigger] o[a] <= #[trigger] o[b] by {
            if b >= first.len() {
                assert(o[b] == rest[b - first.len()]);
                if a >= first.len() {
                    assert(o[a] == rest[a - first.len()]);
                }
            }
        }
    }
}

/// Alert processing gives, for each line of its output (the text split at
/// newlines), the line of the input it came from: as many origins as output
/// lines, each a line of the input, never going back.
pub proof fn origins_follow_output_lines(markdown: Seq<char>, offset: Option<int>)
    ensures
        text::lines(markdown).len() > 0 ==> alerts_origins(markdown, offset).len() == text::count_char(
            alerts_text(markdown, offset),
            '\n',
        ) + 1,
        text::lines(markdown).len() == 0 ==> alerts_origins(markdown, offset).len() == 0
            && alerts_text(markdown, offset).len() == 0,
        forall|a: int|
            0 <= a < alerts_origins(markdown, offset).len() ==> 0 <= #[trigger] alerts_origins(markdown, offset)[a]
                < text::lines(markdown).len(),
        forall|a: int, b: int|
            0 <= a <= b < alerts_origins(markdown, offset).len() ==> #[trigger] alerts_origins(markdown, offset)[a]
                <= #[trigger] alerts_origins(markdown, offset)[b],
{
    let ls = text::lines(markdown);
    lemma_lines_no_newline(markdown);
    lemma_origin_count(ls, 0, offset);
    lemma_origin_bounds(ls, 0, offset);
    if ls.len() > 0 {
        lemma_quoted_end(ls, 1);
        let out = alert_pass(ls, 0, offset);
        assert(out.len() > 0) by {
            match alert_kind(ls[0]) {
                Some(k) => {},
                None => {},
            }
        }
        lemma_join_newlines(out);
    }
}

/// With no alert in the text, the output lines are the input lines and each
/// output line comes from the input line with the same index.
pub proof fn no_alerts_keeps_lines(markdown: Seq<char>, offset: Option<int>)
    requires
        forall|i: int| 0 <= i < text::lines(markdown).len() ==> alert_kind(#[trigger] text::lines(markdown)[i]) is None,
    ensures
        alerts_text(markdown, offset) == text::join(text::lines(markdown), "\n"@),
        alerts_origins(markdown, offset) == Seq::new(text::lines(markdown).len(), |i: int| i),
{
    let ls = text::lines(markdown);
    lemma_no_alerts_from(ls, 0, offset);
    assert(ls.subrange(0, ls.len() as int) =~= ls);
    assert(Seq::new((ls.len() - 0) as nat, |j: int| j + 0) =~= Seq::new(ls.len(), |i: int| i));
}

proof fn lemma_no_alerts_from(lines: Seq<Seq<char>>, i: int, offset: Option<int>)
    requires
        0 <= i <= lines.len(),
        forall|j: int| 0 <= j < lines.len() ==> alert_kind(#[trigger] lines[j]) is None,
    ensures
        alert_pass(lines, i, offset) == lines.subrange(i, lines.len() as int),
        origin_pass(lines, i, offset) == Seq::new((lines.len() - i) as nat, |j: int| j + i),
    decreases lines.len() - i,
{
    if i < lines.len() {
        lemma_no_alerts_from(lines, i + 1, offset);
        assert(alert_kind(lines[i]) is None);
        assert(seq![lines[i]] + lines.subrange(i + 1, lines.len() as int) =~= lines.subrange(i, lines.len() as int));
        assert(seq![i] + Seq::new((lines.len() - (i + 1)) as nat, |j: int| j + (i + 1))
            =~= Seq::new((lines.len() - i) as nat, |j: int| j + i));
    } else {
        assert(lines.subrange(i, lines.len() as int) =~= Seq::<Seq<char>>::empty());
        assert(Seq::new((lines.len() - i) as nat, |j: int| j + i) =~= Seq::<int>::empty());
    }
}

} // verus!

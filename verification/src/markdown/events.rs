//! Rewriting the Markdown event stream before it becomes HTML: Mermaid and
//! math code blocks and math expressions become HTML the viewer's scripts
//! render, and each table's first event spans the whole table.
//!
//! The parser's events are carried as `MdEvent`s: the kinds these passes
//! read, and `Other` for every other event; each keeps its position in the
//! parser's stream, which is how the HTML writer finds the event again.

use vstd::prelude::*;
use pulldown_cmark::{CodeBlockKind, Event, Options, Parser, Tag, TagEnd};
use crate::text;
use crate::text::{encode_double_quoted_attribute, encode_text, push_str, str_equals};

verus! {

broadcast use vstd::string::group_string_axioms;

/// A Markdown event as these passes see it.
#[derive(Debug, PartialEq, Eq)]
pub enum MdEvent {
    /// The start of a table.
    StartTable,
    /// The end of a table.
    EndTable,
    /// The start of a fenced code block, with its language.
    StartFencedCode(String),
    /// The end of a code block.
    EndCodeBlock,
    /// Text.
    Text(String),
    /// Inline math (`$...$`).
    InlineMath(String),
    /// Display math (`$$...$$`).
    DisplayMath(String),
    /// Raw HTML.
    Html(String),
    /// Any other event.
    Other,
}

/// The mathematical value of an `MdEvent`: texts as character sequences.
pub enum MdEventView {
    StartTable,
    EndTable,
    StartFencedCode(Seq<char>),
    EndCodeBlock,
    Text(Seq<char>),
    InlineMath(Seq<char>),
    DisplayMath(Seq<char>),
    Html(Seq<char>),
    Other,
}

impl View for MdEvent {
    type V = MdEventView;

    open spec fn view(&self) -> MdEventView {
        match self {
            MdEvent::StartTable => MdEventView::StartTable,
            MdEvent::EndTable => MdEventView::EndTable,
            MdEvent::StartFencedCode(l) => MdEventView::StartFencedCode(l@),
            MdEvent::EndCodeBlock => MdEventView::EndCodeBlock,
            MdEvent::Text(t) => MdEventView::Text(t@),
            MdEvent::InlineMath(t) => MdEventView::InlineMath(t@),
            MdEvent::DisplayMath(t) => MdEventView::DisplayMath(t@),
            MdEvent::Html(t) => MdEventView::Html(t@),
            MdEvent::Other => MdEventView::Other,
        }
    }
}

/// An event with the byte range of the source it comes from, and its
/// position in the parser's stream.
#[derive(Debug, PartialEq, Eq)]
pub struct SpannedEvent {
    pub event: MdEvent,
    /// Where its source starts.
    pub start: usize,
    /// Where its source ends.
    pub end: usize,
    /// Its position in the parser's stream (for an event these passes make,
    /// that of the event it was made from).
    pub source: usize,
}

/// The mathematical value of a `SpannedEvent`.
pub struct SpannedView {
    pub event: MdEventView,
    pub start: usize,
    pub end: usize,
    pub source: usize,
}

impl View for SpannedEvent {
    type V = SpannedView;

    open spec fn view(&self) -> SpannedView {
        SpannedView { event: self.event@, start: self.start, end: self.end, source: self.source }
    }
}

/// The view of each event of a stream.
pub open spec fn stream_view(events: Seq<SpannedEvent>) -> Seq<SpannedView> {
    events.map_values(|e: SpannedEvent| e@)
}

impl MdEvent {
    /// A copy of the event.
    pub fn duplicate(&self) -> (r: Self)
        ensures
            r == *self,
    {
        match self {
            MdEvent::StartTable => MdEvent::StartTable,
            MdEvent::EndTable => MdEvent::EndTable,
            MdEvent::StartFencedCode(l) => MdEvent::StartFencedCode(l.clone()),
            MdEvent::EndCodeBlock => MdEvent::EndCodeBlock,
            MdEvent::Text(t) => MdEvent::Text(t.clone()),
            MdEvent::InlineMath(t) => MdEvent::InlineMath(t.clone()),
            MdEvent::DisplayMath(t) => MdEvent::DisplayMath(t.clone()),
            MdEvent::Html(t) => MdEvent::Html(t.clone()),
            MdEvent::Other => MdEvent::Other,
        }
    }
}

// ---------------------------------------------------------------------------
// Table ranges
// ---------------------------------------------------------------------------

/// The state of the table pass: inside a table or not, the events of the
/// current table held back, and the events let out so far.
pub struct TableState {
    pub in_table: bool,
    pub held: Seq<SpannedView>,
    pub out: Seq<SpannedView>,
}

/// The held events of a table that ends at `end`: the first one's range
/// stretched to the end of the table.
pub open spec fn stretch_first(held: Seq<SpannedView>, end: usize) -> Seq<SpannedView> {
    if held.len() == 0 {
        held
    } else {
        held.update(0, SpannedView { event: held[0].event, start: held[0].start, end, source: held[0].source })
    }
}

/// One step of the table pass.
pub open spec fn table_step(st: TableState, item: SpannedView) -> TableState {
    match item.event {
        MdEventView::StartTable => TableState { in_table: true, held: seq![item], out: st.out },
        MdEventView::EndTable if st.in_table => TableState {
            in_table: false,
            held: Seq::empty(),
            out: st.out + stretch_first(st.held, item.end).push(item),
        },
        _ => if st.in_table {
            TableState { in_table: true, held: st.held.push(item), out: st.out }
        } else {
            TableState { in_table: false, held: st.held, out: st.out.push(item) }
        },
    }
}

/// The table pass over a whole stream.
pub open spec fn table_run(items: Seq<SpannedView>) -> TableState
    decreases items.len(),
{
    if items.len() == 0 {
        TableState { in_table: false, held: Seq::empty(), out: Seq::empty() }
    } else {
        table_step(table_run(items.drop_last()), items.last())
    }
}

/// Extends each table's start event so that its range covers the whole
/// table. The events of a table are held back until its end, then let out
/// with the start event's range running to the end event's end; a table that
/// is still open when the stream ends is not let out.
pub fn extend_table_ranges(events: Vec<SpannedEvent>) -> (r: Vec<SpannedEvent>)
    ensures
        stream_view(r@) == table_run(stream_view(events@)).out,
{
    let ghost items = stream_view(events@);
    let mut in_table = false;
    let mut held: Vec<SpannedEvent> = Vec::new();
    let mut out: Vec<SpannedEvent> = Vec::new();
    let mut i: usize = 0;
    assert(items.take(0) =~= Seq::<SpannedView>::empty());
    assert(stream_view(held@) =~= Seq::<SpannedView>::empty());
    assert(stream_view(out@) =~= Seq::<SpannedView>::empty());
    while i < events.len()
        invariant
            i <= events@.len(),
            items == stream_view(events@),
            table_run(items.take(i as int)) == (TableState {
                in_table,
                held: stream_view(held@),
                out: stream_view(out@),
            }),
        decreases events@.len() - i,
    {
        let ghost st = table_run(items.take(i as int));
        assert(items.take(i + 1).drop_last() =~= items.take(i as int));
        assert(items.take(i + 1).last() == events@[i as int]@);
        let item = SpannedEvent {
            event: events[i].event.duplicate(),
            start: events[i].start,
            end: events[i].end,
            source: events[i].source,
        };
        assert(item@ == events@[i as int]@);
        match item.event {
            MdEvent::StartTable => {
                in_table = true;
                held = Vec::new();
                held.push(item);
                assert(stream_view(held@) =~= seq![item@]);
            },
            MdEvent::EndTable if in_table => {
                in_table = false;
                let end = item.end;
                if held.len() > 0 {
                    let first = SpannedEvent {
                        event: held[0].event.duplicate(),
                        start: held[0].start,
                        end,
                        source: held[0].source,
                    };
                    held.set(0, first);
                }
                assert(stream_view(held@) =~= stretch_first(st.held, end));
                held.push(item);
                let ghost before = out@;
                out.append(&mut held);
                assert(stream_view(out@) =~= stream_view(before) + stretch_first(st.held, end).push(
                    items.take(i + 1).last(),
                ));
                assert(stream_view(held@) =~= Seq::<SpannedView>::empty());
            },
            _ => {
                if in_table {
                    held.push(item);
                    assert(stream_view(held@) =~= st.held.push(items.take(i + 1).last()));
                } else {
                    out.push(item);
                    assert(stream_view(out@) =~= st.out.push(items.take(i + 1).last()));
                }
            },
        }
        i += 1;
    }
    assert(items.take(events@.len() as int) =~= items);
    out
}

// ---------------------------------------------------------------------------
// Code blocks
// ---------------------------------------------------------------------------

/// The HTML that stands for a code block in `lang`: its content kept in an
/// attribute for the viewer's script, and shown as text.
pub open spec fn code_block_html(lang: Seq<char>, content: Seq<char>) -> Seq<char> {
    "<pre class=\"preprocessed-"@ + lang + "\" data-original-content=\""@ + text::escape_attr(content)
        + "\">"@ + text::escape_text(content) + "</pre>"@
}

/// The state of the code block pass: inside a block of the language or not,
/// the block's text so far, where the block starts, and the events let out.
pub struct CodeState {
    pub in_block: bool,
    pub content: Seq<char>,
    pub start: usize,
    pub out: Seq<SpannedView>,
}

/// One step of the code block pass for `lang`.
pub open spec fn code_step(lang: Seq<char>, st: CodeState, item: SpannedView) -> CodeState {
    match item.event {
        MdEventView::StartFencedCode(l) if l == lang => CodeState {
            in_block: true,
            content: Seq::empty(),
            start: item.start,
            out: st.out,
        },
        MdEventView::EndCodeBlock if st.in_block => CodeState {
            in_block: false,
            content: st.content,
            start: st.start,
            out: st.out.push(
                SpannedView {
                    event: MdEventView::Html(code_block_html(lang, st.content)),
                    start: st.start,
                    end: item.end,
                    source: item.source,
                },
            ),
        },
        MdEventView::Text(t) if st.in_block => CodeState {
            in_block: true,
            content: st.content + t,
            start: st.start,
            out: st.out,
        },
        _ => CodeState { in_block: st.in_block, content: st.content, start: st.start, out: st.out.push(item) },
    }
}

/// The code block pass over a whole stream.
pub open spec fn code_run(lang: Seq<char>, items: Seq<SpannedView>) -> CodeState
    decreases items.len(),
{
    if items.len() == 0 {
        CodeState { in_block: false, content: Seq::empty(), start: 0, out: Seq::empty() }
    } else {
        code_step(lang, code_run(lang, items.drop_last()), items.last())
    }
}

/// Replaces each fenced code block in `target_lang` by one HTML event that
/// keeps its text for the viewer's script, ranging from the block's opening
/// fence to its closing fence. Other events pass unchanged.
pub fn process_code_blocks(events: Vec<SpannedEvent>, target_lang: &str) -> (r: Vec<SpannedEvent>)
    ensures
        stream_view(r@) == code_run(target_lang@, stream_view(events@)).out,
{
    let ghost items = stream_view(events@);
    let ghost lang = target_lang@;
    let mut in_block = false;
    let mut content = String::new();
    let mut start: usize = 0;
    let mut out: Vec<SpannedEvent> = Vec::new();
    let mut i: usize = 0;
    assert(items.take(0) =~= Seq::<SpannedView>::empty());
    assert(stream_view(out@) =~= Seq::<SpannedView>::empty());
    while i < events.len()
        invariant
            i <= events@.len(),
            items == stream_view(events@),
            lang == target_lang@,
            code_run(lang, items.take(i as int)) == (CodeState {
                in_block,
                content: content@,
                start,
                out: stream_view(out@),
            }),
        decreases events@.len() - i,
    {
        let ghost st = code_run(lang, items.take(i as int));
        assert(items.take(i + 1).drop_last() =~= items.take(i as int));
        assert(items.take(i + 1).last() == events@[i as int]@);
        let e = &events[i];
        let opens = match &e.event {
            MdEvent::StartFencedCode(l) => str_equals(l.as_str(), target_lang),
            _ => false,
        };
        let closes = in_block && matches!(e.event, MdEvent::EndCodeBlock);
        if opens {
            in_block = true;
            content = String::new();
            start = e.start;
        } else if closes {
            in_block = false;
            let mut html = String::new();
            push_str(&mut html, "<pre class=\"preprocessed-");
            push_str(&mut html, target_lang);
            push_str(&mut html, "\" data-original-content=\"");
            let attr = encode_double_quoted_attribute(content.as_str());
            push_str(&mut html, attr.as_str());
            push_str(&mut html, "\">");
            let body = encode_text(content.as_str());
            push_str(&mut html, body.as_str());
            push_str(&mut html, "</pre>");
            out.push(SpannedEvent { event: MdEvent::Html(html), start, end: e.end, source: e.source });
            assert(stream_view(out@) =~= code_step(lang, st, items.take(i + 1).last()).out);
        } else {
            match &e.event {
                MdEvent::Text(t) if in_block => {
                    push_str(&mut content, t.as_str());
                },
                _ => {
                    let item = SpannedEvent {
                        event: e.event.duplicate(),
                        start: e.start,
                        end: e.end,
                        source: e.source,
                    };
                    out.push(item);
                    assert(stream_view(out@) =~= st.out.push(items.take(i + 1).last()));
                },
            }
        }
        i += 1;
    }
    assert(items.take(events@.len() as int) =~= items);
    out
}

// ---------------------------------------------------------------------------
// Math
// ---------------------------------------------------------------------------

/// What the math pass makes of one event: inline and display math become
/// HTML that keeps the source for the viewer's script; every other event
/// stays as it is.
pub open spec fn math_event(e: MdEventView) -> MdEventView {
    match e {
        MdEventView::InlineMath(c) => MdEventView::Html(
            "<span class=\"preprocessed-math-inline\" data-original-content=\""@ + text::escape_text(c)
                + "\">"@ + text::escape_text(c) + "</span>"@,
        ),
        MdEventView::DisplayMath(c) => MdEventView::Html(
            "<div class=\"preprocessed-math-display\" data-original-content=\""@ + text::escape_text(c)
                + "\">"@ + text::escape_text(c) + "</div>"@,
        ),
        _ => e,
    }
}

/// The math pass over a whole stream.
pub open spec fn math_run(items: Seq<SpannedView>) -> Seq<SpannedView> {
    items.map_values(|e: SpannedView| SpannedView { event: math_event(e.event), start: e.start, end: e.end, source: e.source })
}

fn math_html(open: &str, c: &str, close: &str) -> (r: String)
    ensures
        r@ == open@ + text::escape_text(c@) + "\">"@ + text::escape_text(c@) + close@,
{
    let escaped = encode_text(c);
    let mut html = String::new();
    push_str(&mut html, open);
    push_str(&mut html, escaped.as_str());
    push_str(&mut html, "\">");
    push_str(&mut html, escaped.as_str());
    push_str(&mut html, close);
    html
}

/// Turns inline and display math into HTML for the viewer's script, keeping
/// each event's range.
pub fn process_math_expressions(events: Vec<SpannedEvent>) -> (r: Vec<SpannedEvent>)
    ensures
        stream_view(r@) == math_run(stream_view(events@)),
        r@.len() == events@.len(),
        forall|i: int|
            0 <= i < events@.len() ==> (#[trigger] r@[i]@) == (SpannedView {
                event: math_event(events@[i]@.event),
                start: events@[i].start,
                end: events@[i].end,
                source: events@[i].source,
            }),
{
    let mut out: Vec<SpannedEvent> = Vec::new();
    let mut i: usize = 0;
    while i < events.len()
        invariant
            i <= events@.len(),
            out@.len() == i,
            forall|j: int|
                0 <= j < i ==> (#[trigger] out@[j]@) == (SpannedView {
                    event: math_event(events@[j]@.event),
                    start: events@[j].start,
                    end: events@[j].end,
                    source: events@[j].source,
                }),
        decreases events@.len() - i,
    {
        let e = &events[i];
        let event = match &e.event {
            MdEvent::InlineMath(c) => MdEvent::Html(
                math_html(
                    "<span class=\"preprocessed-math-inline\" data-original-content=\"",
                    c.as_str(),
                    "</span>",
                ),
            ),
            MdEvent::DisplayMath(c) => MdEvent::Html(
                math_html(
                    "<div class=\"preprocessed-math-display\" data-original-content=\"",
                    c.as_str(),
                    "</div>",
                ),
            ),
            other => other.duplicate(),
        };
        proof {
            reveal_strlit("<span class=\"preprocessed-math-inline\" data-original-content=\"");
            reveal_strlit("<div class=\"preprocessed-math-display\" data-original-content=\"");
            reveal_strlit("</span>");
            reveal_strlit("</div>");
            reveal_strlit("\">");
        }
        out.push(SpannedEvent { event, start: e.start, end: e.end, source: e.source });
        i += 1;
    }
    assert(stream_view(out@) =~= math_run(stream_view(events@)));
    out
}

// ---------------------------------------------------------------------------
// Parsing and writing
// ---------------------------------------------------------------------------

/// The events `pulldown-cmark` gives for `md` (with `Options::all()`), with
/// their byte ranges, as `MdEvent`s.
pub uninterp spec fn cmark_events(md: Seq<char>) -> Seq<SpannedView>;

/// Parses `md` with `pulldown_cmark::Parser::new_ext` and `Options::all()`,
/// taking each event with its byte range (`into_offset_iter`) and telling the
/// kinds the passes read apart, one arm each, moving out their text. The
/// stream is a function of the text alone, named `cmark_events`; each event
/// keeps its position.
#[verifier::external_body]
fn parse_offset_events(md: &str) -> (r: Vec<SpannedEvent>)
    ensures
        stream_view(r@) == cmark_events(md@),
        forall|i: int| 0 <= i < r@.len() ==> (#[trigger] r@[i]).source == i,
{
    Parser::new_ext(md, Options::all()).into_offset_iter().enumerate().map(|(i, (e, r))| SpannedEvent {
        event: match e {
            Event::Start(Tag::Table(_)) => MdEvent::StartTable,
            Event::End(TagEnd::Table) => MdEvent::EndTable,
            Event::Start(Tag::CodeBlock(CodeBlockKind::Fenced(l))) => MdEvent::StartFencedCode(l.into_string()),
            Event::End(TagEnd::CodeBlock) => MdEvent::EndCodeBlock,
            Event::Text(t) => MdEvent::Text(t.into_string()),
            Event::InlineMath(t) => MdEvent::InlineMath(t.into_string()),
            Event::DisplayMath(t) => MdEvent::DisplayMath(t.into_string()),
            _ => MdEvent::Other,
        },
        start: r.start, end: r.end, source: i,
    }).collect()
}

/// Every event of `items` that is not HTML comes from a position below `n`.
pub open spec fn sources_below(items: Seq<SpannedView>, n: nat) -> bool {
    forall|i: int| 0 <= i < items.len() && !(items[i].event is Html) ==> (#[trigger] items[i]).source < n
}

/// The HTML `pulldown-cmark` writes for `events`, where an HTML event is
/// written as it is and any other event stands for the parser's event of
/// `md` at its position.
pub uninterp spec fn cmark_write(md: Seq<char>, events: Seq<SpannedView>) -> Seq<char>;

/// Writes the HTML of `events` with `pulldown_cmark::html::push_html`: parses
/// `md` again, and hands on each HTML event as `Event::Html` and each other
/// event as the parsed event at its position. The HTML is a function of the
/// text and the events, named `cmark_write`.
#[verifier::external_body]
pub(crate) fn write_html(md: &str, events: &Vec<SpannedEvent>) -> (r: String)
    requires
        sources_below(stream_view(events@), cmark_events(md@).len()),
    ensures
        r@ == cmark_write(md@, stream_view(events@)),
{
    let parsed: Vec<Event> = Parser::new_ext(md, Options::all()).collect();
    let events = events.iter().map(|e| match &e.event {
        MdEvent::Html(h) => Event::Html(h.clone().into()),
        _ => parsed[e.source].clone(),
    });
    let mut out = String::new();
    pulldown_cmark::html::push_html(&mut out, events);
    out
}

/// The events of a Markdown document, with their byte ranges; each keeps
/// its position in the stream, so every one of them can be written back.
pub fn markdown_events(md: &str) -> (r: Vec<SpannedEvent>)
    ensures
        stream_view(r@) == cmark_events(md@),
        forall|i: int| 0 <= i < r@.len() ==> (#[trigger] r@[i]).source == i,
        sources_below(stream_view(r@), cmark_events(md@).len()),
{
    let events = parse_offset_events(md);
    proof {
        let n = cmark_events(md@).len();
        assert forall|i: int| 0 <= i < stream_view(events@).len() && !(stream_view(events@)[i].event is Html) implies (#[trigger] stream_view(events@)[i]).source < n by {
            assert(events@[i].source == i);
        }
    }
    events
}

// ---------------------------------------------------------------------------
// Laws of the passes
// ---------------------------------------------------------------------------

/// The code block pass lets out only HTML it makes and events it was given:
/// events from below `n` stay from below `n`.
pub proof fn code_pass_keeps_sources(lang: Seq<char>, items: Seq<SpannedView>, n: nat)
    requires
        sources_below(items, n),
    ensures
        sources_below(code_run(lang, items).out, n),
    decreases items.len(),
{
    if items.len() > 0 {
        let prev = items.drop_last();
        assert(sources_below(prev, n)) by {
            assert forall|i: int| 0 <= i < prev.len() && !(prev[i].event is Html) implies (#[trigger] prev[i]).source < n by {
                assert(prev[i] == items[i]);
            }
        }
        code_pass_keeps_sources(lang, prev, n);
        let last = items.last();
        assert(!(last.event is Html) ==> last.source < n) by {
            assert(items[items.len() - 1] == last);
        }
        let st = code_run(lang, prev);
        let out = code_run(lang, items).out;
        assert forall|i: int| 0 <= i < out.len() && !(out[i].event is Html) implies (#[trigger] out[i]).source < n by {
            if i < st.out.len() {
                assert(out[i] == st.out[i]);
            }
        }
    }
}

/// The math pass keeps every event's position, and makes only HTML.
pub proof fn math_pass_keeps_sources(items: Seq<SpannedView>, n: nat)
    requires
        sources_below(items, n),
    ensures
        sources_below(math_run(items), n),
{
    let out = math_run(items);
    assert forall|i: int| 0 <= i < out.len() && !(out[i].event is Html) implies (#[trigger] out[i]).source < n by {
        assert(out[i].source == items[i].source);
        assert(!(items[i].event is Html));
    }
}

/// A stream without a code block in `lang` passes through the code block
/// pass unchanged.
pub proof fn code_pass_without_blocks(lang: Seq<char>, items: Seq<SpannedView>)
    requires
        forall|i: int| 0 <= i < items.len() ==> (#[trigger] items[i]).event != MdEventView::StartFencedCode(lang),
    ensures
        code_run(lang, items).out == items,
        !code_run(lang, items).in_block,
    decreases items.len(),
{
    if items.len() > 0 {
        let prev = items.drop_last();
        assert forall|i: int| 0 <= i < prev.len() implies (#[trigger] prev[i]).event != MdEventView::StartFencedCode(lang) by {
            assert(prev[i] == items[i]);
        }
        code_pass_without_blocks(lang, prev);
        assert(items.last() == items[items.len() - 1]);
        assert(prev.push(items.last()) =~= items);
    }
}

/// What the code block pass lets out is the HTML it makes and events it was
/// given, and never the opening of a block in its language.
pub proof fn code_pass_removes_fences(lang: Seq<char>, items: Seq<SpannedView>)
    ensures
        forall|i: int|
            0 <= i < code_run(lang, items).out.len() ==> (#[trigger] code_run(lang, items).out[i]).event
                != MdEventView::StartFencedCode(lang),
        forall|i: int|
            0 <= i < code_run(lang, items).out.len() ==> (#[trigger] code_run(lang, items).out[i]).event is Html
                || exists|j: int| 0 <= j < items.len() && items[j] == code_run(lang, items).out[i],
    decreases items.len(),
{
    if items.len() > 0 {
        let prev = items.drop_last();
        code_pass_removes_fences(lang, prev);
        let st = code_run(lang, prev);
        let out = code_run(lang, items).out;
        assert forall|i: int| 0 <= i < out.len() implies (#[trigger] out[i]).event != MdEventView::StartFencedCode(lang)
            && (out[i].event is Html || exists|j: int| 0 <= j < items.len() && items[j] == out[i]) by {
            if i < st.out.len() {
                assert(out[i] == st.out[i]);
                if !(st.out[i].event is Html) {
                    let j = choose|j: int| 0 <= j < prev.len() && prev[j] == st.out[i];
                    assert(items[j] == prev[j]);
                }
            } else {
                assert(items[items.len() - 1] == items.last());
            }
        }
    }
}

/// The text of the `Text` events of a stream, in order.
pub open spec fn texts_content(ts: Seq<SpannedView>) -> Seq<char>
    decreases ts.len(),
{
    if ts.len() == 0 {
        Seq::empty()
    } else {
        texts_content(ts.drop_last()) + match ts.last().event {
            MdEventView::Text(t) => t,
            _ => Seq::empty(),
        }
    }
}

proof fn lemma_code_block_body(lang: Seq<char>, before: Seq<SpannedView>, ts: Seq<SpannedView>)
    requires
        before.len() > 0,
        before.last().event == MdEventView::StartFencedCode(lang),
        forall|i: int| 0 <= i < ts.len() ==> (#[trigger] ts[i]).event is Text,
    ensures
        code_run(lang, before + ts) == (CodeState {
            in_block: true,
            content: texts_content(ts),
            start: before.last().start,
            out: code_run(lang, before.drop_last()).out,
        }),
    decreases ts.len(),
{
    if ts.len() == 0 {
        assert(before + ts =~= before);
    } else {
        let prev = ts.drop_last();
        assert forall|i: int| 0 <= i < prev.len() implies (#[trigger] prev[i]).event is Text by {
            assert(prev[i] == ts[i]);
        }
        lemma_code_block_body(lang, before, prev);
        assert((before + ts).drop_last() =~= before + prev);
        assert((before + ts).last() == ts.last());
        assert(ts[ts.len() - 1] == ts.last());
    }
}

/// The code block pass replaces each fenced block in its language by one
/// HTML event: after events that leave no block open, an opening fence in
/// the language, `Text` events and the block's end give the events before
/// followed by the block's HTML (`code_block_html` of the texts joined),
/// ranging from the opening fence to the end of the block, and no block
/// is left open.
pub proof fn code_pass_replaces_block(
    lang: Seq<char>,
    before: Seq<SpannedView>,
    open: SpannedView,
    ts: Seq<SpannedView>,
    close: SpannedView,
)
    requires
        !code_run(lang, before).in_block,
        open.event == MdEventView::StartFencedCode(lang),
        forall|i: int| 0 <= i < ts.len() ==> (#[trigger] ts[i]).event is Text,
        close.event == MdEventView::EndCodeBlock,
    ensures
        code_run(lang, before + seq![open] + ts + seq![close]).out == code_run(lang, before).out.push(
            SpannedView {
                event: MdEventView::Html(code_block_html(lang, texts_content(ts))),
                start: open.start,
                end: close.end,
                source: close.source,
            },
        ),
        !code_run(lang, before + seq![open] + ts + seq![close]).in_block,
{
    let b = before + seq![open];
    assert(b.drop_last() =~= before);
    assert(b.last() == open);
    lemma_code_block_body(lang, b, ts);
    let all = before + seq![open] + ts + seq![close];
    assert(all.drop_last() =~= b + ts);
    assert(all.last() == close);
}

/// The body of a document holds no opening of a Mermaid or math code
/// block and no math expression: each was turned into HTML before writing.
pub proof fn body_has_no_diagram_or_math_fences(md: Seq<char>)
    ensures
        forall|i: int|
            0 <= i < body_events(md).len() ==> (#[trigger] body_events(md)[i]).event != MdEventView::StartFencedCode(
                "math"@,
            ) && body_events(md)[i].event != MdEventView::StartFencedCode("mermaid"@) && !(
            body_events(md)[i].event is InlineMath) && !(body_events(md)[i].event is DisplayMath),
{
    let x = code_run("mermaid"@, cmark_events(md)).out;
    let y = code_run("math"@, x).out;
    code_pass_removes_fences("mermaid"@, cmark_events(md));
    code_pass_removes_fences("math"@, x);
    assert forall|i: int| 0 <= i < body_events(md).len() implies (#[trigger] body_events(md)[i]).event
        != MdEventView::StartFencedCode("math"@) && body_events(md)[i].event != MdEventView::StartFencedCode(
        "mermaid"@,
    ) by {
        assert(body_events(md)[i].event == math_event(y[i].event));
        assert(y[i].event != MdEventView::StartFencedCode("math"@));
        if !(y[i].event is Html) {
            let j = choose|j: int| 0 <= j < x.len() && x[j] == y[i];
            assert(x[j].event != MdEventView::StartFencedCode("mermaid"@));
        }
    }
}

/// The math pass keeps the stream's length and every event's range and
/// position; it leaves no math expression, turns each into HTML that keeps
/// its source (escaped) in an attribute and as text, and leaves every other
/// event as it is.
pub proof fn math_pass_converts_math(items: Seq<SpannedView>)
    ensures
        math_run(items).len() == items.len(),
        forall|i: int|
            0 <= i < items.len() ==> {
                let o = #[trigger] math_run(items)[i];
                &&& o.start == items[i].start && o.end == items[i].end && o.source == items[i].source
                &&& !(o.event is InlineMath) && !(o.event is DisplayMath)
                &&& !(items[i].event is InlineMath) && !(items[i].event is DisplayMath) ==> o == items[i]
                &&& items[i].event matches MdEventView::InlineMath(c) ==> o.event == MdEventView::Html(
                    "<span class=\"preprocessed-math-inline\" data-original-content=\""@ + text::escape_text(c) + "\">"@
                        + text::escape_text(c) + "</span>"@,
                )
                &&& items[i].event matches MdEventView::DisplayMath(c) ==> o.event == MdEventView::Html(
                    "<div class=\"preprocessed-math-display\" data-original-content=\""@ + text::escape_text(c) + "\">"@
                        + text::escape_text(c) + "</div>"@,
                )
            },
{
}

/// A stream without tables passes through the table pass unchanged.
pub proof fn table_pass_without_tables(items: Seq<SpannedView>)
    requires
        forall|i: int| 0 <= i < items.len() ==> (#[trigger] items[i]).event != MdEventView::StartTable,
    ensures
        table_run(items).out == items,
        !table_run(items).in_table,
    decreases items.len(),
{
    if items.len() > 0 {
        let prev = items.drop_last();
        assert forall|i: int| 0 <= i < prev.len() implies (#[trigger] prev[i]).event != MdEventView::StartTable by {
            assert(prev[i] == items[i]);
        }
        table_pass_without_tables(prev);
        assert(items.last() == items[items.len() - 1]);
        assert(prev.push(items.last()) =~= items);
    }
}

/// The kinds of a stream's events, in order.
pub open spec fn kinds(items: Seq<SpannedView>) -> Seq<MdEventView> {
    items.map_values(|e: SpannedView| e.event)
}

/// Tables in `items` do not nest: no table starts inside another.
pub open spec fn tables_do_not_nest(items: Seq<SpannedView>) -> bool {
    forall|i: int|
        0 <= i < items.len() && (#[trigger] items[i]).event == MdEventView::StartTable ==> !table_run(
            items.take(i),
        ).in_table
}

proof fn lemma_table_run_kinds(items: Seq<SpannedView>)
    requires
        tables_do_not_nest(items),
    ensures
        kinds(table_run(items).out) + kinds(table_run(items).held) == kinds(items),
        !table_run(items).in_table ==> table_run(items).held.len() == 0,
        table_run(items).in_table ==> table_run(items).held.len() > 0,
    decreases items.len(),
{
    if items.len() > 0 {
        let prev = items.drop_last();
        assert(tables_do_not_nest(prev)) by {
            assert forall|i: int|
                0 <= i < prev.len() && (#[trigger] prev[i]).event == MdEventView::StartTable implies !table_run(
                prev.take(i),
            ).in_table by {
                assert(prev[i] == items[i]);
                assert(prev.take(i) =~= items.take(i));
            }
        }
        lemma_table_run_kinds(prev);
        let st = table_run(prev);
        let item = items.last();
        assert(items.take(items.len() - 1) =~= prev);
        assert(item == items[items.len() - 1]);
        assert(kinds(items) =~= kinds(prev).push(item.event));
        let held2 = stretch_first(st.held, item.end);
        assert(kinds(held2) =~= kinds(st.held));
        assert(kinds(st.out + held2.push(item)) =~= kinds(st.out) + kinds(held2).push(item.event));
        assert(kinds(st.out.push(item)) =~= kinds(st.out).push(item.event));
        assert(kinds(st.held.push(item)) =~= kinds(st.held).push(item.event));
        assert(kinds(seq![item]) =~= seq![item.event]);
        assert(kinds(Seq::<SpannedView>::empty()) =~= Seq::<MdEventView>::empty());
    }
}

/// The table pass only moves ranges: when tables do not nest and the last
/// one is closed, it lets out every event, in order.
pub proof fn table_pass_keeps_events(items: Seq<SpannedView>)
    requires
        tables_do_not_nest(items),
        !table_run(items).in_table,
    ensures
        kinds(table_run(items).out) == kinds(items),
{
    lemma_table_run_kinds(items);
    assert(kinds(table_run(items).held) =~= Seq::<MdEventView>::empty());
    assert(kinds(table_run(items).out) + kinds(table_run(items).held) =~= kinds(table_run(items).out));
}

/// Whether `e` is the end of the table that starts at `i` in `items`: the
/// end of the first table end after `i`.
pub open spec fn ends_table_at(items: Seq<SpannedView>, i: int, e: usize) -> bool {
    exists|j: int|
        #![trigger items[j]]
        i < j < items.len() && items[j].event == MdEventView::EndTable && e == items[j].end && forall|m: int|
            i < m < j ==> (#[trigger] items[m]).event != MdEventView::EndTable
}

/// What the table pass keeps of each event, where `o` is what it let out
/// and still holds.
pub open spec fn ranges_kept(items: Seq<SpannedView>, o: Seq<SpannedView>, closed: int) -> bool {
    &&& o.len() == items.len()
    &&& forall|i: int|
        0 <= i < items.len() ==> {
            &&& (#[trigger] o[i]).event == items[i].event
            &&& o[i].start == items[i].start
            &&& o[i].source == items[i].source
            &&& (items[i].event != MdEventView::StartTable || i >= closed) ==> o[i].end == items[i].end
            &&& (items[i].event == MdEventView::StartTable && i < closed) ==> ends_table_at(items, i, o[i].end)
        }
}

proof fn lemma_table_run_ranges(items: Seq<SpannedView>)
    requires
        tables_do_not_nest(items),
    ensures
        ranges_kept(items, table_run(items).out + table_run(items).held, table_run(items).out.len() as int),
        table_run(items).in_table ==> {
            &&& table_run(items).held.len() > 0
            &&& items[table_run(items).out.len() as int].event == MdEventView::StartTable
            &&& forall|m: int|
                table_run(items).out.len() < m < items.len() ==> (#[trigger] items[m]).event != MdEventView::EndTable
                    && items[m].event != MdEventView::StartTable
        },
        !table_run(items).in_table ==> table_run(items).held.len() == 0,
    decreases items.len(),
{
    if items.len() > 0 {
        let prev = items.drop_last();
        assert(tables_do_not_nest(prev)) by {
            assert forall|i: int|
                0 <= i < prev.len() && (#[trigger] prev[i]).event == MdEventView::StartTable implies !table_run(
                prev.take(i),
            ).in_table by {
                assert(prev[i] == items[i]);
                assert(prev.take(i) =~= items.take(i));
            }
        }
        lemma_table_run_ranges(prev);
        let st = table_run(prev);
        let item = items.last();
        let n = prev.len() as int;
        assert(items.take(n) =~= prev);
        assert(item == items[n]);
        assert forall|i: int| 0 <= i < n implies #[trigger] items[i] == prev[i] by {}
        let o0 = st.out + st.held;
        let ns = table_run(items);
        let o = ns.out + ns.held;
        let c0 = st.out.len() as int;
        let c = ns.out.len() as int;
        // closed tables keep their witness in the longer stream
        assert forall|i: int| 0 <= i < c0 && items[i].event == MdEventView::StartTable && ends_table_at(prev, i, o0[i].end) implies ends_table_at(items, i, o0[i].end) by {
            let j = choose|j: int|
                #![trigger prev[j]]
                i < j < prev.len() && prev[j].event == MdEventView::EndTable && o0[i].end == prev[j].end && forall|m: int|
                    i < m < j ==> (#[trigger] prev[m]).event != MdEventView::EndTable;
            assert(items[j] == prev[j]);
            assert forall|m: int| i < m < j implies (#[trigger] items[m]).event != MdEventView::EndTable by {
                assert(items[m] == prev[m]);
            }
        }
        match item.event {
            MdEventView::StartTable => {
                assert(!st.in_table);
                assert(o =~= st.out.push(item));
                assert forall|i: int| 0 <= i < items.len() implies {
                    &&& (#[trigger] o[i]).event == items[i].event
                    &&& o[i].start == items[i].start
                    &&& o[i].source == items[i].source
                    &&& (items[i].event != MdEventView::StartTable || i >= c) ==> o[i].end == items[i].end
                    &&& (items[i].event == MdEventView::StartTable && i < c) ==> ends_table_at(items, i, o[i].end)
                } by {
                    if i < n {
                        assert(o[i] == o0[i]);
                        assert(items[i] == prev[i]);
                    }
                }
            },
            MdEventView::EndTable => {
                if st.in_table {
                    let held2 = stretch_first(st.held, item.end);
                    assert(o =~= st.out + held2.push(item));
                    assert(ns.held.len() == 0);
                    assert forall|i: int| 0 <= i < items.len() implies {
                        &&& (#[trigger] o[i]).event == items[i].event
                        &&& o[i].start == items[i].start
                        &&& o[i].source == items[i].source
                        &&& (items[i].event != MdEventView::StartTable || i >= c) ==> o[i].end == items[i].end
                        &&& (items[i].event == MdEventView::StartTable && i < c) ==> ends_table_at(items, i, o[i].end)
                    } by {
                        if i < c0 {
                            assert(o[i] == o0[i]);
                            assert(items[i] == prev[i]);
                        } else if i == c0 {
                            assert(o[i] == held2[0]);
                            assert(o0[i] == st.held[0]);
                            assert(items[i] == prev[i]);
                            assert(o[i].end == item.end);
                            assert(ends_table_at(items, i, o[i].end)) by {
                                assert forall|m: int| i < m < n implies (#[trigger] items[m]).event != MdEventView::EndTable by {
                                    assert(items[m] == prev[m]);
                                }
                            }
                        } else if i < n {
                            assert(o[i] == held2[i - c0]);
                            assert(held2[i - c0] == st.held[i - c0]);
                            assert(o0[i] == st.held[i - c0]);
                            assert(items[i] == prev[i]);
                            assert(prev[i].event != MdEventView::StartTable);
                        } else {
                            assert(o[i] == item);
                        }
                    }
                } else {
                    assert(o =~= st.out.push(item));
                    assert forall|i: int| 0 <= i < items.len() implies {
                        &&& (#[trigger] o[i]).event == items[i].event
                        &&& o[i].start == items[i].start
                        &&& o[i].source == items[i].source
                        &&& (items[i].event != MdEventView::StartTable || i >= c) ==> o[i].end == items[i].end
                        &&& (items[i].event == MdEventView::StartTable && i < c) ==> ends_table_at(items, i, o[i].end)
                    } by {
                        if i < n {
                            assert(o[i] == o0[i]);
                            assert(items[i] == prev[i]);
                        }
                    }
                }
            },
            _ => {
                if st.in_table {
                    assert(o =~= o0.push(item));
                } else {
                    assert(o =~= st.out.push(item));
                }
                assert forall|i: int| 0 <= i < items.len() implies {
                    &&& (#[trigger] o[i]).event == items[i].event
                    &&& o[i].start == items[i].start
                    &&& o[i].source == items[i].source
                    &&& (items[i].event != MdEventView::StartTable || i >= c) ==> o[i].end == items[i].end
                    &&& (items[i].event == MdEventView::StartTable && i < c) ==> ends_table_at(items, i, o[i].end)
                } by {
                    if i < n {
                        assert(o[i] == o0[i]);
                        assert(items[i] == prev[i]);
                    }
                }
            },
        }
        if ns.in_table {
            assert forall|m: int| c < m < items.len() implies (#[trigger] items[m]).event != MdEventView::EndTable
                && items[m].event != MdEventView::StartTable by {
                if m < n {
                    assert(items[m] == prev[m]);
                }
                if m == n && item.event == MdEventView::StartTable {
                    assert(!table_run(items.take(n)).in_table);
                }
            }
        }
    }
}

/// The table pass only stretches ranges: when tables do not nest and the
/// last one is closed, it lets out every event, in order, with its kind,
/// start and position; every end is kept, but each table start's, which
/// becomes the end of the first table end after it.
pub proof fn table_pass_stretches_starts(items: Seq<SpannedView>)
    requires
        tables_do_not_nest(items),
        !table_run(items).in_table,
    ensures
        ranges_kept(items, table_run(items).out, items.len() as int),
{
    lemma_table_run_ranges(items);
    assert(table_run(items).out + table_run(items).held =~= table_run(items).out);
}

// ---------------------------------------------------------------------------
// The body of a document
// ---------------------------------------------------------------------------

/// The events the body of a document is written from: Mermaid and math code
/// blocks, then math expressions, turned into HTML for the viewer's scripts.
pub open spec fn body_events(md: Seq<char>) -> Seq<SpannedView> {
    math_run(code_run("math"@, code_run("mermaid"@, cmark_events(md)).out).out)
}

/// Renders Markdown text to HTML, Mermaid diagrams and math prepared for the
/// viewer's scripts.
pub fn render_markdown_body(md: &str) -> (r: String)
    ensures
        r@ == cmark_write(md@, body_events(md@)),
{
    let events = markdown_events(md);
    let ghost n = cmark_events(md@).len();
    let events = process_code_blocks(events, "mermaid");
    proof {
        code_pass_keeps_sources("mermaid"@, cmark_events(md@), n);
    }
    let events = process_code_blocks(events, "math");
    proof {
        code_pass_keeps_sources("math"@, code_run("mermaid"@, cmark_events(md@)).out, n);
    }
    let events = process_math_expressions(events);
    proof {
        math_pass_keeps_sources(code_run("math"@, code_run("mermaid"@, cmark_events(md@)).out).out, n);
    }
    write_html(md, &events)
}

/// Puts the frontmatter table, when there is one, above the document's HTML.
pub fn prepend_frontmatter(frontmatter_html: &str, html: &str) -> (r: String)
    ensures
        r@ == if frontmatter_html@.len() == 0 {
            html@
        } else {
            frontmatter_html@ + "\n"@ + html@
        },
{
    if frontmatter_html.is_empty() {
        html.to_owned()
    } else {
        let mut s = frontmatter_html.to_owned();
        push_str(&mut s, "\n");
        push_str(&mut s, html);
        s
    }
}

} // verus!

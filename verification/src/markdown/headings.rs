//! Headings of a Markdown document, with the anchors the table of contents links to.

use vstd::prelude::*;
use pulldown_cmark::{Event, Tag, TagEnd};
use crate::markdown::slug;
use crate::markdown::slug::generate_slug;
use crate::text;
use crate::text::{chars_of, push_char, push_decimal, push_str, string_of, trim_bounds};

verus! {

/// Information about a heading extracted from Markdown.
#[derive(Debug, PartialEq, Eq)]
pub struct HeadingInfo {
    /// Heading level (1-6).
    pub level: u8,
    /// Heading text content.
    pub text: String,
    /// Anchor id for linking.
    pub id: String,
}

/// A heading as plain values: level, text and id.
pub open spec fn heading_view(h: HeadingInfo) -> (u8, Seq<char>, Seq<char>) {
    (h.level, h.text@, h.id@)
}

/// What the heading scan reads of a parser event.
#[derive(Debug, Clone, Copy, PartialEq, Eq)]
pub enum EventKind {
    /// A heading opens (with its level).
    StartHeading,
    /// A heading closes.
    EndHeading,
    /// Text (with its content).
    Text,
    /// Inline code (with its content).
    Code,
    /// A soft or hard line break.
    Break,
    /// Anything else.
    Other,
}

/// An event as plain values.
pub open spec fn event_view(e: (EventKind, u8, String)) -> (EventKind, u8, Seq<char>) {
    (e.0, e.1, e.2@)
}

/// The events that `pulldown-cmark` gives for `md` (with `Options::all()`),
/// reduced to what the heading scan reads.
pub uninterp spec fn cmark_heading_events(md: Seq<char>) -> Seq<(EventKind, u8, Seq<char>)>;

/// Parses `md` with `pulldown_cmark::Parser::new_ext` and `Options::all()`
/// and tells each event apart, one arm per kind, moving out the heading
/// level and the text. The events are a function of the text alone, named
/// `cmark_heading_events`.
#[verifier::external_body]
pub(crate) fn heading_events(md: &str) -> (r: Vec<(EventKind, u8, String)>)
    ensures
        r@.map_values(|e: (EventKind, u8, String)| event_view(e)) == cmark_heading_events(md@),
{
    pulldown_cmark::Parser::new_ext(md, pulldown_cmark::Options::all()).map(|e| match e {
        Event::Start(Tag::Heading { level, .. }) => (EventKind::StartHeading, level as u8, String::new()),
        Event::End(TagEnd::Heading(_)) => (EventKind::EndHeading, 0, String::new()),
        Event::Text(t) => (EventKind::Text, 0, t.into_string()),
        Event::Code(t) => (EventKind::Code, 0, t.into_string()),
        Event::SoftBreak | Event::HardBreak => (EventKind::Break, 0, String::new()),
        _ => (EventKind::Other, 0, String::new()),
    }).collect()
}

/// The state of the heading scan: the level of the heading being read, its
/// text so far, and the headings finished, each with its level and text.
pub type ScanState = (Option<u8>, Seq<char>, Seq<(u8, Seq<char>)>);

/// One step of the heading scan.
pub open spec fn scan_step(st: ScanState, ev: (EventKind, u8, Seq<char>)) -> ScanState {
    match ev.0 {
        EventKind::StartHeading => (Some(ev.1), Seq::empty(), st.2),
        EventKind::Text | EventKind::Code => if st.0 is Some {
            (st.0, st.1 + ev.2, st.2)
        } else {
            st
        },
        EventKind::Break => if st.0 is Some {
            (st.0, st.1.push(' '), st.2)
        } else {
            st
        },
        EventKind::EndHeading => if st.0 is Some {
            (None, st.1, st.2.push((st.0.unwrap(), st.1)))
        } else {
            st
        },
        EventKind::Other => st,
    }
}

/// The heading scan over a list of events.
pub open spec fn scan(events: Seq<(EventKind, u8, Seq<char>)>) -> ScanState
    decreases events.len(),
{
    if events.len() == 0 {
        (None, Seq::empty(), Seq::empty())
    } else {
        scan_step(scan(events.drop_last()), events.last())
    }
}

/// How many of the first `n` slugs equal `b`.
pub open spec fn count_before(bases: Seq<Seq<char>>, b: Seq<char>, n: int) -> nat
    decreases n,
{
    if n <= 0 {
        0
    } else {
        count_before(bases, b, n - 1) + if bases[n - 1] == b { 1nat } else { 0nat }
    }
}

/// The anchor of a heading whose slug came `k` times before it: the slug
/// itself the first time, then the slug with `-k` appended.
pub open spec fn heading_id(base: Seq<char>, k: nat) -> Seq<char> {
    if k == 0 {
        base
    } else {
        base + "-"@ + text::decimal(k)
    }
}

/// The headings, as plain values, for the finished headings of a scan.
pub open spec fn heading_infos(found: Seq<(u8, Seq<char>)>) -> Seq<(u8, Seq<char>, Seq<char>)> {
    let bases = Seq::new(found.len(), |i: int| slug::slug(found[i].1));
    Seq::new(
        found.len(),
        |i: int| (found[i].0, text::trim(found[i].1), heading_id(bases[i], count_before(bases, bases[i], i))),
    )
}

/// The views of the finished headings.
pub open spec fn found_view(v: Seq<(u8, String)>) -> Seq<(u8, Seq<char>)> {
    v.map_values(|f: (u8, String)| (f.0, f.1@))
}

/// Collects the headings of an event list: their level, trimmed text and an
/// anchor made unique by counting earlier headings with the same slug.
pub fn headings_from_events(events: &Vec<(EventKind, u8, String)>) -> (r: Vec<HeadingInfo>)
    ensures
        r@.map_values(|h: HeadingInfo| heading_view(h)) == heading_infos(
            scan(events@.map_values(|e: (EventKind, u8, String)| event_view(e))).2,
        ),
{
    let ghost evs = events@.map_values(|e: (EventKind, u8, String)| event_view(e));
    let mut level: Option<u8> = None;
    let mut current = String::new();
    let mut found: Vec<(u8, String)> = Vec::new();
    let mut i: usize = 0;
    while i < events.len()
        invariant
            i <= events@.len(),
            evs == events@.map_values(|e: (EventKind, u8, String)| event_view(e)),
            scan(evs.take(i as int)) == (level, current@, found_view(found@)),
        decreases events@.len() - i,
    {
        let ev = &events[i];
        assert(evs.take(i + 1).drop_last() =~= evs.take(i as int));
        assert(evs.take(i + 1).last() == event_view(*ev));
        let ghost before_found = found@;
        match ev.0 {
            EventKind::StartHeading => {
                level = Some(ev.1);
                current = String::new();
            },
            EventKind::Text | EventKind::Code => {
                if level.is_some() {
                    push_str(&mut current, ev.2.as_str());
                }
            },
            EventKind::Break => {
                if level.is_some() {
                    push_char(&mut current, ' ');
                }
            },
            EventKind::EndHeading => {
                match level {
                    Some(l) => {
                        found.push((l, current.clone()));
                        assert(found_view(found@) =~= found_view(before_found).push((l, current@)));
                        level = None;
                    },
                    None => {},
                }
            },
            EventKind::Other => {},
        }
        i += 1;
    }
    assert(evs.take(events@.len() as int) =~= evs);
    let ghost fv = found_view(found@);

    let mut bases: Vec<String> = Vec::new();
    let mut j: usize = 0;
    while j < found.len()
        invariant
            j <= found@.len(),
            fv == found_view(found@),
            bases@.len() == j,
            forall|k: int| 0 <= k < j ==> (#[trigger] bases@[k])@ == slug::slug(fv[k].1),
        decreases found@.len() - j,
    {
        bases.push(generate_slug(found[j].1.as_str()));
        j += 1;
    }
    let ghost bv = Seq::new(fv.len(), |k: int| slug::slug(fv[k].1));
    assert(bases@.map_values(|b: String| b@) =~= bv);

    let mut out: Vec<HeadingInfo> = Vec::new();
    let mut n: usize = 0;
    while n < found.len()
        invariant
            n <= found@.len(),
            fv == found_view(found@),
            bases@.len() == found@.len(),
            bases@.map_values(|b: String| b@) == bv,
            bv == Seq::new(fv.len(), |k: int| slug::slug(fv[k].1)),
            out@.map_values(|h: HeadingInfo| heading_view(h)) == heading_infos(fv).take(n as int),
        decreases found@.len() - n,
    {
        let mut k: usize = 0;
        let mut m: usize = 0;
        while m < n
            invariant
                m <= n < bases@.len(),
                k <= m,
                bases@.map_values(|b: String| b@) == bv,
                k == count_before(bv, bv[n as int], m as int),
            decreases n - m,
        {
            assert(bases@[m as int]@ == bv[m as int]);
            assert(bases@[n as int]@ == bv[n as int]);
            if bases[m] == bases[n] {
                k += 1;
            }
            m += 1;
        }
        let base = &bases[n];
        assert(base@ == bv[n as int]);
        let mut id = base.clone();
        if k > 0 {
            push_str(&mut id, "-");
            push_decimal(&mut id, k);
        }
        let t = chars_of(found[n].1.as_str());
        let (a, b) = trim_bounds(&t, 0, t.len());
        assert(t@.subrange(0, t@.len() as int) =~= t@);
        let h = HeadingInfo { level: found[n].0, text: string_of(&t, a, b), id };
        let ghost before = out@;
        out.push(h);
        assert(out@.map_values(|h: HeadingInfo| heading_view(h)) =~= before.map_values(
            |h: HeadingInfo| heading_view(h),
        ).push(heading_infos(fv)[n as int]));
        assert(heading_infos(fv).take(n + 1) =~= heading_infos(fv).take(n as int).push(heading_infos(fv)[n as int]));
        n += 1;
    }
    assert(heading_infos(fv).take(found@.len() as int) =~= heading_infos(fv));
    out
}

} // verus!

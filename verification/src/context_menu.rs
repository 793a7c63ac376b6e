//! The context menu of the document view: which entries it shows for what
//! was clicked, and what each does.
//!
//! Showing the menu and carrying out an entry's action is the
//! application's part.

use vstd::prelude::*;
use crate::text;
use crate::text::{push_decimal, push_str};

verus! {

broadcast use vstd::string::group_string_axioms;

/// What was right-clicked in the document.
#[derive(Debug, PartialEq, Eq)]
pub enum ContentContext {
    /// Anything else.
    General,
    /// A link.
    Link { href: String },
    /// An image, with its source, alternative text and, for a local image,
    /// its file path.
    Image { src: String, alt: Option<String>, original_src: Option<String> },
    /// A code block, with its language.
    CodeBlock { content: String, language: Option<String> },
    /// A Mermaid diagram, with its source.
    Mermaid { source: String },
    /// A math block, with its source.
    MathBlock { source: String },
}

/// What a menu entry does.
#[derive(Debug, PartialEq, Eq)]
pub enum MenuAction {
    /// Copy the text to the clipboard.
    CopyText(String),
    /// Select the whole document.
    SelectAll,
    /// Open the search, with the text to search for.
    FindInPage(Option<String>),
    /// Open the linked file (relative to the document) in the current tab.
    OpenLink(String),
    /// Open the linked file in a new tab.
    OpenLinkInNewTab(String),
    /// Show the image in its own window.
    OpenImageViewer { src: String, original_src: Option<String> },
    /// Copy the image to the clipboard.
    CopyImage { src: String, original_src: Option<String> },
    /// Save the image to a file.
    SaveImage { src: String, original_src: Option<String> },
}

/// An entry of the menu.
#[derive(Debug, PartialEq, Eq)]
pub enum MenuEntry {
    /// An item with its label, keyboard shortcut and action.
    Item { label: String, shortcut: Option<&'static str>, action: MenuAction },
    /// A separating line.
    Separator,
}

/// The view of an optional text.
pub open spec fn opt_text(o: Option<String>) -> Option<Seq<char>> {
    match o {
        Some(s) => Some(s@),
        None => None,
    }
}

/// The mathematical value of a `MenuAction`.
pub enum ActionView {
    CopyText(Seq<char>),
    SelectAll,
    FindInPage(Option<Seq<char>>),
    OpenLink(Seq<char>),
    OpenLinkInNewTab(Seq<char>),
    OpenImageViewer(Seq<char>, Option<Seq<char>>),
    CopyImage(Seq<char>, Option<Seq<char>>),
    SaveImage(Seq<char>, Option<Seq<char>>),
}

/// The mathematical value of a `MenuEntry`.
pub enum EntryView {
    Item(Seq<char>, Option<Seq<char>>, ActionView),
    Separator,
}

impl View for MenuAction {
    type V = ActionView;

    open spec fn view(&self) -> ActionView {
        match self {
            MenuAction::CopyText(t) => ActionView::CopyText(t@),
            MenuAction::SelectAll => ActionView::SelectAll,
            MenuAction::FindInPage(t) => ActionView::FindInPage(opt_text(*t)),
            MenuAction::OpenLink(h) => ActionView::OpenLink(h@),
            MenuAction::OpenLinkInNewTab(h) => ActionView::OpenLinkInNewTab(h@),
            MenuAction::OpenImageViewer { src, original_src } => ActionView::OpenImageViewer(src@, opt_text(*original_src)),
            MenuAction::CopyImage { src, original_src } => ActionView::CopyImage(src@, opt_text(*original_src)),
            MenuAction::SaveImage { src, original_src } => ActionView::SaveImage(src@, opt_text(*original_src)),
        }
    }
}

impl View for MenuEntry {
    type V = EntryView;

    open spec fn view(&self) -> EntryView {
        match self {
            MenuEntry::Item { label, shortcut, action } => EntryView::Item(
                label@,
                match shortcut {
                    Some(s) => Some(s@),
                    None => None,
                },
                action@,
            ),
            MenuEntry::Separator => EntryView::Separator,
        }
    }
}

/// The views of a list of entries.
pub open spec fn entries_view(v: Seq<MenuEntry>) -> Seq<EntryView> {
    v.map_values(|e: MenuEntry| e@)
}

/// An item without a shortcut.
pub open spec fn item(label: Seq<char>, action: ActionView) -> EntryView {
    EntryView::Item(label, None, action)
}

/// The source that "Copy Code" copies: a code block's text, or a diagram's
/// or formula's source.
pub open spec fn code_source(c: ContentContext) -> Option<Seq<char>> {
    match c {
        ContentContext::CodeBlock { content, .. } => Some(content@),
        ContentContext::Mermaid { source } => Some(source@),
        ContentContext::MathBlock { source } => Some(source@),
        _ => None,
    }
}

/// The items that copy the document's path: the path, the path with the
/// clicked source line, and with the clicked range of lines when it spans
/// more than one.
pub open spec fn copy_path_items(path: Seq<char>, line: Option<u32>, line_end: Option<u32>) -> Seq<EntryView> {
    seq![item("Copy File Path"@, ActionView::CopyText(path))] + match line {
        Some(l) => seq![
            item(
                "Copy File Path with Line ("@ + text::decimal(l as nat) + ")"@,
                ActionView::CopyText(path + ":"@ + text::decimal(l as nat)),
            ),
        ],
        None => Seq::empty(),
    } + match (line, line_end) {
        (Some(s), Some(e)) => if s != e {
            seq![
                item(
                    "Copy File Path with Range ("@ + text::decimal(s as nat) + "-"@ + text::decimal(e as nat) + ")"@,
                    ActionView::CopyText(path + ":"@ + text::decimal(s as nat) + "-"@ + text::decimal(e as nat)),
                ),
            ]
        } else {
            Seq::empty()
        },
        _ => Seq::empty(),
    }
}

/// The items for a clicked link.
pub open spec fn link_items(href: Seq<char>) -> Seq<EntryView> {
    seq![
        item("Open Link"@, ActionView::OpenLink(href)),
        item("Open Link in New Tab"@, ActionView::OpenLinkInNewTab(href)),
        item("Copy Link Path"@, ActionView::CopyText(href)),
    ]
}

/// The items for a clicked image; "Copy Image Path" copies the file path of
/// a local image, else its source.
pub open spec fn image_items(src: Seq<char>, original_src: Option<Seq<char>>) -> Seq<EntryView> {
    seq![
        item("Open in Image Viewer"@, ActionView::OpenImageViewer(src, original_src)),
        item("Copy Image"@, ActionView::CopyImage(src, original_src)),
        item("Save Image As..."@, ActionView::SaveImage(src, original_src)),
        item(
            "Copy Image Path"@,
            ActionView::CopyText(
                match original_src {
                    Some(p) => p,
                    None => src,
                },
            ),
        ),
    ]
}

/// The whole menu: copying the selection and the code, the document's
/// path, selecting all and searching (the selection, when there is one),
/// then what belongs to a clicked link or image.
pub open spec fn content_menu(
    context: ContentContext,
    has_selection: bool,
    selected_text: Seq<char>,
    current_file: Option<Seq<char>>,
    line: Option<u32>,
    line_end: Option<u32>,
) -> Seq<EntryView> {
    (if has_selection {
        seq![EntryView::Item("Copy"@, Some("⌘C"@), ActionView::CopyText(selected_text))]
    } else {
        Seq::empty()
    }) + match code_source(context) {
        Some(s) => seq![item("Copy Code"@, ActionView::CopyText(s))],
        None => Seq::empty(),
    } + match current_file {
        Some(p) => copy_path_items(p, line, line_end),
        None => Seq::empty(),
    } + seq![
        EntryView::Separator,
        EntryView::Item("Select All"@, Some("⌘A"@), ActionView::SelectAll),
        EntryView::Item(
            "Find in Page"@,
            Some("⌘F"@),
            ActionView::FindInPage(
                if has_selection && selected_text.len() > 0 {
                    Some(selected_text)
                } else {
                    None
                },
            ),
        ),
    ] + match context {
        ContentContext::Link { href } => seq![EntryView::Separator] + link_items(href@),
        ContentContext::Image { src, original_src, .. } => seq![EntryView::Separator] + image_items(
            src@,
            opt_text(original_src),
        ),
        _ => Seq::empty(),
    }
}

fn copy_text_item(label: String, text: String) -> (r: MenuEntry)
    ensures
        r@ == item(label@, ActionView::CopyText(text@)),
{
    MenuEntry::Item { label, shortcut: None, action: MenuAction::CopyText(text) }
}

fn append_entries(v: &mut Vec<MenuEntry>, mut more: Vec<MenuEntry>)
    ensures
        entries_view(final(v)@) == entries_view(old(v)@) + entries_view(more@),
{
    let ghost a = v@;
    let ghost b = more@;
    v.append(&mut more);
    assert(entries_view(v@) =~= entries_view(a) + entries_view(b));
}

fn copy_path_entries(path: &str, line: Option<u32>, line_end: Option<u32>) -> (r: Vec<MenuEntry>)
    ensures
        entries_view(r@) == copy_path_items(path@, line, line_end),
{
    let mut v: Vec<MenuEntry> = Vec::new();
    v.push(copy_text_item("Copy File Path".to_owned(), path.to_owned()));
    let ghost first = entries_view(v@);
    assert(first =~= seq![item("Copy File Path"@, ActionView::CopyText(path@))]);
    if let Some(l) = line {
        let mut label = "Copy File Path with Line (".to_owned();
        push_decimal(&mut label, l as usize);
        push_str(&mut label, ")");
        let mut t = path.to_owned();
        push_str(&mut t, ":");
        push_decimal(&mut t, l as usize);
        v.push(copy_text_item(label, t));
    }
    let ghost second = entries_view(v@);
    assert(second =~= first + match line {
        Some(l) => seq![
            item(
                "Copy File Path with Line ("@ + text::decimal(l as nat) + ")"@,
                ActionView::CopyText(path@ + ":"@ + text::decimal(l as nat)),
            ),
        ],
        None => Seq::empty(),
    });
    if let (Some(s), Some(e)) = (line, line_end) {
        if s != e {
            let mut label = "Copy File Path with Range (".to_owned();
            push_decimal(&mut label, s as usize);
            push_str(&mut label, "-");
            push_decimal(&mut label, e as usize);
            push_str(&mut label, ")");
            let mut t = path.to_owned();
            push_str(&mut t, ":");
            push_decimal(&mut t, s as usize);
            push_str(&mut t, "-");
            push_decimal(&mut t, e as usize);
            v.push(copy_text_item(label, t));
        }
    }
    assert(entries_view(v@) =~= copy_path_items(path@, line, line_end));
    v
}

fn clone_opt(o: &Option<String>) -> (r: Option<String>)
    ensures
        opt_text(r) == opt_text(*o),
{
    match o {
        Some(s) => Some(s.clone()),
        None => None,
    }
}

fn context_entries(context: &ContentContext) -> (r: Vec<MenuEntry>)
    ensures
        entries_view(r@) == match *context {
            ContentContext::Link { href } => seq![EntryView::Separator] + link_items(href@),
            ContentContext::Image { src, original_src, .. } => seq![EntryView::Separator] + image_items(
                src@,
                opt_text(original_src),
            ),
            _ => Seq::<EntryView>::empty(),
        },
{
    let mut v: Vec<MenuEntry> = Vec::new();
    match context {
        ContentContext::Link { href } => {
            v.push(MenuEntry::Separator);
            v.push(MenuEntry::Item { label: "Open Link".to_owned(), shortcut: None, action: MenuAction::OpenLink(href.clone()) });
            v.push(
                MenuEntry::Item {
                    label: "Open Link in New Tab".to_owned(),
                    shortcut: None,
                    action: MenuAction::OpenLinkInNewTab(href.clone()),
                },
            );
            v.push(copy_text_item("Copy Link Path".to_owned(), href.clone()));
        },
        ContentContext::Image { src, original_src, .. } => {
            v.push(MenuEntry::Separator);
            v.push(
                MenuEntry::Item {
                    label: "Open in Image Viewer".to_owned(),
                    shortcut: None,
                    action: MenuAction::OpenImageViewer { src: src.clone(), original_src: clone_opt(original_src) },
                },
            );
            v.push(
                MenuEntry::Item {
                    label: "Copy Image".to_owned(),
                    shortcut: None,
                    action: MenuAction::CopyImage { src: src.clone(), original_src: clone_opt(original_src) },
                },
            );
            v.push(
                MenuEntry::Item {
                    label: "Save Image As...".to_owned(),
                    shortcut: None,
                    action: MenuAction::SaveImage { src: src.clone(), original_src: clone_opt(original_src) },
                },
            );
            let path = match original_src {
                Some(p) => p.clone(),
                None => src.clone(),
            };
            v.push(copy_text_item("Copy Image Path".to_owned(), path));
        },
        _ => {},
    }
    assert(entries_view(v@) =~= match *context {
        ContentContext::Link { href } => seq![EntryView::Separator] + link_items(href@),
        ContentContext::Image { src, original_src, .. } => seq![EntryView::Separator] + image_items(
            src@,
            opt_text(original_src),
        ),
        _ => Seq::<EntryView>::empty(),
    });
    v
}

/// The entries of the document's context menu for a click on `context`,
/// with the selection, the document's path and the source lines under the
/// click.
pub fn content_menu_entries(
    context: &ContentContext,
    has_selection: bool,
    selected_text: &str,
    current_file: Option<&str>,
    source_line: Option<u32>,
    source_line_end: Option<u32>,
) -> (r: Vec<MenuEntry>)
    ensures
        entries_view(r@) == content_menu(
            *context,
            has_selection,
            selected_text@,
            match current_file {
                Some(p) => Some(p@),
                None => None,
            },
            source_line,
            source_line_end,
        ),
{
    let mut v: Vec<MenuEntry> = Vec::new();
    if has_selection {
        v.push(
            MenuEntry::Item {
                label: "Copy".to_owned(),
                shortcut: Some("⌘C"),
                action: MenuAction::CopyText(selected_text.to_owned()),
            },
        );
    }
    let ghost s1 = entries_view(v@);
    assert(s1 =~= if has_selection {
        seq![EntryView::Item("Copy"@, Some("⌘C"@), ActionView::CopyText(selected_text@))]
    } else {
        Seq::empty()
    });
    let source = match context {
        ContentContext::CodeBlock { content, .. } => Some(content.clone()),
        ContentContext::Mermaid { source } => Some(source.clone()),
        ContentContext::MathBlock { source } => Some(source.clone()),
        _ => None,
    };
    if let Some(s) = source {
        v.push(copy_text_item("Copy Code".to_owned(), s));
    }
    let ghost s2 = entries_view(v@);
    assert(s2 =~= s1 + match code_source(*context) {
        Some(s) => seq![item("Copy Code"@, ActionView::CopyText(s))],
        None => Seq::<EntryView>::empty(),
    });
    if let Some(p) = current_file {
        append_entries(&mut v, copy_path_entries(p, source_line, source_line_end));
    }
    let ghost s3 = entries_view(v@);
    assert(s3 =~= s2 + match current_file {
        Some(p) => copy_path_items(p@, source_line, source_line_end),
        None => Seq::<EntryView>::empty(),
    });
    let search = if has_selection && !selected_text.is_empty() {
        Some(selected_text.to_owned())
    } else {
        None
    };
    v.push(MenuEntry::Separator);
    v.push(MenuEntry::Item { label: "Select All".to_owned(), shortcut: Some("⌘A"), action: MenuAction::SelectAll });
    v.push(MenuEntry::Item { label: "Find in Page".to_owned(), shortcut: Some("⌘F"), action: MenuAction::FindInPage(search) });
    let ghost s4 = entries_view(v@);
    append_entries(&mut v, context_entries(context));
    assert(entries_view(v@) =~= content_menu(
        *context,
        has_selection,
        selected_text@,
        match current_file {
            Some(p) => Some(p@),
            None => None,
        },
        source_line,
        source_line_end,
    ));
    v
}

/// Where the image for saving or copying comes from: the source as shown,
/// or, when the view has no source for a local image, its file.
#[derive(Debug, PartialEq, Eq)]
pub enum EffectiveSource {
    /// Use this source.
    Src(String),
    /// Read this file and use its data URL.
    File(String),
    /// There is no source.
    Empty,
}

/// Decides where the image to save or copy comes from.
pub fn resolve_effective_src(src: &str, original_src: Option<&str>) -> (r: EffectiveSource)
    ensures
        src@.len() > 0 ==> (r matches EffectiveSource::Src(s) && s@ == src@),
        src@.len() == 0 ==> match original_src {
            Some(p) => r matches EffectiveSource::File(f) && f@ == p@,
            None => r == EffectiveSource::Empty,
        },
{
    if src.is_empty() {
        match original_src {
            Some(p) => EffectiveSource::File(p.to_owned()),
            None => EffectiveSource::Empty,
        }
    } else {
        EffectiveSource::Src(src.to_owned())
    }
}


// ---------------------------------------------------------------------------
// Laws
// ---------------------------------------------------------------------------

proof fn lemma_decimal_non_empty(n: nat)
    ensures
        text::decimal(n).len() > 0,
    decreases n,
{
    if n >= 10 {
        lemma_decimal_non_empty(n / 10);
    }
}

/// What the path items copy: the first copies the path itself; with a
/// clicked line `l`, the second is labelled with `l` and copies the path,
/// `:` and `l` in decimal (so never the bare path); with a clicked range
/// `s`-`e` of more than one line, the last copies the path, `:`, `s`, `-`
/// and `e`. There is no other item.
pub proof fn copy_path_items_copy_locations(path: Seq<char>, line: Option<u32>, line_end: Option<u32>)
    ensures
        ({
            let items = copy_path_items(path, line, line_end);
            let ranged = line is Some && line_end is Some && line != line_end;
            &&& items.len() == 1 + (if line is Some { 1int } else { 0int }) + (if ranged { 1int } else { 0int })
            &&& items[0] == item("Copy File Path"@, ActionView::CopyText(path))
            &&& line matches Some(l) ==> (items[1] matches EntryView::Item(label, None, ActionView::CopyText(t))
                && label == "Copy File Path with Line ("@ + text::decimal(l as nat) + ")"@
                && t.len() > path.len() + 1 && t.subrange(0, path.len() as int) == path && t[path.len() as int] == ':'
                && t.subrange(path.len() as int + 1, t.len() as int) == text::decimal(l as nat) && t != path)
            &&& ranged ==> (items.last() matches EntryView::Item(label, None, ActionView::CopyText(t))
                && label == "Copy File Path with Range ("@ + text::decimal(line->0 as nat) + "-"@ + text::decimal(
                line_end->0 as nat,
            ) + ")"@ && t == path + ":"@ + text::decimal(line->0 as nat) + "-"@ + text::decimal(line_end->0 as nat))
        }),
{
    reveal_strlit(":");
    if let Some(l) = line {
        lemma_decimal_non_empty(l as nat);
        let t = path + ":"@ + text::decimal(l as nat);
        assert(t.subrange(0, path.len() as int) =~= path);
        assert(t.subrange(path.len() as int + 1, t.len() as int) =~= text::decimal(l as nat));
        assert(t[path.len() as int] == ':');
        assert(t.len() != path.len());
    }
}

/// The document's menu, for a file shown and a clicked line `l`, holds the
/// item labelled with `l` that copies the file's path, `:` and `l`.
pub proof fn content_menu_copies_line(
    context: ContentContext,
    has_selection: bool,
    selected_text: Seq<char>,
    path: Seq<char>,
    l: u32,
    line_end: Option<u32>,
)
    ensures
        exists|k: int|
            0 <= k < content_menu(context, has_selection, selected_text, Some(path), Some(l), line_end).len()
                && #[trigger] content_menu(context, has_selection, selected_text, Some(path), Some(l), line_end)[k]
                == item(
                "Copy File Path with Line ("@ + text::decimal(l as nat) + ")"@,
                ActionView::CopyText(path + ":"@ + text::decimal(l as nat)),
            ),
{
    let m = content_menu(context, has_selection, selected_text, Some(path), Some(l), line_end);
    let a: Seq<EntryView> = if has_selection {
        seq![EntryView::Item("Copy"@, Some("⌘C"@), ActionView::CopyText(selected_text))]
    } else {
        Seq::empty()
    };
    let b: Seq<EntryView> = match code_source(context) {
        Some(s) => seq![item("Copy Code"@, ActionView::CopyText(s))],
        None => Seq::empty(),
    };
    let c = copy_path_items(path, Some(l), line_end);
    let k: int = a.len() as int + b.len() as int + 1;
    assert(m.subrange(0, (a.len() + b.len() + c.len()) as int) =~= a + b + c);
    assert(m[k] == (a + b + c)[k]);
    assert(m[k] == c[1]);
}


/// The menu of a clicked image ends with "Copy Image Path", which copies
/// the image's file path when it is a local image and its source
/// otherwise; the menu of a clicked link ends with "Copy Link Path", which
/// copies the link's target. The menu of anything else ends with "Find in
/// Page", which searches for the selection when there is a non-empty one.
pub proof fn content_menu_ends_with_context_item(
    context: ContentContext,
    has_selection: bool,
    selected_text: Seq<char>,
    current_file: Option<Seq<char>>,
    line: Option<u32>,
    line_end: Option<u32>,
)
    ensures
        ({
            let m = content_menu(context, has_selection, selected_text, current_file, line, line_end);
            &&& m.len() > 0
            &&& context matches ContentContext::Image { src, original_src, .. } ==> m.last() == item(
                "Copy Image Path"@,
                ActionView::CopyText(
                    match original_src {
                        Some(p) => p@,
                        None => src@,
                    },
                ),
            )
            &&& context matches ContentContext::Link { href } ==> m.last() == item(
                "Copy Link Path"@,
                ActionView::CopyText(href@),
            )
            &&& !(context is Image) && !(context is Link) ==> m.last() == EntryView::Item(
                "Find in Page"@,
                Some("⌘F"@),
                ActionView::FindInPage(
                    if has_selection && selected_text.len() > 0 {
                        Some(selected_text)
                    } else {
                        None
                    },
                ),
            )
        }),
{
}

} // verus!

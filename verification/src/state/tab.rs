//! A tab and what it shows.

use vstd::prelude::*;
use crate::history::HistoryManager;
use crate::paths;
use crate::paths::file_name;

verus! {

/// What a tab shows.
#[derive(Debug, PartialEq, Eq)]
pub enum TabContent {
    /// Nothing yet (a new, empty tab).
    Empty,
    /// A file.
    File(String),
    /// A file that could not be shown, with the reason.
    FileError(String, String),
    /// Markdown text given directly (the welcome page).
    Inline(String),
    /// The preferences page.
    Preferences,
}

impl TabContent {
    /// A copy of this content.
    pub fn duplicate(&self) -> (r: Self)
        ensures
            r == *self,
    {
        match self {
            TabContent::Empty => TabContent::Empty,
            TabContent::File(p) => TabContent::File(p.clone()),
            TabContent::FileError(p, e) => TabContent::FileError(p.clone(), e.clone()),
            TabContent::Inline(s) => TabContent::Inline(s.clone()),
            TabContent::Preferences => TabContent::Preferences,
        }
    }
}

impl Default for TabContent {
    fn default() -> (r: Self)
        ensures
            r == TabContent::Empty,
    {
        TabContent::Empty
    }
}

/// A single tab with its content and navigation history.
#[derive(Debug, PartialEq, Eq)]
pub struct Tab {
    /// What the tab shows.
    pub content: TabContent,
    /// The files the tab has shown.
    pub history: HistoryManager,
    /// Whether the tab is pinned.
    pub pinned: bool,
}

/// The file a tab shows, also when it failed to show it.
pub open spec fn content_file(c: TabContent) -> Option<Seq<char>> {
    match c {
        TabContent::File(p) => Some(p@),
        TabContent::FileError(p, _) => Some(p@),
        _ => None,
    }
}

/// Whether a tab's content may be replaced when a file is opened: nothing,
/// inline text, or a file that failed.
pub open spec fn content_is_no_file(c: TabContent) -> bool {
    match c {
        TabContent::Empty | TabContent::Inline(_) | TabContent::FileError(_, _) => true,
        _ => false,
    }
}

/// The name shown on a tab.
pub open spec fn content_display_name(c: TabContent) -> Seq<char> {
    match c {
        TabContent::File(p) | TabContent::FileError(p, _) => match paths::std_file_name(p@) {
            Some(f) => f,
            None => "Unnamed"@,
        },
        TabContent::Inline(_) => "Welcome"@,
        TabContent::Preferences => "Preferences"@,
        TabContent::Empty => "New Tab"@,
    }
}

impl Default for Tab {
    fn default() -> (r: Self)
        ensures
            r.content == TabContent::Empty,
            r.history.entries().len() == 0,
            r.history.index() == 0,
            !r.pinned,
    {
        Tab { content: TabContent::Empty, history: HistoryManager::new(), pinned: false }
    }
}

impl Tab {
    /// A tab showing `file`, with `file` as its only history entry.
    pub fn new(file: String) -> (r: Self)
        ensures
            r.content == TabContent::File(file),
            (r.history.entries(), r.history.index()) == crate::history::pushed(Seq::empty(), 0, file),
            !r.pinned,
    {
        let mut history = HistoryManager::new();
        history.push(file.clone());
        Tab { content: TabContent::File(file), history, pinned: false }
    }

    /// A tab showing Markdown text given directly, with no history.
    pub fn with_inline_content(content: String) -> (r: Self)
        ensures
            r.content == TabContent::Inline(content),
            r.history.entries().len() == 0,
            !r.pinned,
    {
        Tab { content: TabContent::Inline(content), history: HistoryManager::new(), pinned: false }
    }

    /// The file path, if this tab has a file.
    pub fn file(&self) -> (r: Option<&str>)
        ensures
            match r {
                Some(p) => content_file(self.content) == Some(p@),
                None => content_file(self.content) is None,
            },
    {
        match &self.content {
            TabContent::File(path) => Some(path.as_str()),
            TabContent::FileError(path, _) => Some(path.as_str()),
            _ => None,
        }
    }

    /// Whether this tab has no file (nothing, inline text, or a file error).
    pub fn is_no_file(&self) -> (r: bool)
        ensures
            r == content_is_no_file(self.content),
    {
        match &self.content {
            TabContent::Empty | TabContent::Inline(_) | TabContent::FileError(_, _) => true,
            _ => false,
        }
    }

    /// The name shown for this tab in the tab bar.
    pub fn display_name(&self) -> (r: String)
        ensures
            r@ == content_display_name(self.content),
    {
        match &self.content {
            TabContent::File(path) | TabContent::FileError(path, _) => match file_name(path.as_str()) {
                Some(f) => f,
                None => "Unnamed".to_owned(),
            },
            TabContent::Inline(_) => "Welcome".to_owned(),
            TabContent::Preferences => "Preferences".to_owned(),
            TabContent::Empty => "New Tab".to_owned(),
        }
    }

    /// Shows `file` in this tab, pushing it on the tab's history.
    pub fn navigate_to(&mut self, file: String)
        ensures
            final(self).content == TabContent::File(file),
            (final(self).history.entries(), final(self).history.index()) == crate::history::pushed(
                old(self).history.entries(),
                old(self).history.index(),
                file,
            ),
            final(self).pinned == old(self).pinned,
    {
        self.history.push(file.clone());
        self.content = TabContent::File(file);
    }

    /// A copy of this tab.
    pub fn duplicate(&self) -> (r: Self)
        ensures
            r.content == self.content,
            r.history.entries() == self.history.entries(),
            r.history.index() == self.history.index(),
            r.pinned == self.pinned,
    {
        Tab { content: self.content.duplicate(), history: self.history.duplicate(), pinned: self.pinned }
    }
}

} // verus!

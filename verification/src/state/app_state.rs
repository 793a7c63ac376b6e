//! Per-window application state: the tabs and which one is active, the
//! sidebar, the table of contents and the search bar.
//!
//! The window keeps this state and mirrors some of it (the table of
//! contents, the sidebar and its root directory) into the state it saves
//! when it closes.

use vstd::prelude::*;
use crate::history;
use crate::paths;
use crate::paths::{parent, paths_equal};
use crate::state::sidebar::{Sidebar, toggled};
use crate::state::tab::{content_file, content_is_no_file, Tab, TabContent};

verus! {

/// Per-window application state.
#[derive(Debug, PartialEq, Eq)]
pub struct AppState {
    /// The open tabs, in tab-bar order.
    pub tabs: Vec<Tab>,
    /// The index of the active tab.
    pub active_tab: usize,
    /// The sidebar's file explorer.
    pub sidebar: Sidebar,
    /// Whether the table of contents is shown.
    pub toc_open: bool,
    /// Whether the search bar is shown.
    pub search_open: bool,
    /// How many matches the search found.
    pub search_match_count: usize,
    /// Which match is selected.
    pub search_current_index: usize,
    /// Text to put in the search bar when it opens.
    pub search_initial_text: Option<String>,
}

/// Whether the active index names a tab (or is 0 when there is none).
pub open spec fn active_ok(len: nat, active: nat) -> bool {
    if len == 0 {
        active == 0
    } else {
        active < len
    }
}

/// The active index after removing the tab at `index`, when `new_len` tabs remain.
pub open spec fn active_after_take(cur: nat, index: nat, new_len: nat) -> nat {
    let candidate = if cur > index {
        (cur - 1) as nat
    } else if cur == index && cur >= new_len {
        if new_len > 0 { (new_len - 1) as nat } else { 0 }
    } else {
        cur
    };
    if candidate != cur && new_len > 0 {
        candidate
    } else {
        cur
    }
}

/// Whether tab `t` shows (or failed to show) the file `p`.
pub open spec fn shows_file(t: Tab, p: Seq<char>) -> bool {
    match content_file(t.content) {
        Some(f) => paths::path_matches(f, p),
        None => false,
    }
}

/// The first tab at or after `i` that shows the file `p`.
pub open spec fn first_tab_showing(tabs: Seq<Tab>, p: Seq<char>, i: int) -> Option<int>
    decreases tabs.len() - i,
{
    if i < 0 || i >= tabs.len() {
        None
    } else if shows_file(tabs[i], p) {
        Some(i)
    } else {
        first_tab_showing(tabs, p, i + 1)
    }
}

/// The first tab that shows the preferences.
pub open spec fn first_preferences_tab(tabs: Seq<Tab>, i: int) -> Option<int>
    decreases tabs.len() - i,
{
    if i < 0 || i >= tabs.len() {
        None
    } else if tabs[i].content == TabContent::Preferences {
        Some(i)
    } else {
        first_preferences_tab(tabs, i + 1)
    }
}

/// Whether `after` is the tab `before` once it navigated to `f`.
pub open spec fn navigated(before: Tab, after: Tab, f: String) -> bool {
    &&& after.content == TabContent::File(f)
    &&& (after.history.entries(), after.history.index()) == history::pushed(
        before.history.entries(),
        before.history.index(),
        f,
    )
    &&& after.pinned == before.pinned
}

/// Whether `t` is a new tab showing `f`.
pub open spec fn fresh_file_tab(t: Tab, f: String) -> bool {
    &&& t.content == TabContent::File(f)
    &&& (t.history.entries(), t.history.index()) == history::pushed(Seq::empty(), 0, f)
    &&& !t.pinned
}

/// Whether `t` is a new preferences tab.
pub open spec fn fresh_preferences_tab(t: Tab) -> bool {
    &&& t.content == TabContent::Preferences
    &&& t.history.entries().len() == 0
    &&& !t.pinned
}

/// Whether the active tab exists and may be replaced by a file.
pub open spec fn current_is_no_file(tabs: Seq<Tab>, active: nat) -> bool {
    active < tabs.len() && content_is_no_file(tabs[active as int].content)
}

impl AppState {
    /// A window's state: one empty tab, and the table of contents shown or
    /// not as `toc_open` says.
    pub fn new(toc_open: bool) -> (r: Self)
        ensures
            r.tabs@.len() == 1,
            r.tabs@[0].content == TabContent::Empty,
            r.active_tab == 0,
            r.toc_open == toc_open,
            !r.search_open,
            r.search_match_count == 0,
            r.search_current_index == 0,
            r.search_initial_text is None,
    {
        let mut tabs: Vec<Tab> = Vec::new();
        tabs.push(Tab::default());
        AppState {
            tabs,
            active_tab: 0,
            sidebar: Sidebar::default(),
            toc_open,
            search_open: false,
            search_match_count: 0,
            search_current_index: 0,
            search_initial_text: None,
        }
    }

    /// The tab at `index`, if any.
    pub fn get_tab(&self, index: usize) -> (r: Option<&Tab>)
        ensures
            index < self.tabs@.len() ==> r == Some(&self.tabs@[index as int]),
            index >= self.tabs@.len() ==> r is None,
    {
        if index < self.tabs.len() {
            Some(&self.tabs[index])
        } else {
            None
        }
    }

    /// Updates the active tab to what `f` makes of it; with no active tab
    /// nothing happens and `f` is not called.
    pub fn update_current_tab<F: FnOnce(Tab) -> Tab>(&mut self, f: F)
        requires
            forall|t: Tab| f.requires((t,)),
        ensures
            final(self).active_tab == old(self).active_tab,
            final(self).tabs@.len() == old(self).tabs@.len(),
            old(self).active_tab < old(self).tabs@.len() ==> f.ensures(
                (old(self).tabs@[old(self).active_tab as int],),
                final(self).tabs@[old(self).active_tab as int],
            ),
            forall|j: int|
                0 <= j < old(self).tabs@.len() && j != old(self).active_tab ==> final(self).tabs@[j] == old(
                    self,
                ).tabs@[j],
            final(self).sidebar == old(self).sidebar,
            final(self).toc_open == old(self).toc_open,
    {
        let a = self.active_tab;
        if a < self.tabs.len() {
            let tab = self.tabs.remove(a);
            let updated = f(tab);
            self.tabs.insert(a, updated);
        }
    }

    /// The active tab, if any.
    pub fn current_tab(&self) -> (r: Option<&Tab>)
        ensures
            self.active_tab < self.tabs@.len() ==> r == Some(&self.tabs@[self.active_tab as int]),
            self.active_tab >= self.tabs@.len() ==> r is None,
    {
        self.get_tab(self.active_tab)
    }

    /// Removes the tab at `index` and returns it, keeping the active tab on
    /// the same tab where it can (the window stays open even with no tab).
    pub fn take_tab(&mut self, index: usize) -> (r: Option<Tab>)
        ensures
            index >= old(self).tabs@.len() ==> r is None && final(self).tabs@ == old(self).tabs@
                && final(self).active_tab == old(self).active_tab,
            index < old(self).tabs@.len() ==> r == Some(old(self).tabs@[index as int])
                && final(self).tabs@ == old(self).tabs@.remove(index as int) && final(self).active_tab
                == active_after_take(
                old(self).active_tab as nat,
                index as nat,
                (old(self).tabs@.len() - 1) as nat,
            ),
            active_ok(old(self).tabs@.len(), old(self).active_tab as nat) ==> active_ok(
                final(self).tabs@.len(),
                final(self).active_tab as nat,
            ),
            final(self).sidebar == old(self).sidebar,
            final(self).toc_open == old(self).toc_open,
    {
        if index >= self.tabs.len() {
            return None;
        }
        let tab = self.tabs.remove(index);
        let len = self.tabs.len();
        let current = self.active_tab;
        let candidate = if current > index {
            current - 1
        } else if current == index && current >= len {
            if len > 0 { len - 1 } else { 0 }
        } else {
            current
        };
        if candidate != current && len > 0 {
            self.active_tab = candidate;
        }
        Some(tab)
    }

    /// Inserts `tab` at `index` (at the end when `index` is past it) and
    /// returns where it went.
    pub fn insert_tab(&mut self, tab: Tab, index: usize) -> (r: usize)
        ensures
            r == if index < old(self).tabs@.len() { index as nat } else { old(self).tabs@.len() },
            final(self).tabs@ == old(self).tabs@.insert(r as int, tab),
            final(self).active_tab == old(self).active_tab,
            active_ok(old(self).tabs@.len(), old(self).active_tab as nat) ==> active_ok(
                final(self).tabs@.len(),
                final(self).active_tab as nat,
            ),
            final(self).sidebar == old(self).sidebar,
            final(self).toc_open == old(self).toc_open,
    {
        let insert_index = if index < self.tabs.len() {
            index
        } else {
            self.tabs.len()
        };
        self.tabs.insert(insert_index, tab);
        insert_index
    }

    /// Makes the tab at `index` active, if there is one.
    pub fn switch_to_tab(&mut self, index: usize)
        ensures
            final(self).tabs@ == old(self).tabs@,
            final(self).active_tab == if index < old(self).tabs@.len() {
                index
            } else {
                old(self).active_tab
            },
            final(self).sidebar == old(self).sidebar,
            final(self).toc_open == old(self).toc_open,
    {
        if index < self.tabs.len() {
            self.active_tab = index;
        }
    }

    /// Adds `tab` at the end, and makes it active when `switch_to` is set;
    /// returns its index.
    pub fn add_tab(&mut self, tab: Tab, switch_to: bool) -> (r: usize)
        ensures
            r == old(self).tabs@.len(),
            final(self).tabs@ == old(self).tabs@.push(tab),
            final(self).active_tab == if switch_to { r } else { old(self).active_tab },
            active_ok(old(self).tabs@.len(), old(self).active_tab as nat) ==> active_ok(
                final(self).tabs@.len(),
                final(self).active_tab as nat,
            ),
            final(self).sidebar == old(self).sidebar,
            final(self).toc_open == old(self).toc_open,
    {
        let len = self.tabs.len();
        let index = self.insert_tab(tab, len);
        assert(old(self).tabs@.insert(len as int, tab) =~= old(self).tabs@.push(tab));
        if switch_to {
            self.switch_to_tab(index);
        }
        index
    }

    /// Adds a tab showing `file`, made active when `switch_to` is set.
    pub fn add_file_tab(&mut self, file: String, switch_to: bool) -> (r: usize)
        ensures
            r == old(self).tabs@.len(),
            final(self).tabs@.len() == old(self).tabs@.len() + 1,
            final(self).tabs@.subrange(0, r as int) == old(self).tabs@,
            fresh_file_tab(final(self).tabs@[r as int], file),
            final(self).active_tab == if switch_to { r } else { old(self).active_tab },
            final(self).sidebar == old(self).sidebar,
            final(self).toc_open == old(self).toc_open,
    {
        let r = self.add_tab(Tab::new(file), switch_to);
        assert(self.tabs@.subrange(0, r as int) =~= old(self).tabs@);
        r
    }

    /// Adds an empty tab, made active when `switch_to` is set.
    pub fn add_empty_tab(&mut self, switch_to: bool) -> (r: usize)
        ensures
            r == old(self).tabs@.len(),
            final(self).tabs@.len() == old(self).tabs@.len() + 1,
            final(self).tabs@.subrange(0, r as int) == old(self).tabs@,
            final(self).tabs@[r as int].content == TabContent::Empty,
            final(self).active_tab == if switch_to { r } else { old(self).active_tab },
    {
        let r = self.add_tab(Tab::default(), switch_to);
        assert(self.tabs@.subrange(0, r as int) =~= old(self).tabs@);
        r
    }

    /// Whether the active tab exists and has no file, so that opening a file
    /// may reuse it.
    pub fn is_current_tab_no_file(&self) -> (r: bool)
        ensures
            r == current_is_no_file(self.tabs@, self.active_tab as nat),
    {
        match self.current_tab() {
            Some(tab) => tab.is_no_file(),
            None => false,
        }
    }

    /// The index of the first tab that shows `file`.
    pub fn find_tab_with_file(&self, file: &str) -> (r: Option<usize>)
        ensures
            match r {
                Some(i) => first_tab_showing(self.tabs@, file@, 0) == Some(i as int),
                None => first_tab_showing(self.tabs@, file@, 0) is None,
            },
    {
        let mut i: usize = 0;
        while i < self.tabs.len()
            invariant
                i <= self.tabs@.len(),
                first_tab_showing(self.tabs@, file@, 0) == first_tab_showing(self.tabs@, file@, i as int),
            decreases self.tabs@.len() - i,
        {
            let shows = match self.tabs[i].file() {
                Some(f) => paths_equal(f, file),
                None => false,
            };
            if shows {
                return Some(i);
            }
            i += 1;
        }
        None
    }

    /// Shows `file` in the tab at `i`, pushing it on that tab's history.
    fn navigate_tab(&mut self, i: usize, file: String)
        requires
            i < old(self).tabs@.len(),
        ensures
            final(self).tabs@.len() == old(self).tabs@.len(),
            forall|j: int| 0 <= j < old(self).tabs@.len() && j != i ==> final(self).tabs@[j] == old(self).tabs@[j],
            navigated(old(self).tabs@[i as int], final(self).tabs@[i as int], file),
            final(self).active_tab == old(self).active_tab,
            final(self).sidebar == old(self).sidebar,
            final(self).toc_open == old(self).toc_open,
    {
        let mut tab = self.tabs.remove(i);
        tab.navigate_to(file);
        self.tabs.insert(i, tab);
    }

    /// Opens `file`: switches to a tab that already shows it; else shows it in
    /// the active tab when that tab has no file; else adds a tab for it.
    pub fn open_file(&mut self, file: String)
        ensures
            first_tab_showing(old(self).tabs@, file@, 0) matches Some(i) ==> final(self).tabs@ == old(self).tabs@
                && final(self).active_tab == i,
            first_tab_showing(old(self).tabs@, file@, 0) is None && current_is_no_file(
                old(self).tabs@,
                old(self).active_tab as nat,
            ) ==> final(self).active_tab == old(self).active_tab && final(self).tabs@.len() == old(self).tabs@.len()
                && navigated(
                old(self).tabs@[old(self).active_tab as int],
                final(self).tabs@[old(self).active_tab as int],
                file,
            ) && forall|j: int|
                0 <= j < old(self).tabs@.len() && j != old(self).active_tab ==> final(self).tabs@[j] == old(
                    self,
                ).tabs@[j],
            first_tab_showing(old(self).tabs@, file@, 0) is None && !current_is_no_file(
                old(self).tabs@,
                old(self).active_tab as nat,
            ) ==> final(self).tabs@.len() == old(self).tabs@.len() + 1 && final(self).tabs@.subrange(
                0,
                old(self).tabs@.len() as int,
            ) == old(self).tabs@ && fresh_file_tab(final(self).tabs@[old(self).tabs@.len() as int], file)
                && final(self).active_tab == old(self).tabs@.len(),
            active_ok(old(self).tabs@.len(), old(self).active_tab as nat) ==> active_ok(
                final(self).tabs@.len(),
                final(self).active_tab as nat,
            ),
    {
        match self.find_tab_with_file(file.as_str()) {
            Some(i) => {
                proof {
                    lemma_first_tab_in_range(self.tabs@, file@, 0);
                }
                self.switch_to_tab(i);
            },
            None => {
                if self.is_current_tab_no_file() {
                    let a = self.active_tab;
                    self.navigate_tab(a, file);
                } else {
                    self.add_file_tab(file, true);
                }
            },
        }
    }

    /// Shows `file` in the active tab (following a link), whether or not
    /// another tab shows it.
    pub fn navigate_to_file(&mut self, file: String)
        ensures
            final(self).active_tab == old(self).active_tab,
            final(self).tabs@.len() == old(self).tabs@.len(),
            old(self).active_tab < old(self).tabs@.len() ==> navigated(
                old(self).tabs@[old(self).active_tab as int],
                final(self).tabs@[old(self).active_tab as int],
                file,
            ),
            forall|j: int|
                0 <= j < old(self).tabs@.len() && j != old(self).active_tab ==> final(self).tabs@[j] == old(
                    self,
                ).tabs@[j],
    {
        if self.active_tab < self.tabs.len() {
            let a = self.active_tab;
            self.navigate_tab(a, file);
        }
    }

    /// Follows a click on a link to a local file, given as its resolved
    /// path: the left button (0) shows it in the active tab, the middle
    /// button (1) in a new tab made active; other buttons do nothing.
    pub fn handle_link_click(&mut self, canonical_path: String, button: u32)
        ensures
            button == 0 ==> {
                &&& final(self).active_tab == old(self).active_tab
                &&& final(self).tabs@.len() == old(self).tabs@.len()
                &&& old(self).active_tab < old(self).tabs@.len() ==> navigated(
                    old(self).tabs@[old(self).active_tab as int],
                    final(self).tabs@[old(self).active_tab as int],
                    canonical_path,
                )
                &&& forall|j: int|
                    0 <= j < old(self).tabs@.len() && j != old(self).active_tab ==> final(self).tabs@[j] == old(
                        self,
                    ).tabs@[j]
            },
            button == 1 ==> {
                &&& final(self).tabs@.len() == old(self).tabs@.len() + 1
                &&& final(self).tabs@.subrange(0, old(self).tabs@.len() as int) == old(self).tabs@
                &&& fresh_file_tab(final(self).tabs@[old(self).tabs@.len() as int], canonical_path)
                &&& final(self).active_tab == old(self).tabs@.len()
            },
            button > 1 ==> final(self).tabs == old(self).tabs && final(self).active_tab == old(self).active_tab,
    {
        if button == 1 {
            self.add_file_tab(canonical_path, true);
        } else if button == 0 {
            self.navigate_to_file(canonical_path);
        }
    }

    /// The index of the first preferences tab.
    fn find_preferences_tab(&self) -> (r: Option<usize>)
        ensures
            match r {
                Some(i) => first_preferences_tab(self.tabs@, 0) == Some(i as int) && i < self.tabs@.len(),
                None => first_preferences_tab(self.tabs@, 0) is None,
            },
    {
        let mut i: usize = 0;
        while i < self.tabs.len()
            invariant
                i <= self.tabs@.len(),
                first_preferences_tab(self.tabs@, 0) == first_preferences_tab(self.tabs@, i as int),
            decreases self.tabs@.len() - i,
        {
            let is_prefs = match &self.tabs[i].content {
                TabContent::Preferences => true,
                _ => false,
            };
            if is_prefs {
                return Some(i);
            }
            i += 1;
        }
        None
    }

    /// Opens the preferences: switches to a preferences tab if there is one;
    /// else shows them in the active tab when it has no file; else adds a
    /// preferences tab and makes it active.
    pub fn open_preferences(&mut self)
        ensures
            first_preferences_tab(old(self).tabs@, 0) matches Some(i) ==> final(self).tabs@ == old(self).tabs@
                && final(self).active_tab == i,
            first_preferences_tab(old(self).tabs@, 0) is None ==> preferences_opened(
                old(self).tabs@,
                old(self).active_tab as nat,
                final(self).tabs@,
                final(self).active_tab as nat,
            ),
            active_ok(old(self).tabs@.len(), old(self).active_tab as nat) ==> active_ok(
                final(self).tabs@.len(),
                final(self).active_tab as nat,
            ),
    {
        match self.find_preferences_tab() {
            Some(i) => {
                self.switch_to_tab(i);
            },
            None => {
                if self.is_current_tab_no_file() {
                    let a = self.active_tab;
                    let mut tab = self.tabs.remove(a);
                    tab.content = TabContent::Preferences;
                    self.tabs.insert(a, tab);
                } else {
                    let tab = Tab {
                        content: TabContent::Preferences,
                        history: crate::history::HistoryManager::new(),
                        pinned: false,
                    };
                    self.tabs.push(tab);
                    let n = self.tabs.len();
                    self.active_tab = n - 1;
                    assert(self.tabs@.subrange(0, old(self).tabs@.len() as int) =~= old(self).tabs@);
                }
            },
        }
    }

    /// Closes the tab at `index`. Returns whether there was such a tab; when
    /// no tab remains, the window is to be closed.
    pub fn close_tab(&mut self, index: usize) -> (r: bool)
        ensures
            r == (index < old(self).tabs@.len()),
            r ==> final(self).tabs@ == old(self).tabs@.remove(index as int) && final(self).active_tab
                == active_after_take(
                old(self).active_tab as nat,
                index as nat,
                (old(self).tabs@.len() - 1) as nat,
            ),
            !r ==> final(self).tabs@ == old(self).tabs@ && final(self).active_tab == old(self).active_tab,
            active_ok(old(self).tabs@.len(), old(self).active_tab as nat) ==> active_ok(
                final(self).tabs@.len(),
                final(self).active_tab as nat,
            ),
    {
        match self.take_tab(index) {
            Some(_) => true,
            None => false,
        }
    }

    /// Toggles the preferences: closes the preferences tab when it is active,
    /// switches to it when it is not, opens it when there is none.
    pub fn toggle_preferences(&mut self)
        ensures
            match first_preferences_tab(old(self).tabs@, 0) {
                Some(i) => if i == old(self).active_tab {
                    final(self).tabs@ == old(self).tabs@.remove(i) && final(self).active_tab == active_after_take(
                        old(self).active_tab as nat,
                        i as nat,
                        (old(self).tabs@.len() - 1) as nat,
                    )
                } else {
                    final(self).tabs@ == old(self).tabs@ && final(self).active_tab == i
                },
                None => preferences_opened(
                    old(self).tabs@,
                    old(self).active_tab as nat,
                    final(self).tabs@,
                    final(self).active_tab as nat,
                ),
            },
            active_ok(old(self).tabs@.len(), old(self).active_tab as nat) ==> active_ok(
                final(self).tabs@.len(),
                final(self).active_tab as nat,
            ),
    {
        match self.find_preferences_tab() {
            Some(index) => {
                if self.active_tab == index {
                    self.close_tab(index);
                } else {
                    self.switch_to_tab(index);
                }
            },
            None => {
                self.open_preferences();
            },
        }
    }

    /// Reloads the active tab: a file tab shows its file again, pushing it on
    /// the tab's history (which leaves the history alone when its current
    /// entry already names the file); other tabs stay as they are.
    pub fn reload_current_tab(&mut self)
        ensures
            final(self).active_tab == old(self).active_tab,
            final(self).tabs@.len() == old(self).tabs@.len(),
            forall|j: int|
                0 <= j < old(self).tabs@.len() && j != old(self).active_tab ==> final(self).tabs@[j] == old(
                    self,
                ).tabs@[j],
            old(self).active_tab < old(self).tabs@.len() ==> match content_file(
                old(self).tabs@[old(self).active_tab as int].content,
            ) {
                Some(f) => final(self).tabs@[old(self).active_tab as int].content matches TabContent::File(g) && g@
                    == f && navigated(
                    old(self).tabs@[old(self).active_tab as int],
                    final(self).tabs@[old(self).active_tab as int],
                    g,
                ),
                None => final(self).tabs@[old(self).active_tab as int] == old(self).tabs@[old(self).active_tab as int],
            },
    {
        let a = self.active_tab;
        if a < self.tabs.len() {
            let path = match self.tabs[a].file() {
                Some(p) => Some(p.to_owned()),
                None => None,
            };
            match path {
                Some(p) => {
                    self.navigate_tab(a, p);
                },
                None => {},
            }
        }
    }

    /// Sets the sidebar's root directory, collapsing every directory and
    /// pushing it on the directory history.
    pub fn set_root_directory(&mut self, path: String)
        ensures
            final(self).sidebar.root_directory == Some(path),
            final(self).sidebar.expanded_dirs@.len() == 0,
            (final(self).sidebar.dir_history.entries(), final(self).sidebar.dir_history.index())
                == history::pushed(
                old(self).sidebar.dir_history.entries(),
                old(self).sidebar.dir_history.index(),
                path,
            ),
            final(self).sidebar.open == old(self).sidebar.open,
            final(self).tabs == old(self).tabs,
            final(self).active_tab == old(self).active_tab,
    {
        self.sidebar.root_directory = Some(path.clone());
        self.sidebar.expanded_dirs = Vec::new();
        self.sidebar.push_to_history(path);
    }

    /// Sets the root directory without touching the history (used when
    /// moving through the history).
    fn set_root_directory_no_history(&mut self, path: String)
        ensures
            final(self).sidebar.root_directory == Some(path),
            final(self).sidebar.expanded_dirs@.len() == 0,
            final(self).sidebar.dir_history == old(self).sidebar.dir_history,
            final(self).sidebar.open == old(self).sidebar.open,
            final(self).tabs == old(self).tabs,
            final(self).active_tab == old(self).active_tab,
    {
        self.sidebar.root_directory = Some(path);
        self.sidebar.expanded_dirs = Vec::new();
    }

    /// Goes back in the directory history, making that directory the root.
    pub fn go_back_directory(&mut self)
        ensures
            final(self).sidebar.dir_history.entries() == old(self).sidebar.dir_history.entries(),
            final(self).sidebar.dir_history.index() == history::back_index(
                old(self).sidebar.dir_history.entries().len(),
                old(self).sidebar.dir_history.index(),
            ),
            old(self).sidebar.dir_history.index() > 0 ==> final(self).sidebar.root_directory == Some(
                old(self).sidebar.dir_history.entries()[old(self).sidebar.dir_history.index() - 1].path,
            ) && final(self).sidebar.expanded_dirs@.len() == 0,
            old(self).sidebar.dir_history.index() == 0 ==> final(self).sidebar.root_directory == old(
                self,
            ).sidebar.root_directory,
            final(self).tabs == old(self).tabs,
    {
        let path = self.sidebar.go_back();
        match path {
            Some(p) => self.set_root_directory_no_history(p),
            None => {},
        }
    }

    /// Goes forward in the directory history, making that directory the root.
    pub fn go_forward_directory(&mut self)
        ensures
            final(self).sidebar.dir_history.entries() == old(self).sidebar.dir_history.entries(),
            final(self).sidebar.dir_history.index() == history::forward_index(
                old(self).sidebar.dir_history.entries().len(),
                old(self).sidebar.dir_history.index(),
            ),
            old(self).sidebar.dir_history.entries().len() > 0 && old(self).sidebar.dir_history.index()
                < old(self).sidebar.dir_history.entries().len() - 1 ==> final(self).sidebar.root_directory == Some(
                old(self).sidebar.dir_history.entries()[old(self).sidebar.dir_history.index() as int
                    + 1].path,
            ) && final(self).sidebar.expanded_dirs@.len() == 0,
            !(old(self).sidebar.dir_history.entries().len() > 0 && old(self).sidebar.dir_history.index()
                < old(self).sidebar.dir_history.entries().len() - 1) ==> final(self).sidebar.root_directory == old(self).sidebar.root_directory,
            final(self).tabs == old(self).tabs,
    {
        let path = self.sidebar.go_forward();
        match path {
            Some(p) => self.set_root_directory_no_history(p),
            None => {},
        }
    }

    /// Makes the root directory's parent the root, when there is one, pushing
    /// it on the directory history.
    pub fn go_to_parent_directory(&mut self)
        ensures
            final(self).tabs == old(self).tabs,
            match old(self).sidebar.root_directory {
                Some(d) => match paths::std_parent(d@) {
                    Some(p) => final(self).sidebar.root_directory matches Some(q) && q@ == p
                        && final(self).sidebar.expanded_dirs@.len() == 0 && (
                        final(self).sidebar.dir_history.entries(),
                        final(self).sidebar.dir_history.index(),
                    ) == history::pushed(
                        old(self).sidebar.dir_history.entries(),
                        old(self).sidebar.dir_history.index(),
                        q,
                    ),
                    None => final(self).sidebar == old(self).sidebar,
                },
                None => final(self).sidebar == old(self).sidebar,
            },
    {
        let p = match &self.sidebar.root_directory {
            Some(d) => parent(d.as_str()),
            None => None,
        };
        match p {
            Some(q) => self.set_root_directory(q),
            None => {},
        }
    }

    /// Shows or hides the table of contents.
    pub fn toggle_toc(&mut self)
        ensures
            final(self).toc_open == !old(self).toc_open,
            final(self).tabs == old(self).tabs,
            final(self).search_open == old(self).search_open,
    {
        self.toc_open = !self.toc_open;
    }

    /// Shows or hides the search bar; hiding it clears the match counts.
    pub fn toggle_search(&mut self)
        ensures
            final(self).search_open == !old(self).search_open,
            old(self).search_open ==> final(self).search_match_count == 0 && final(self).search_current_index == 0,
            !old(self).search_open ==> final(self).search_match_count == old(self).search_match_count
                && final(self).search_current_index == old(self).search_current_index,
            final(self).tabs == old(self).tabs,
    {
        let new_state = !self.search_open;
        self.search_open = new_state;
        if !new_state {
            self.search_match_count = 0;
            self.search_current_index = 0;
        }
    }

    /// Records the search results reported by the page.
    pub fn update_search_results(&mut self, count: usize, current: usize)
        ensures
            final(self).search_match_count == count,
            final(self).search_current_index == current,
            final(self).search_open == old(self).search_open,
            final(self).tabs == old(self).tabs,
    {
        self.search_match_count = count;
        self.search_current_index = current;
    }

    /// Opens the search bar with `text` to put in it.
    pub fn open_search_with_text(&mut self, text: Option<String>)
        ensures
            final(self).search_open,
            final(self).search_initial_text == text,
            final(self).tabs == old(self).tabs,
    {
        self.search_initial_text = text;
        self.search_open = true;
    }

    /// Shows or hides the sidebar.
    pub fn toggle_sidebar(&mut self)
        ensures
            final(self).sidebar.open == !old(self).sidebar.open,
            final(self).sidebar.expanded_dirs == old(self).sidebar.expanded_dirs,
            final(self).tabs == old(self).tabs,
    {
        self.sidebar.open = !self.sidebar.open;
    }

    /// Expands or collapses a directory in the sidebar.
    pub fn toggle_directory_expansion(&mut self, path: String)
        ensures
            final(self).sidebar.expanded_dirs@ == toggled(old(self).sidebar.expanded_dirs@, path),
            final(self).tabs == old(self).tabs,
    {
        self.sidebar.toggle_expansion(path);
    }
}

/// How opening the preferences changes the tabs when none of them shows
/// the preferences: a tab without a file shows them in place, keeping its
/// history; otherwise a new preferences tab is added at the end and made
/// active.
pub open spec fn preferences_opened(tabs: Seq<Tab>, active: nat, new_tabs: Seq<Tab>, new_active: nat) -> bool {
    if current_is_no_file(tabs, active) {
        &&& new_active == active
        &&& new_tabs.len() == tabs.len()
        &&& new_tabs[active as int].content == TabContent::Preferences
        &&& new_tabs[active as int].history == tabs[active as int].history
        &&& forall|j: int| 0 <= j < tabs.len() && j != active ==> new_tabs[j] == tabs[j]
    } else {
        &&& new_tabs.len() == tabs.len() + 1
        &&& new_tabs.subrange(0, tabs.len() as int) == tabs
        &&& fresh_preferences_tab(new_tabs[tabs.len() as int])
        &&& new_active == tabs.len()
    }
}

proof fn lemma_first_tab_in_range(tabs: Seq<Tab>, p: Seq<char>, i: int)
    requires
        0 <= i,
    ensures
        first_tab_showing(tabs, p, i) matches Some(k) ==> i <= k < tabs.len(),
    decreases tabs.len() - i,
{
    if 0 <= i < tabs.len() && !shows_file(tabs[i], p) {
        lemma_first_tab_in_range(tabs, p, i + 1);
    }
}

// ---------------------------------------------------------------------------
// Laws
// ---------------------------------------------------------------------------

/// Taking a tab out and inserting it back at the same index restores the
/// tabs, and the active index stays on a tab throughout.
pub proof fn take_then_insert_restores(tabs: Seq<Tab>, active: nat, index: nat)
    requires
        index < tabs.len(),
        active_ok(tabs.len(), active),
    ensures
        tabs.remove(index as int).insert(index as int, tabs[index as int]) == tabs,
        active_ok((tabs.len() - 1) as nat, active_after_take(active, index, (tabs.len() - 1) as nat)),
{
    assert(tabs.remove(index as int).insert(index as int, tabs[index as int]) =~= tabs);
}

/// Removing a tab other than the active one keeps the same tab active: the
/// index moves down by one when the removed tab was before it and stays
/// when it was after it. Removing the active tab makes the tab that took its
/// place active, or the new last tab when it was the last one.
pub proof fn take_keeps_active_tab(tabs: Seq<Tab>, active: nat, index: nat)
    requires
        active_ok(tabs.len(), active),
        index < tabs.len(),
    ensures
        index != active ==> tabs.remove(index as int)[active_after_take(active, index, (tabs.len() - 1) as nat) as int]
            == tabs[active as int],
        index > active ==> active_after_take(active, index, (tabs.len() - 1) as nat) == active,
        index < active ==> active_after_take(active, index, (tabs.len() - 1) as nat) == active - 1,
        index == active && active + 1 < tabs.len() ==> active_after_take(active, index, (tabs.len() - 1) as nat)
            == active && tabs.remove(index as int)[active as int] == tabs[active as int + 1],
        index == active && active + 1 == tabs.len() && tabs.len() > 1 ==> active_after_take(
            active,
            index,
            (tabs.len() - 1) as nat,
        ) == tabs.len() - 2,
{
}


/// Finding a tab that shows a file gives the first one from `i` on that
/// shows it, and nothing when none from `i` on does.
pub proof fn first_tab_showing_is_first(tabs: Seq<Tab>, p: Seq<char>, i: int)
    requires
        0 <= i,
    ensures
        first_tab_showing(tabs, p, i) matches Some(k) ==> i <= k < tabs.len() && shows_file(tabs[k], p) && forall|
            j: int,
        | i <= j < k ==> !shows_file(#[trigger] tabs[j], p),
        first_tab_showing(tabs, p, i) is None ==> forall|j: int| i <= j < tabs.len() ==> !shows_file(#[trigger] tabs[j], p),
    decreases tabs.len() - i,
{
    if i < tabs.len() && !shows_file(tabs[i], p) {
        first_tab_showing_is_first(tabs, p, i + 1);
    }
}

/// Finding the preferences tab gives the first one from `i` on, and nothing
/// when no tab from `i` on shows the preferences.
pub proof fn first_preferences_tab_is_first(tabs: Seq<Tab>, i: int)
    requires
        0 <= i,
    ensures
        first_preferences_tab(tabs, i) matches Some(k) ==> i <= k < tabs.len() && tabs[k].content
            == TabContent::Preferences && forall|j: int| i <= j < k ==> (#[trigger] tabs[j]).content != TabContent::Preferences,
        first_preferences_tab(tabs, i) is None ==> forall|j: int|
            i <= j < tabs.len() ==> (#[trigger] tabs[j]).content != TabContent::Preferences,
    decreases tabs.len() - i,
{
    if i < tabs.len() && tabs[i].content != TabContent::Preferences {
        first_preferences_tab_is_first(tabs, i + 1);
    }
}

} // verus!

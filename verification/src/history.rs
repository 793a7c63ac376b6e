//! Back/forward navigation history of the files shown in a tab.
//!
//! The history is a list of entries and a cursor. Pushing a path drops
//! everything after the cursor; going back or forward moves the cursor.

use vstd::prelude::*;
use crate::paths;
use crate::paths::paths_equal;

verus! {

/// A single entry in the navigation history.
#[derive(Debug, PartialEq, Eq)]
pub struct HistoryEntry {
    /// The file shown.
    pub path: String,
    /// The scroll offset last saved for the file, as the bit pattern of an `f64`.
    pub scroll_position: u64,
}

impl HistoryEntry {
    /// An entry for `path`, scrolled to the top.
    pub fn new(path: String) -> (r: Self)
        ensures
            r == (HistoryEntry { path, scroll_position: 0 }),
    {
        HistoryEntry { path, scroll_position: 0 }
    }

    /// A copy of this entry.
    fn duplicate(&self) -> (r: Self)
        ensures
            r == *self,
    {
        HistoryEntry { path: self.path.clone(), scroll_position: self.scroll_position }
    }
}

/// The navigation history of a tab.
#[derive(Debug, PartialEq, Eq)]
pub struct HistoryManager {
    history: Vec<HistoryEntry>,
    current_index: usize,
}

/// Whether a cursor fits a list of `len` entries: on an entry, or at 0 when
/// there is none.
pub open spec fn cursor_ok(len: nat, index: nat) -> bool {
    if len == 0 {
        index == 0
    } else {
        index < len
    }
}

/// The history after pushing `p`: unchanged when the current entry already
/// names `p`; else the entries up to the cursor, then `p`, with the cursor on it.
pub open spec fn pushed(entries: Seq<HistoryEntry>, index: nat, p: String) -> (Seq<HistoryEntry>, nat) {
    if entries.len() > 0 && paths::path_matches(entries[index as int].path@, p@) {
        (entries, index)
    } else if entries.len() == 0 {
        (seq![HistoryEntry { path: p, scroll_position: 0 }], 0)
    } else {
        (entries.take(index as int + 1).push(HistoryEntry { path: p, scroll_position: 0 }), index + 1)
    }
}

/// The cursor after going back: one entry earlier, unless at the start.
pub open spec fn back_index(len: nat, index: nat) -> nat {
    if index > 0 {
        (index - 1) as nat
    } else {
        index
    }
}

/// The cursor after going forward: one entry later, unless at the end.
pub open spec fn forward_index(len: nat, index: nat) -> nat {
    if len > 0 && index < len - 1 {
        index + 1
    } else {
        index
    }
}

impl HistoryManager {
    #[verifier::type_invariant]
    spec fn cursor_in_range(&self) -> bool {
        cursor_ok(self.history@.len(), self.current_index as nat)
    }

    /// The entries, oldest first.
    pub closed spec fn entries(&self) -> Seq<HistoryEntry> {
        self.history@
    }

    /// The position of the current entry.
    pub closed spec fn index(&self) -> nat {
        self.current_index as nat
    }

    /// An empty history.
    pub fn new() -> (r: Self)
        ensures
            r.entries().len() == 0,
            r.index() == 0,
    {
        HistoryManager { history: Vec::new(), current_index: 0 }
    }

    /// Pushes `path` as the current entry, dropping the forward history; does
    /// nothing when the current entry already names `path`.
    pub fn push(&mut self, path: String)
        ensures
            cursor_ok(final(self).entries().len(), final(self).index()),
            (final(self).entries(), final(self).index()) == pushed(old(self).entries(), old(self).index(), path),
            old(self).entries().len() > 0 && paths::plain_path(old(self).entries()[old(self).index() as int].path@)
                && paths::plain_path(path@) ==> (final(self).index() == old(self).index() <==> old(
                self,
            ).entries()[old(self).index() as int].path@ == path@),
    {
        proof {
            use_type_invariant(&*self);
        }
        if self.history.len() > 0 {
            if paths_equal(self.history[self.current_index].path.as_str(), path.as_str()) {
                return;
            }
        }
        if self.history.len() == 0 {
            let mut h: Vec<HistoryEntry> = Vec::new();
            h.push(HistoryEntry::new(path));
            self.history = h;
            self.current_index = 0;
            assert(self.history@ =~= seq![HistoryEntry { path, scroll_position: 0 }]);
        } else {
            let keep = self.current_index + 1;
            let mut h = self.copy_entries(keep, None);
            let ghost all = self.history@;
            h.push(HistoryEntry::new(path));
            assert(h@ =~= all.take(keep as int).push(HistoryEntry { path, scroll_position: 0 }));
            self.history = h;
            self.current_index = keep;
        }
    }

    /// Saves the scroll position of the current entry (its `f64` bit pattern).
    pub fn save_scroll_position(&mut self, scroll: u64)
        ensures
            cursor_ok(final(self).entries().len(), final(self).index()),
            final(self).index() == old(self).index(),
            old(self).entries().len() == 0 ==> final(self).entries() == old(self).entries(),
            old(self).entries().len() > 0 ==> final(self).entries() == old(self).entries().update(
                old(self).index() as int,
                HistoryEntry { path: old(self).entries()[old(self).index() as int].path, scroll_position: scroll },
            ),
    {
        proof {
            use_type_invariant(&*self);
        }
        if self.current_index < self.history.len() {
            let ghost all = self.history@;
            let i = self.current_index;
            let h = self.copy_entries(self.history.len(), Some((i, scroll)));
            assert(all.take(all.len() as int) =~= all);
            self.history = h;
        }
    }

    /// A copy of the first `n` entries, with the scroll position of entry
    /// `upd.0` set to `upd.1` when `upd` is given.
    fn copy_entries(&self, n: usize, upd: Option<(usize, u64)>) -> (r: Vec<HistoryEntry>)
        requires
            n <= self.history@.len(),
        ensures
            upd is None ==> r@ == self.history@.take(n as int),
            upd matches Some((i, v)) ==> i < n ==> r@ == self.history@.take(n as int).update(
                i as int,
                HistoryEntry { path: self.history@[i as int].path, scroll_position: v },
            ),
    {
        let mut r: Vec<HistoryEntry> = Vec::new();
        let mut k: usize = 0;
        while k < n
            invariant
                k <= n <= self.history@.len(),
                upd is None ==> r@ == self.history@.take(k as int),
                upd matches Some((i, v)) ==> r@ == self.history@.take(k as int).map(
                    |j: int, e: HistoryEntry|
                        if j == i { HistoryEntry { path: e.path, scroll_position: v } } else { e },
                ),
            decreases n - k,
        {
            let e = self.history[k].duplicate();
            let ghost before = r@;
            match upd {
                Some((i, v)) => {
                    if k == i {
                        r.push(HistoryEntry { path: e.path, scroll_position: v });
                    } else {
                        r.push(e);
                    }
                },
                None => {
                    r.push(e);
                },
            }
            assert(self.history@.take(k + 1) =~= self.history@.take(k as int).push(self.history@[k as int]));
            k += 1;
            proof {
                match upd {
                    Some((i, v)) => {
                        assert(r@ =~= self.history@.take(k as int).map(
                            |j: int, e: HistoryEntry|
                                if j == i { HistoryEntry { path: e.path, scroll_position: v } } else { e },
                        ));
                    },
                    None => {
                        assert(r@ =~= self.history@.take(k as int));
                    },
                }
            }
        }
        proof {
            match upd {
                Some((i, v)) => {
                    if i < n {
                        assert(r@ =~= self.history@.take(n as int).update(
                            i as int,
                            HistoryEntry { path: self.history@[i as int].path, scroll_position: v },
                        ));
                    }
                },
                None => {},
            }
        }
        r
    }

    /// A copy of this history.
    pub fn duplicate(&self) -> (r: Self)
        ensures
            r.entries() == self.entries(),
            r.index() == self.index(),
    {
        proof {
            use_type_invariant(self);
        }
        let h = self.copy_entries(self.history.len(), None);
        assert(self.history@.take(self.history@.len() as int) =~= self.history@);
        HistoryManager { history: h, current_index: self.current_index }
    }

    /// Whether there is an entry before the current one.
    pub fn can_go_back(&self) -> (r: bool)
        ensures
            r == (self.index() > 0),
    {
        self.current_index > 0
    }

    /// Whether there is an entry after the current one.
    pub fn can_go_forward(&self) -> (r: bool)
        ensures
            r == (self.entries().len() > 0 && self.index() < self.entries().len() - 1),
    {
        self.history.len() > 0 && self.current_index < self.history.len() - 1
    }

    /// Moves back one entry and returns it; `None` (and no move) at the start.
    pub fn go_back(&mut self) -> (r: Option<HistoryEntry>)
        ensures
            cursor_ok(final(self).entries().len(), final(self).index()),
            final(self).entries() == old(self).entries(),
            final(self).index() == back_index(old(self).entries().len(), old(self).index()),
            old(self).index() > 0 ==> r == Some(old(self).entries()[old(self).index() - 1]),
            old(self).index() == 0 ==> r is None,
    {
        proof {
            use_type_invariant(&*self);
        }
        if self.history.len() > 0 && self.current_index > 0 {
            self.current_index = self.current_index - 1;
            return Some(self.history[self.current_index].duplicate());
        }
        None
    }

    /// Moves forward one entry and returns it; `None` (and no move) at the end.
    pub fn go_forward(&mut self) -> (r: Option<HistoryEntry>)
        ensures
            cursor_ok(final(self).entries().len(), final(self).index()),
            final(self).entries() == old(self).entries(),
            final(self).index() == forward_index(old(self).entries().len(), old(self).index()),
            old(self).entries().len() > 0 && old(self).index() < old(self).entries().len() - 1 ==> r == Some(
                old(self).entries()[old(self).index() as int + 1],
            ),
            !(old(self).entries().len() > 0 && old(self).index() < old(self).entries().len() - 1) ==> r is None,
    {
        proof {
            use_type_invariant(&*self);
        }
        if self.history.len() > 0 && self.current_index < self.history.len() - 1 {
            self.current_index = self.current_index + 1;
            return Some(self.history[self.current_index].duplicate());
        }
        None
    }

    /// The current entry, if any.
    pub fn current(&self) -> (r: Option<&HistoryEntry>)
        ensures
            self.entries().len() > 0 ==> r == Some(&self.entries()[self.index() as int]),
            self.entries().len() == 0 ==> r is None,
    {
        proof {
            use_type_invariant(self);
        }
        if self.current_index < self.history.len() {
            Some(&self.history[self.current_index])
        } else {
            None
        }
    }

    /// The path of the current entry, if any.
    pub fn current_path(&self) -> (r: Option<&str>)
        ensures
            self.entries().len() > 0 ==> (r matches Some(p) && p@ == self.entries()[self.index() as int].path@),
            self.entries().len() == 0 ==> r is None,
    {
        proof {
            use_type_invariant(self);
        }
        if self.current_index < self.history.len() {
            Some(self.history[self.current_index].path.as_str())
        } else {
            None
        }
    }

    /// The number of entries.
    pub fn len(&self) -> (r: usize)
        ensures
            r == self.entries().len(),
    {
        self.history.len()
    }

    /// Whether there is no entry.
    pub fn is_empty(&self) -> (r: bool)
        ensures
            r == (self.entries().len() == 0),
    {
        self.history.len() == 0
    }
}

impl Default for HistoryManager {
    fn default() -> (r: Self)
        ensures
            r.entries().len() == 0,
            r.index() == 0,
    {
        HistoryManager::new()
    }
}

// ---------------------------------------------------------------------------
// Laws
// ---------------------------------------------------------------------------

/// Pushing keeps the cursor on an entry, and leaves nothing to go forward to.
pub proof fn push_ends_history(entries: Seq<HistoryEntry>, index: nat, p: String)
    requires
        cursor_ok(entries.len(), index),
    ensures
        cursor_ok(pushed(entries, index, p).0.len(), pushed(entries, index, p).1),
        pushed(entries, index, p).0.len() > 0,
        !(entries.len() > 0 && paths::path_matches(entries[index as int].path@, p@)) ==> pushed(
            entries,
            index,
            p,
        ).1 == pushed(entries, index, p).0.len() - 1 && pushed(entries, index, p).0.last() == (HistoryEntry {
            path: p,
            scroll_position: 0,
        }),
        index > 0 ==> pushed(entries, index, p).0.take(index as int) == entries.take(index as int),
{
}

/// Pushing a path other than the current entry's and then going back
/// returns to the entry one was on; going forward again returns to the
/// pushed path.
pub proof fn push_then_back_returns(entries: Seq<HistoryEntry>, index: nat, p: String)
    requires
        cursor_ok(entries.len(), index),
        entries.len() > 0,
        !paths::path_matches(entries[index as int].path@, p@),
    ensures
        ({
            let (e, i) = pushed(entries, index, p);
            &&& i > 0
            &&& e[back_index(e.len(), i) as int] == entries[index as int]
            &&& forward_index(e.len(), back_index(e.len(), i)) == i
            &&& e[i as int].path == p
        }),
{
}

/// Going back and then forward returns to the entry one started from, and
/// so does going forward and then back; both keep the cursor on an entry.
pub proof fn back_and_forward_undo(len: nat, index: nat)
    requires
        cursor_ok(len, index),
    ensures
        cursor_ok(len, back_index(len, index)),
        cursor_ok(len, forward_index(len, index)),
        index > 0 ==> forward_index(len, back_index(len, index)) == index,
        len > 0 && index < len - 1 ==> back_index(len, forward_index(len, index)) == index,
{
}

} // verus!

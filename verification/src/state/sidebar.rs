//! The state of the sidebar's file explorer.

use vstd::prelude::*;
use crate::history::HistoryManager;
use crate::paths;
use crate::paths::paths_equal;

verus! {

/// The state of the sidebar file explorer.
#[derive(Debug, PartialEq, Eq)]
pub struct Sidebar {
    /// Whether the sidebar is shown.
    pub open: bool,
    /// The directory at the root of the explorer.
    pub root_directory: Option<String>,
    /// The directories shown expanded, each named once.
    pub expanded_dirs: Vec<String>,
    /// The width in pixels, as the bit pattern of an `f64`.
    pub width: u64,
    /// Whether files other than Markdown are listed.
    pub show_all_files: bool,
    /// History of root directory navigation, kept in memory only: each
    /// session starts with a fresh history.
    pub dir_history: HistoryManager,
}

/// Whether some directory in `dirs` names the path `p`.
pub open spec fn names_dir(dirs: Seq<String>, p: Seq<char>) -> bool {
    exists|i: int| 0 <= i < dirs.len() && paths::path_matches(dirs[i]@, p)
}

/// Whether directory `d` stays when `p` is collapsed.
pub open spec fn stays(p: Seq<char>) -> spec_fn(String) -> bool {
    |d: String| !paths::path_matches(d@, p)
}

/// The expanded directories after toggling `p`: collapsed when expanded,
/// expanded otherwise.
pub open spec fn toggled(dirs: Seq<String>, p: String) -> Seq<String> {
    if names_dir(dirs, p@) {
        dirs.filter(stays(p@))
    } else {
        dirs.push(p)
    }
}

/// The width of a new sidebar, 280 pixels, as an `f64` bit pattern.
pub open spec fn default_width_bits() -> u64 {
    0x4071800000000000u64
}

impl Default for Sidebar {
    fn default() -> (r: Self)
        ensures
            !r.open,
            r.root_directory is None,
            r.expanded_dirs@.len() == 0,
            r.width == default_width_bits(),
            !r.show_all_files,
            r.dir_history.entries().len() == 0,
            r.dir_history.index() == 0,
    {
        Sidebar {
            open: false,
            root_directory: None,
            expanded_dirs: Vec::new(),
            width: 0x4071800000000000u64,
            show_all_files: false,
            dir_history: HistoryManager::new(),
        }
    }
}

impl Sidebar {
    /// Whether `path` is expanded.
    pub fn is_expanded(&self, path: &str) -> (r: bool)
        ensures
            r == names_dir(self.expanded_dirs@, path@),
    {
        let mut i: usize = 0;
        while i < self.expanded_dirs.len()
            invariant
                i <= self.expanded_dirs@.len(),
                forall|k: int| 0 <= k < i ==> !paths::path_matches(self.expanded_dirs@[k]@, path@),
            decreases self.expanded_dirs@.len() - i,
        {
            if paths_equal(self.expanded_dirs[i].as_str(), path) {
                return true;
            }
            i += 1;
        }
        false
    }

    /// Expands `path` when it is collapsed, collapses it when it is expanded.
    pub fn toggle_expansion(&mut self, path: String)
        ensures
            final(self).expanded_dirs@ == toggled(old(self).expanded_dirs@, path),
            final(self).open == old(self).open,
            final(self).root_directory == old(self).root_directory,
            final(self).width == old(self).width,
            final(self).show_all_files == old(self).show_all_files,
            final(self).dir_history == old(self).dir_history,
    {
        if self.is_expanded(path.as_str()) {
            let ghost pred = stays(path@);
            let mut all: Vec<String> = Vec::new();
            std::mem::swap(&mut all, &mut self.expanded_dirs);
            let mut kept: Vec<String> = Vec::new();
            assert(all@.take(0).filter(pred) =~= Seq::<String>::empty());
            for d in it: all
                invariant
                    it.seq() == old(self).expanded_dirs@,
                    pred == stays(path@),
                    kept@ == it.seq().take(it.index() as int).filter(pred),
            {
                let ghost k = it.index() as int;
                proof {
                    reveal(Seq::filter);
                }
                assert(it.seq().take(k + 1).drop_last() =~= it.seq().take(k));
                assert(it.seq().take(k + 1).last() == d);
                let matched = paths_equal(d.as_str(), path.as_str());
                assert(pred(d) == !matched);
                assert(it.seq().take(k + 1).filter(pred) == if pred(d) {
                    it.seq().take(k).filter(pred).push(d)
                } else {
                    it.seq().take(k).filter(pred)
                });
                if !matched {
                    kept.push(d);
                }
            }
            self.expanded_dirs = kept;
            assert(old(self).expanded_dirs@.take(old(self).expanded_dirs@.len() as int) =~= old(
                self,
            ).expanded_dirs@);
        } else {
            self.expanded_dirs.push(path);
        }
    }

    /// Whether there is a directory to go back to.
    pub fn can_go_back(&self) -> (r: bool)
        ensures
            r == (self.dir_history.index() > 0),
    {
        self.dir_history.can_go_back()
    }

    /// Whether there is a directory to go forward to.
    pub fn can_go_forward(&self) -> (r: bool)
        ensures
            r == (self.dir_history.entries().len() > 0 && self.dir_history.index()
                < self.dir_history.entries().len() - 1),
    {
        self.dir_history.can_go_forward()
    }

    /// Pushes a directory on the history.
    pub fn push_to_history(&mut self, path: String)
        ensures
            (final(self).dir_history.entries(), final(self).dir_history.index()) == crate::history::pushed(
                old(self).dir_history.entries(),
                old(self).dir_history.index(),
                path,
            ),
            final(self).expanded_dirs == old(self).expanded_dirs,
            final(self).root_directory == old(self).root_directory,
            final(self).open == old(self).open,
    {
        self.dir_history.push(path);
    }

    /// Goes back in the directory history, giving the directory.
    pub fn go_back(&mut self) -> (r: Option<String>)
        ensures
            final(self).dir_history.entries() == old(self).dir_history.entries(),
            final(self).dir_history.index() == crate::history::back_index(
                old(self).dir_history.entries().len(),
                old(self).dir_history.index(),
            ),
            old(self).dir_history.index() > 0 ==> r == Some(
                old(self).dir_history.entries()[old(self).dir_history.index() - 1].path,
            ),
            old(self).dir_history.index() == 0 ==> r is None,
            final(self).expanded_dirs == old(self).expanded_dirs,
            final(self).root_directory == old(self).root_directory,
            final(self).open == old(self).open,
    {
        match self.dir_history.go_back() {
            Some(e) => Some(e.path),
            None => None,
        }
    }

    /// Goes forward in the directory history, giving the directory.
    pub fn go_forward(&mut self) -> (r: Option<String>)
        ensures
            final(self).dir_history.entries() == old(self).dir_history.entries(),
            final(self).dir_history.index() == crate::history::forward_index(
                old(self).dir_history.entries().len(),
                old(self).dir_history.index(),
            ),
            old(self).dir_history.entries().len() > 0 && old(self).dir_history.index()
                < old(self).dir_history.entries().len() - 1 ==> r == Some(
                old(self).dir_history.entries()[old(self).dir_history.index() as int + 1].path,
            ),
            !(old(self).dir_history.entries().len() > 0 && old(self).dir_history.index()
                < old(self).dir_history.entries().len() - 1) ==> r is None,
            final(self).expanded_dirs == old(self).expanded_dirs,
            final(self).root_directory == old(self).root_directory,
            final(self).open == old(self).open,
    {
        match self.dir_history.go_forward() {
            Some(e) => Some(e.path),
            None => None,
        }
    }
}

/// Toggling the same directory twice gives back the expanded set one
/// started from, when that set names each directory once.
pub proof fn toggle_expansion_twice(dirs: Seq<String>, p: String)
    requires
        !names_dir(dirs, p@),
    ensures
        names_dir(toggled(dirs, p), p@),
        toggled(toggled(dirs, p), p) == dirs,
{
    let added = dirs.push(p);
    assert(paths::path_matches(added[dirs.len() as int]@, p@));
    assert(added.drop_last() =~= dirs);
    lemma_filter_stays_all(dirs, p@);
    reveal(Seq::filter);
    assert(!stays(p@)(p));
}

proof fn lemma_filter_stays_all(dirs: Seq<String>, p: Seq<char>)
    requires
        !names_dir(dirs, p),
    ensures
        dirs.filter(stays(p)) == dirs,
    decreases dirs.len(),
{
    reveal(Seq::filter);
    if dirs.len() > 0 {
        let rest = dirs.drop_last();
        assert forall|i: int| 0 <= i < rest.len() implies !paths::path_matches(rest[i]@, p) by {
            assert(rest[i] == dirs[i]);
        }
        lemma_filter_stays_all(rest, p);
        assert(!paths::path_matches(dirs.last()@, p)) by {
            assert(dirs.last() == dirs[dirs.len() - 1]);
        }
        assert(stays(p)(dirs.last()));
        assert(dirs.filter(stays(p)) == rest.filter(stays(p)).push(dirs.last()));
        assert(rest.push(dirs.last()) =~= dirs);
    }
}

} // verus!

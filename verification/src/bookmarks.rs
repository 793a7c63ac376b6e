//! Bookmarks of files and directories for the Quick Access list.
//!
//! `Bookmarks` is an ordered list; paths are compared as `Path`s. Reading and
//! writing the list to disk, and telling other windows of a change, is the
//! application's part.

use vstd::prelude::*;
use crate::paths::{file_name, paths_equal};
use crate::paths;

verus! {

broadcast use vstd::seq_lib::group_to_multiset_ensures;

/// A single bookmark entry.
#[derive(Debug, PartialEq, Eq)]
pub struct Bookmark {
    /// Path to the bookmarked file or directory.
    pub path: String,
    /// Custom display name (if `None`, the file or directory name is shown).
    pub name: Option<String>,
}

/// The name shown for a bookmark: its custom name, else its path's file
/// name, else `Unknown`.
pub open spec fn display_name_of(b: Bookmark) -> Seq<char> {
    match b.name {
        Some(n) => n@,
        None => match paths::std_file_name(b.path@) {
            Some(f) => f,
            None => "Unknown"@,
        },
    }
}

impl Bookmark {
    /// A new bookmark of `path`, without a custom name.
    pub fn new(path: String) -> (b: Self)
        ensures
            b == (Bookmark { path, name: None }),
    {
        Bookmark { path, name: None }
    }

    /// The name to show for this bookmark.
    pub fn display_name(&self) -> (r: String)
        ensures
            r@ == display_name_of(*self),
    {
        match &self.name {
            Some(n) => n.clone(),
            None => match file_name(self.path.as_str()) {
                Some(f) => f,
                None => "Unknown".to_owned(),
            },
        }
    }
}

/// Whether some bookmark in `items` names the path `p`.
pub open spec fn contains_path(items: Seq<Bookmark>, p: Seq<char>) -> bool {
    exists|i: int| 0 <= i < items.len() && paths::path_matches(items[i].path@, p)
}

/// Whether bookmark `b` is kept when the path `p` is removed.
pub open spec fn keeps(p: Seq<char>) -> spec_fn(Bookmark) -> bool {
    |b: Bookmark| !paths::path_matches(b.path@, p)
}

/// Where `reorder` puts the moved bookmark once it is taken out.
pub open spec fn insert_position(from: int, to: int) -> int {
    if from < to {
        to - 1
    } else {
        to
    }
}

/// The list after moving the bookmark at `from` to the drop zone at `to`.
pub open spec fn reordered(items: Seq<Bookmark>, from: int, to: int) -> Seq<Bookmark> {
    if from == to {
        items
    } else {
        items.remove(from).insert(insert_position(from, to), items[from])
    }
}

/// The bookmark list.
#[derive(Debug, PartialEq, Eq)]
pub struct Bookmarks {
    /// The bookmarks, in display order.
    pub items: Vec<Bookmark>,
}

impl Bookmarks {
    /// An empty list.
    pub fn new() -> (r: Self)
        ensures
            r.items@.len() == 0,
    {
        Bookmarks { items: Vec::new() }
    }

    /// The path of the bookmarks file, `bookmarks.json` among the
    /// application's files in the user's local data directory (see
    /// `paths::app_file_path`).
    pub fn path(data_local_dir: Option<&str>, home_dir: Option<&str>) -> (r: String)
        ensures
            r@ == paths::app_file(paths::opt_str_view(data_local_dir), paths::opt_str_view(home_dir), "bookmarks.json"@),
    {
        paths::app_file_path(data_local_dir, home_dir, "bookmarks.json")
    }

    /// Removes every bookmark of `path`, keeping the others in order.
    pub fn remove(&mut self, path: &str)
        ensures
            final(self).items@ == old(self).items@.filter(keeps(path@)),
    {
        let ghost pred = keeps(path@);
        let mut all: Vec<Bookmark> = Vec::new();
        std::mem::swap(&mut all, &mut self.items);
        assert(all@.take(0).filter(pred) =~= Seq::<Bookmark>::empty());
        for b in it: all
            invariant
                it.seq() == old(self).items@,
                pred == keeps(path@),
                self.items@ == it.seq().take(it.index() as int).filter(pred),
        {
            let ghost k = it.index() as int;
            proof {
                reveal(Seq::filter);
            }
            assert(it.seq().take(k + 1).drop_last() =~= it.seq().take(k));
            assert(it.seq().take(k + 1).last() == b);
            let matched = paths_equal(b.path.as_str(), path);
            assert(pred(b) == !matched);
            assert(it.seq().take(k + 1).filter(pred) == if pred(b) {
                it.seq().take(k).filter(pred).push(b)
            } else {
                it.seq().take(k).filter(pred)
            });
            if !matched {
                self.items.push(b);
            }
        }
        assert(old(self).items@.take(old(self).items@.len() as int) =~= old(self).items@);
    }

    /// Whether `path` is bookmarked.
    pub fn contains(&self, path: &str) -> (r: bool)
        ensures
            r == contains_path(self.items@, path@),
            (forall|k: int| 0 <= k < self.items@.len() ==> paths::plain_path(#[trigger] self.items@[k].path@))
                && paths::plain_path(path@) ==> (r <==> exists|k: int|
                0 <= k < self.items@.len() && (#[trigger] self.items@[k]).path@ == path@),
    {
        let mut i: usize = 0;
        while i < self.items.len()
            invariant
                i <= self.items@.len(),
                forall|k: int| 0 <= k < i ==> !paths::path_matches(self.items@[k].path@, path@),
            decreases self.items@.len() - i,
        {
            if paths_equal(self.items[i].path.as_str(), path) {
                proof {
                    if paths::plain_path(self.items@[i as int].path@) && paths::plain_path(path@) {
                        assert(self.items@[i as int].path@ == path@);
                    }
                }
                return true;
            }
            i += 1;
        }
        proof {
            assert forall|k: int| 0 <= k < self.items@.len() implies (#[trigger] self.items@[k]).path@ != path@ by {
                assert(!paths::path_matches(self.items@[k].path@, path@));
            }
        }
        false
    }

    /// Adds `path` if it is not bookmarked, removes it if it is. Returns
    /// whether the path is bookmarked afterwards.
    pub fn toggle(&mut self, path: String) -> (r: bool)
        ensures
            r == !contains_path(old(self).items@, path@),
            r ==> final(self).items@ == old(self).items@.push(Bookmark { path, name: None }),
            !r ==> final(self).items@ == old(self).items@.filter(keeps(path@)),
    {
        if self.contains(path.as_str()) {
            self.remove(path.as_str());
            false
        } else {
            self.items.push(Bookmark::new(path));
            true
        }
    }

    /// Moves the bookmark at `from_index` into the drop zone of the bookmark
    /// at `to_index`. Returns whether both indices were in range.
    pub fn reorder(&mut self, from_index: usize, to_index: usize) -> (r: bool)
        ensures
            r == (from_index < old(self).items@.len() && to_index < old(self).items@.len()),
            r ==> final(self).items@ == reordered(old(self).items@, from_index as int, to_index as int),
            !r ==> final(self).items@ == old(self).items@,
    {
        if from_index >= self.items.len() || to_index >= self.items.len() {
            return false;
        }
        if from_index == to_index {
            return true;
        }
        let item = self.items.remove(from_index);
        let insert_at = if from_index < to_index {
            to_index - 1
        } else {
            to_index
        };
        self.items.insert(insert_at, item);
        true
    }

    /// Adds `path` unless it is already bookmarked.
    pub fn add(&mut self, path: String)
        ensures
            contains_path(old(self).items@, path@) ==> final(self).items@ == old(self).items@,
            !contains_path(old(self).items@, path@) ==> final(self).items@ == old(self).items@.push(
                Bookmark { path, name: None },
            ),
    {
        if !self.contains(path.as_str()) {
            self.items.push(Bookmark::new(path));
        }
    }

    /// The number of bookmarks.
    pub fn len(&self) -> (r: usize)
        ensures
            r == self.items@.len(),
    {
        self.items.len()
    }
}

/// Toggles `path` in the list; the application then saves the list and tells
/// every window. Returns whether the path is bookmarked afterwards.
pub fn toggle_bookmark(bookmarks: &mut Bookmarks, path: String) -> (r: bool)
    ensures
        r == !contains_path(old(bookmarks).items@, path@),
        r ==> final(bookmarks).items@ == old(bookmarks).items@.push(Bookmark { path, name: None }),
        !r ==> final(bookmarks).items@ == old(bookmarks).items@.filter(keeps(path@)),
{
    bookmarks.toggle(path)
}

/// Moves a bookmark as `Bookmarks::reorder` does. The application saves the
/// list and tells every window only when this returns `true`.
pub fn reorder_bookmark(bookmarks: &mut Bookmarks, from_index: usize, to_index: usize) -> (r: bool)
    ensures
        r == (from_index < old(bookmarks).items@.len() && to_index < old(bookmarks).items@.len()),
        r ==> final(bookmarks).items@ == reordered(old(bookmarks).items@, from_index as int, to_index as int),
        !r ==> final(bookmarks).items@ == old(bookmarks).items@,
{
    bookmarks.reorder(from_index, to_index)
}

// ---------------------------------------------------------------------------
// Laws
// ---------------------------------------------------------------------------

/// Reordering moves bookmarks and never adds, drops or duplicates one.
pub proof fn reorder_is_permutation(items: Seq<Bookmark>, from: int, to: int)
    requires
        0 <= from < items.len(),
        0 <= to < items.len(),
    ensures
        reordered(items, from, to).to_multiset() == items.to_multiset(),
        reordered(items, from, to).len() == items.len(),
        reordered(items, from, to)[insert_position(from, to)] == items[from] || from == to,
{
    broadcast use vstd::seq_lib::to_multiset_remove, vstd::seq_lib::to_multiset_insert;
    if from != to {
        let rest = items.remove(from);
        assert(rest.to_multiset() == items.to_multiset().remove(items[from]));
        assert(rest.insert(insert_position(from, to), items[from]).to_multiset()
            == rest.to_multiset().insert(items[from]));
        broadcast use vstd::multiset::group_multiset_properties, vstd::multiset::group_multiset_axioms;
        assert(items.to_multiset().contains(items[from]));
        assert(items.to_multiset().remove(items[from]).insert(items[from]) =~= items.to_multiset());
    }
}

/// Toggling a path that is not bookmarked, then toggling it again, gives
/// back the list it started from.
pub proof fn toggle_twice_restores(items: Seq<Bookmark>, p: String)
    requires
        !contains_path(items, p@),
    ensures
        contains_path(items.push(Bookmark { path: p, name: None }), p@),
        items.push(Bookmark { path: p, name: None }).filter(keeps(p@)) == items,
{
    let added = items.push(Bookmark { path: p, name: None });
    assert(paths::path_matches(added[items.len() as int].path@, p@));
    assert(added.drop_last() =~= items);
    reveal(Seq::filter);
    lemma_filter_keeps_all(items, p@);
}

/// Removing a path that no bookmark names leaves the list as it is.
proof fn lemma_filter_keeps_all(items: Seq<Bookmark>, p: Seq<char>)
    requires
        !contains_path(items, p),
    ensures
        items.filter(keeps(p)) == items,
    decreases items.len(),
{
    if items.len() > 0 {
        let rest = items.drop_last();
        assert forall|i: int| 0 <= i < rest.len() implies !paths::path_matches(rest[i].path@, p) by {
            assert(rest[i] == items[i]);
        }
        lemma_filter_keeps_all(rest, p);
        assert(!paths::path_matches(items.last().path@, p)) by {
            assert(items.last() == items[items.len() - 1]);
        }
        assert(keeps(p)(items.last()));
        reveal(Seq::filter);
        assert(items.filter(keeps(p)) == rest.filter(keeps(p)).push(items.last()));
        assert(rest.push(items.last()) =~= items);
    }
}

/// After removing a path, no bookmark of it is left.
pub proof fn remove_drops_path(items: Seq<Bookmark>, p: Seq<char>)
    ensures
        !contains_path(items.filter(keeps(p)), p),
{
    broadcast use vstd::seq_lib::group_filter_ensures;
    let f = items.filter(keeps(p));
    if contains_path(f, p) {
        let i = choose|i: int| 0 <= i < f.len() && paths::path_matches(f[i].path@, p);
        assert(keeps(p)(f[i]));
    }
}

} // verus!

//! The list of directories watched for changes.

use vstd::prelude::*;
use crate::paths::{same_path, same_path_of};
use crate::text::views;

verus! {

/// `d` is in `ds`: some entry is the same string or the same path.
pub open spec fn listed(ds: Seq<Seq<char>>, d: Seq<char>) -> bool {
    exists|i: int| #![trigger ds[i]] 0 <= i < ds.len() && (ds[i] == d || same_path_of(ds[i], d))
}

/// An entry that stays when `d` is removed.
pub open spec fn kept_after_removing(d: Seq<char>, x: Seq<char>) -> bool {
    !(x == d || same_path_of(x, d))
}

/// The list after adding `d`: unchanged when `d` is already in it, `d`
/// appended otherwise.
pub open spec fn with_dir(ds: Seq<Seq<char>>, d: Seq<char>) -> Seq<Seq<char>> {
    if listed(ds, d) { ds } else { ds.push(d) }
}

/// The list after removing `d`: every entry that is the same path as `d`
/// is dropped, the others keep their order.
pub open spec fn without_dir(ds: Seq<Seq<char>>, d: Seq<char>) -> Seq<Seq<char>> {
    ds.filter(|x: Seq<char>| kept_after_removing(d, x))
}

/// Removing a directory that is not listed changes nothing.
proof fn lemma_remove_absent(ds: Seq<Seq<char>>, d: Seq<char>)
    requires
        !listed(ds, d),
    ensures
        without_dir(ds, d) == ds,
    decreases ds.len(),
{
    reveal(Seq::filter);
    if ds.len() > 0 {
        let init = ds.drop_last();
        assert(!listed(init, d)) by {
            if listed(init, d) {
                let i = choose|i: int| 0 <= i < init.len() && (init[i] == d || same_path_of(init[i], d));
                assert(ds[i] == init[i]);
            }
        }
        lemma_remove_absent(init, d);
        let last = ds.last();
        assert(kept_after_removing(d, last)) by {
            if !kept_after_removing(d, last) {
                assert(ds[ds.len() - 1] == last);
                assert(ds[ds.len() - 1] == d || same_path_of(ds[ds.len() - 1], d));
            }
        }
        assert(init.push(last) =~= ds);
    }
}

/// A directory, once added, is listed.
pub proof fn law_added_dir_is_listed(ds: Seq<Seq<char>>, d: Seq<char>)
    ensures
        listed(with_dir(ds, d), d),
{
    if !listed(ds, d) {
        let n = ds.len() as int;
        assert(ds.push(d)[n] == d);
        assert(with_dir(ds, d)[n] == d);
    }
}

/// Adding a directory twice is the same as adding it once.
pub proof fn law_add_is_idempotent(ds: Seq<Seq<char>>, d: Seq<char>)
    ensures
        with_dir(with_dir(ds, d), d) == with_dir(ds, d),
{
    law_added_dir_is_listed(ds, d);
}

/// Adding a directory keeps the directories already watched, in order.
pub proof fn law_add_keeps_existing(ds: Seq<Seq<char>>, d: Seq<char>)
    ensures
        with_dir(ds, d).len() <= ds.len() + 1,
        with_dir(ds, d).take(ds.len() as int) == ds,
{
    assert(with_dir(ds, d).take(ds.len() as int) =~= ds);
}

/// A removed directory is no longer listed.
pub proof fn law_removed_dir_is_not_listed(ds: Seq<Seq<char>>, d: Seq<char>)
    ensures
        !listed(without_dir(ds, d), d),
{
    broadcast use vstd::seq_lib::group_filter_ensures;

    let r = without_dir(ds, d);
    if listed(r, d) {
        let i = choose|i: int| 0 <= i < r.len() && (r[i] == d || same_path_of(r[i], d));
        assert(kept_after_removing(d, r[i]));
    }
}

/// Removing a directory that was just added, and was not watched before,
/// gives back the list as it was.
pub proof fn law_remove_undoes_add(ds: Seq<Seq<char>>, d: Seq<char>)
    requires
        !listed(ds, d),
    ensures
        without_dir(with_dir(ds, d), d) == ds,
{
    ds.lemma_filter_push(d, |x: Seq<char>| kept_after_removing(d, x));
    lemma_remove_absent(ds, d);
}

/// What the file system reported about a path under a watched directory.
#[derive(Clone, Copy, Debug, PartialEq, Eq, Structural)]
pub enum ChangeKind {
    Created,
    Modified,
    Removed,
    Other,
}

/// What indexing does about a reported change.
#[derive(Clone, Copy, Debug, PartialEq, Eq, Structural)]
pub enum ChangeAction {
    /// (Re)index the file.
    Index,
    /// Mark the file's records deleted.
    Delete,
    /// Nothing.
    Ignore,
}

/// A created or modified path is indexed when it is a file; a removed path
/// is marked deleted; anything else is ignored.
pub fn change_action(kind: ChangeKind, is_file: bool) -> (a: ChangeAction)
    ensures
        a == match kind {
            ChangeKind::Created | ChangeKind::Modified => if is_file {
                ChangeAction::Index
            } else {
                ChangeAction::Ignore
            },
            ChangeKind::Removed => ChangeAction::Delete,
            ChangeKind::Other => ChangeAction::Ignore,
        },
{
    match kind {
        ChangeKind::Created | ChangeKind::Modified => if is_file {
            ChangeAction::Index
        } else {
            ChangeAction::Ignore
        },
        ChangeKind::Removed => ChangeAction::Delete,
        ChangeKind::Other => ChangeAction::Ignore,
    }
}

/// The watched directories, in the order they were added.
pub struct WatchedDirs {
    dirs: Vec<String>,
}

impl View for WatchedDirs {
    type V = Seq<Seq<char>>;

    closed spec fn view(&self) -> Seq<Seq<char>> {
        views(self.dirs@)
    }
}

impl WatchedDirs {
    /// No directory.
    pub fn new() -> (w: Self)
        ensures
            w@ == Seq::<Seq<char>>::empty(),
    {
        let w = WatchedDirs { dirs: Vec::new() };
        assert(w@ =~= Seq::<Seq<char>>::empty());
        w
    }

    /// The directories of a saved list, as they were saved.
    pub fn from_list(dirs: Vec<String>) -> (w: Self)
        ensures
            w@ == views(dirs@),
    {
        WatchedDirs { dirs }
    }

    /// Whether `dir` is watched.
    pub fn contains(&self, dir: &str) -> (b: bool)
        ensures
            b == listed(self@, dir@),
    {
        let mut i: usize = 0;
        while i < self.dirs.len()
            invariant
                i <= self.dirs@.len(),
                forall|k: int| 0 <= k < i ==> !(#[trigger] views(self.dirs@)[k] == dir@ || same_path_of(views(self.dirs@)[k], dir@)),
            decreases self.dirs@.len() - i,
        {
            if same_path(self.dirs[i].as_str(), dir) {
                assert(same_path_of(views(self.dirs@)[i as int], dir@));
                return true;
            }
            i += 1;
        }
        false
    }

    /// Adds `dir` unless it is already watched; says whether it added it.
    pub fn add(&mut self, dir: &str) -> (added: bool)
        ensures
            final(self)@ == with_dir(old(self)@, dir@),
            added == !listed(old(self)@, dir@),
    {
        if self.contains(dir) {
            false
        } else {
            let ghost before = self.dirs@;
            self.dirs.push(dir.to_owned());
            assert(views(self.dirs@) =~= views(before).push(dir@));
            true
        }
    }

    /// Stops watching `dir`: drops every entry that is the same path.
    pub fn remove(&mut self, dir: &str)
        ensures
            final(self)@ == without_dir(old(self)@, dir@),
    {
        let ghost old_view = self@;
        let mut kept: Vec<String> = Vec::new();
        let mut i: usize = 0;
        while i < self.dirs.len()
            invariant
                old_view == views(self.dirs@),
                i <= self.dirs@.len(),
                views(kept@) == without_dir(old_view.take(i as int), dir@),
            decreases self.dirs@.len() - i,
        {
            proof {
                if i == 0 {
                    reveal(Seq::filter);
                    assert(old_view.take(0).len() == 0);
                }
            }
            let ghost prefix = old_view.take(i + 1);
            assert(prefix.drop_last() =~= old_view.take(i as int));
            assert(prefix.last() == self.dirs@[i as int]@);
            let same = same_path(self.dirs[i].as_str(), dir);
            assert(same == !kept_after_removing(dir@, prefix.last()));
            assert(prefix.len() > 0);
            reveal(Seq::filter);
            assert(without_dir(prefix, dir@) == if kept_after_removing(dir@, prefix.last()) {
                without_dir(prefix.drop_last(), dir@).push(prefix.last())
            } else {
                without_dir(prefix.drop_last(), dir@)
            });
            if !same {
                let ghost before = kept@;
                kept.push(self.dirs[i].clone());
                assert(views(kept@) =~= views(before).push(self.dirs@[i as int]@));
            }
            assert(views(kept@) == without_dir(prefix, dir@));
            i += 1;
        }
        assert(old_view.take(self.dirs@.len() as int) =~= old_view);
        self.dirs = kept;
    }

    /// A copy of the list.
    pub fn snapshot(&self) -> (r: Vec<String>)
        ensures
            views(r@) == self@,
    {
        let r = self.dirs.clone();
        assert(views(r@) =~= views(self.dirs@)) by {
            assert forall|k: int| 0 <= k < r@.len() implies r@[k]@ == self.dirs@[k]@ by {
            }
        }
        r
    }
}

} // verus!

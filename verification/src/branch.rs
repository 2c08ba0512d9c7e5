//! A view of one branch: its name (when it has one), and the tip commit and
//! root tree captured when the view was constructed.

use vstd::prelude::*;

use crate::commit::{Commit, CommitView};
use crate::file::{Entry, EntryKind, File, FileView};
use crate::names::split_at_last_slash;
use crate::store;
use crate::BrowseError;

verus! {

/// An entry can be visited only when its name bytes were decodable.
pub open spec fn entry_visible(e: Entry) -> bool {
    e.name is Some
}

/// The content of the file reference that a walk entry gives rise to.
pub open spec fn entry_file_view(e: Entry) -> FileView {
    FileView { prefix: e.prefix@, name: (e.name->0)@, kind: e.kind, id: e.id@ }
}

/// The name an optional branch name stands for, as a sequence of characters.
pub open spec fn opt_name_view(name: Option<String>) -> Option<Seq<char>> {
    match name {
        Some(n) => Some(n@),
        None => None,
    }
}

/// A branch view: a name (absent for a detached position) bound to the tip
/// commit and root tree the branch pointed at when the view was made.
pub struct Branch<'a> {
    pub(crate) repo: &'a git2::Repository,
    pub(crate) name: Option<String>,
    pub(crate) tip: String,
    pub(crate) tree: String,
}

impl<'a> Branch<'a> {
    pub(crate) fn make(
        repo: &'a git2::Repository,
        name: Option<String>,
        tip: String,
        tree: String,
    ) -> (r: Branch<'a>)
        ensures
            r.name_spec() == opt_name_view(name),
            r.tip_spec() == tip@,
            r.tree_spec() == tree@,
    {
        Branch { repo, name, tip, tree }
    }

    /// The branch's short name, when it has one.
    pub closed spec fn name_spec(&self) -> Option<Seq<char>> {
        match self.name {
            Some(n) => Some(n@),
            None => None,
        }
    }

    /// The full hex id of the tip commit captured at construction.
    pub closed spec fn tip_spec(&self) -> Seq<char> {
        self.tip@
    }

    /// The full hex id of the root tree captured at construction.
    pub closed spec fn tree_spec(&self) -> Seq<char> {
        self.tree@
    }

    /// True when the view carries a branch name; a view of a detached
    /// position has none.
    pub fn has_name(&self) -> (r: bool)
        ensures
            r == (self.name_spec() is Some),
    {
        self.name.is_some()
    }

    /// The short name of the branch. Only a named view has one: check
    /// [`Branch::has_name`] first on a view that may be detached.
    pub fn name(&self) -> (r: &str)
        requires
            self.name_spec() is Some,
        ensures
            r@ == self.name_spec()->0,
    {
        self.name.as_ref().unwrap().as_str()
    }

    /// Resolves one entry by its full slash-separated path within the root
    /// tree, in a single lookup. A path absent from the tree gives
    /// [`BrowseError::NotFound`]. The reference handed back reconstructs exactly
    /// the path it was asked for.
    pub fn get_file_by_path(&'a self, path: &str) -> (r: Result<File<'a>, BrowseError>)
        ensures
            r matches Ok(f) ==> f@.prefix + f@.name == path@,
    {
        let (kind, id) = match store::tree_entry_by_path(
            self.repo,
            self.tree.as_str(),
            path,
        ) {
            Ok(p) => p,
            Err(e) => {
                return Err(e);
            },
        };
        let (prefix, name) = split_at_last_slash(path);
        Ok(File::make(self, prefix, name, kind, id))
    }

    /// Enumerates the entries — files and directories both — of the branch's
    /// tree snapshot in pre-order, visiting each through the callback. The
    /// walk stops at the first callback failure and hands that exact error
    /// back; entries whose name bytes are not valid text are skipped. An
    /// error the callback never produced is a store failure from the walk
    /// itself, and those are always [`BrowseError::Store`].
    pub fn files<F: Fn(File<'a>) -> Result<(), BrowseError>>(&'a self, cb: F) -> (r: Result<
        (),
        BrowseError,
    >)
        requires
            forall|f: File<'a>| #[trigger] call_requires(cb, (f,)),
        ensures
            r matches Err(e) ==> (e is Store) || (exists|f: File<'a>|
                call_ensures(cb, (f,), Err(e))),
    {
        let entries = match store::tree_entries(self.repo, self.tree.as_str()) {
            Ok(v) => v,
            Err(e) => {
                return Err(e);
            },
        };
        visit_entries(self, &entries, cb)
    }

    /// Returns a cursor over the commits of this branch, newest first,
    /// following first parents only: the branch's mainline. The chain starts
    /// at the tip captured when the view was constructed.
    pub fn commits(&'a self) -> (r: Result<CommitIterator<'a>, BrowseError>)
        ensures
            r matches Ok(it) ==> it.current() matches Some(c) && c.full == self.tip_spec(),
    {
        let (short, message, parent) = match store::commit_raw(self.repo, self.tip.as_str()) {
            Ok(t) => t,
            Err(e) => {
                return Err(e);
            },
        };
        let c = Commit::assemble(self.tip.clone(), &short, &message);
        Ok(CommitIterator { repo: self.repo, cur: Some((c, parent)) })
    }
}

/// Visits each decodable entry of a collected tree walk in order, stopping at
/// the first callback failure. On success every visible entry was visited and
/// accepted; on failure the callback produced exactly the returned error on
/// some visible entry, and every visible entry before it was accepted — none
/// after it was visited.
pub fn visit_entries<'a, F: Fn(File<'a>) -> Result<(), BrowseError>>(
    branch: &'a Branch<'a>,
    entries: &Vec<Entry>,
    cb: F,
) -> (r: Result<(), BrowseError>)
    requires
        forall|f: File<'a>| #[trigger] call_requires(cb, (f,)),
    ensures
        r matches Ok(u) ==> forall|k: int|
            0 <= k < entries@.len() && entry_visible(#[trigger] entries@[k]) ==> exists|f: File<'a>|
                f@ == entry_file_view(entries@[k]) && call_ensures(cb, (f,), Ok(())),
        r matches Err(e) ==> exists|k: int|
            0 <= k < entries@.len() && entry_visible(#[trigger] entries@[k]) && (exists|f: File<'a>|
                f@ == entry_file_view(entries@[k]) && call_ensures(cb, (f,), Err(e))) && (forall|
                j: int,
            |
                0 <= j < k && entry_visible(#[trigger] entries@[j]) ==> exists|g: File<'a>|
                    g@ == entry_file_view(entries@[j]) && call_ensures(cb, (g,), Ok(()))),
{
    let mut i: usize = 0;
    while i < entries.len()
        invariant
            i <= entries@.len(),
            forall|f: File<'a>| #[trigger] call_requires(cb, (f,)),
            forall|j: int|
                0 <= j < i && entry_visible(#[trigger] entries@[j]) ==> exists|g: File<'a>|
                    g@ == entry_file_view(entries@[j]) && call_ensures(cb, (g,), Ok(())),
        decreases entries@.len() - i,
    {
        let e = &entries[i];
        match &e.name {
            Some(n) => {
                let file = File::make(branch, e.prefix.clone(), n.clone(), e.kind, e.id.clone());
                let ghost gfile = file;
                let res = cb(file);
                proof {
                    assert(gfile@ == entry_file_view(entries@[i as int]));
                }
                match res {
                    Ok(u) => {
                        proof {
                            assert(call_ensures(cb, (gfile,), Ok::<(), BrowseError>(())));
                        }
                    },
                    Err(err) => {
                        proof {
                            assert(call_ensures(cb, (gfile,), Err::<(), BrowseError>(err)));
                        }
                        return Err(err);
                    },
                }
            },
            None => {},
        }
        i += 1;
    }
    Ok(())
}

/// A cursor over a branch's first-parent commit chain. Each step hands the
/// commit resolved so far back and pre-resolves its first parent; the cursor
/// is exhausted when no commit is left, and stays exhausted.
pub struct CommitIterator<'a> {
    pub(crate) repo: &'a git2::Repository,
    pub(crate) cur: Option<(Commit, Option<String>)>,
}

impl<'a> CommitIterator<'a> {
    /// The commit the cursor will yield next, if any.
    pub closed spec fn current(&self) -> Option<CommitView> {
        match self.cur {
            Some(p) => Some(p.0@),
            None => None,
        }
    }

    /// The pre-resolved first parent of the commit the cursor stands on:
    /// None either on an exhausted cursor or when that commit is a root.
    pub closed spec fn pending_parent(&self) -> Option<Seq<char>> {
        match self.cur {
            Some(p) => match p.1 {
                Some(s) => Some(s@),
                None => None,
            },
            None => None,
        }
    }

    /// Yields the commit the cursor stands on and advances to its first
    /// parent; None exactly when the cursor was exhausted, and an exhausted
    /// cursor stays exhausted. Yielding a root commit — one with no pending
    /// parent — exhausts the cursor; otherwise the next current commit, when
    /// its resolution succeeds, is exactly the pending parent. A parent that
    /// fails to resolve ends the chain.
    pub fn next(&mut self) -> (r: Option<Commit>)
        ensures
            r is None <==> old(self).current() is None,
            old(self).current() is None ==> final(self).current() is None,
            r matches Some(c) ==> c@ == old(self).current()->0,
            r is Some && old(self).pending_parent() is None ==> final(self).current() is None,
            final(self).current() matches Some(n) ==> old(self).pending_parent() matches Some(p)
                && n.full == p,
    {
        let cur = self.cur.take();
        match cur {
            None => None,
            Some((c, parent)) => {
                self.cur = match parent {
                    Some(p) => match store::commit_raw(self.repo, p.as_str()) {
                        Ok((short, message, grandparent)) => Some(
                            (Commit::assemble(p, &short, &message), grandparent),
                        ),
                        Err(_) => None,
                    },
                    None => None,
                };
                Some(c)
            },
        }
    }
}

} // verus!

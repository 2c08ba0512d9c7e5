//! A lazily-resolved reference to one entry (file or directory) of a branch's
//! tree snapshot, carrying enough path context to reconstruct its full path.

use vstd::prelude::*;
use vstd::string::StringExecFns;

use crate::branch::Branch;
use crate::history::{FileHistory, Step};
use crate::store;
use crate::BrowseError;

verus! {

/// The kind of a tree entry: a file, a directory, or anything else the store
/// can hold in a tree (a submodule commit, for instance).
#[derive(Clone, Copy, Debug, PartialEq, Eq, Structural)]
pub enum EntryKind {
    /// A blob: an ordinary file.
    Blob,
    /// A subtree: a directory.
    Tree,
    /// Any other object a tree can point at.
    Other,
}

/// One entry of a tree walk, as plain values: the walk's directory prefix
/// (ending in `'/'` when nonempty), the entry's own name (None when its bytes
/// are not valid text), its kind and its object id.
pub struct Entry {
    /// The containing directory prefix.
    pub prefix: String,
    /// The entry's own name.
    pub name: Option<String>,
    /// Blob, tree, or other.
    pub kind: EntryKind,
    /// Full hex object id.
    pub id: String,
}

/// A reference to one file or directory of a branch's tree snapshot.
pub struct File<'a> {
    pub(crate) branch: &'a Branch<'a>,
    pub(crate) prefix: String,
    pub(crate) name: String,
    pub(crate) kind: EntryKind,
    pub(crate) id: String,
}

/// The mathematical content of a [`File`].
pub ghost struct FileView {
    /// The containing directory prefix.
    pub prefix: Seq<char>,
    /// The entry's own name.
    pub name: Seq<char>,
    /// Blob, tree, or other.
    pub kind: EntryKind,
    /// Full hex object id.
    pub id: Seq<char>,
}

impl<'a> View for File<'a> {
    type V = FileView;

    closed spec fn view(&self) -> FileView {
        FileView { prefix: self.prefix@, name: self.name@, kind: self.kind, id: self.id@ }
    }
}

impl<'a> File<'a> {
    pub(crate) fn make(
        branch: &'a Branch<'a>,
        prefix: String,
        name: String,
        kind: EntryKind,
        id: String,
    ) -> (r: File<'a>)
        ensures
            r@ == (FileView { prefix: prefix@, name: name@, kind, id: id@ }),
    {
        File { branch, prefix, name, kind, id }
    }

    /// The full path of the entry in the repository: the directory prefix
    /// concatenated with the entry's own name.
    pub fn path(&self) -> (r: String)
        ensures
            r@ == self@.prefix + self@.name,
    {
        self.prefix.clone().concat(self.name.as_str())
    }

    /// The full hex object id of the entry.
    pub fn object_id(&self) -> (r: &str)
        ensures
            r@ == self@.id,
    {
        self.id.as_str()
    }

    /// True exactly when the entry is an ordinary file (a blob).
    pub fn is_file(&self) -> (r: bool)
        ensures
            r == (self@.kind is Blob),
    {
        match self.kind {
            EntryKind::Blob => true,
            _ => false,
        }
    }

    /// True exactly when the entry is a directory (a subtree).
    pub fn is_dir(&self) -> (r: bool)
        ensures
            r == (self@.kind is Tree),
    {
        match self.kind {
            EntryKind::Tree => true,
            _ => false,
        }
    }

    /// Reads the raw content of the file. Fails on an entry that is not an
    /// ordinary file (a directory has no content), and on a store failure.
    pub fn read_content(&self) -> (r: Result<Vec<u8>, BrowseError>)
        ensures
            r is Ok ==> self@.kind is Blob,
    {
        if !self.is_file() {
            return Err(BrowseError::Store("entry is not a file".to_owned()));
        }
        store::blob_content(self.branch.repo, self.id.as_str())
    }

    /// Reads the content of the file as text, decoding lossily: invalid byte
    /// sequences become replacement characters rather than failures.
    pub fn read_content_string(&self) -> (r: Result<String, BrowseError>)
        ensures
            r is Ok ==> self@.kind is Blob,
    {
        match self.read_content() {
            Ok(bytes) => Ok(store::lossy_string(&bytes)),
            Err(e) => Err(e),
        }
    }

    /// Returns a cursor over the commits that modified this file's path,
    /// newest first, seeded with the owning branch's captured tip. The cursor
    /// starts with nothing yielded and resolves the target equal to this
    /// file's full path.
    pub fn history(&self) -> (r: Result<FileHistory<'a>, BrowseError>)
        ensures
            r matches Ok(h) ==> h.wf() && h.pos() == 0 && h.yielded_ids() == Seq::<
                Seq<char>,
            >::empty() && h.steps_spec() == Seq::<Step>::empty() && h.target_spec()
                == self@.prefix + self@.name,
    {
        let target = self.path();
        let ids = match store::revwalk_ids(self.branch.repo, self.branch.tip.as_str()) {
            Ok(v) => v,
            Err(e) => {
                return Err(e);
            },
        };
        Ok(FileHistory::begin(self.branch.repo, target, ids))
    }
}

/// Kind exclusivity: a valid tree entry (a blob or a subtree) is a file or a
/// directory, never both and never neither.
pub proof fn law_kind_exclusive(f: &File)
    requires
        !(f@.kind is Other),
    ensures
        (f@.kind is Blob) != (f@.kind is Tree),
{
}

} // verus!

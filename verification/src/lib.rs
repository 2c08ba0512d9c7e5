//! Browse a git repository the way hosting sites present one: list branches
//! and tags, enumerate the files of a branch's latest snapshot, read a file's
//! content, and resolve the ordered set of commits that modified a file path.
//!
//! The object store itself (commits, trees, blobs, refs, diffs) is supplied by
//! the `git2` crate; this crate holds the browsing logic on top of it.

use vstd::prelude::*;

mod branch;
mod commit;
mod file;
mod history;
mod names;
mod repo;
mod store;

pub use branch::entry_file_view;
pub use branch::entry_visible;
pub use branch::opt_name_view;
pub use branch::visit_entries;
pub use branch::Branch;
pub use branch::CommitIterator;
pub use commit::Commit;
pub use commit::CommitView;
pub use file::Entry;
pub use file::EntryKind;
pub use file::File;
pub use file::FileView;
pub use file::law_kind_exclusive;
pub use history::distinct_ok_ids;
pub use history::distinct_steps;
pub use history::from_touched_step;
pub use history::step_resolved;
pub use history::FileHistory;
pub use history::lemma_matched_complete;
pub use history::lemma_matched_distinct;
pub use history::lemma_matched_sound;
pub use history::matched;
pub use history::matching_step;
pub use history::occurrences;
pub use history::ok_ids_between;
pub use history::step_ids;
pub use history::path_matches;
pub use history::touches;
pub use history::Step;
pub use names::lemma_tail_has_no_slash;
pub use names::split_at_last_slash;
pub use names::tail_after_last_slash;
pub use repo::name_projection;
pub use repo::pair_branches;
pub use repo::pair_tags;
pub use repo::paired_branches;
pub use repo::paired_tags;
pub use repo::Repo;
pub use store::hex_id;

verus! {

/// A branch or tag name paired with the commit identifier it points at.
pub struct NameWithId {
    /// The short name of the branch or tag.
    pub name: String,
    /// The full hex identifier of the commit the name points at.
    pub commit_id: String,
}

/// The ways a repository operation can fail.
#[derive(Clone, Debug)]
pub enum BrowseError {
    /// The requested branch, tag or path does not exist.
    NotFound,
    /// The underlying object store failed; carries its message.
    Store(String),
}

} // verus!

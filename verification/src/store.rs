//! The boundary with the object store. Every call into `git2` lives here,
//! behind small wrappers whose contracts state only what the store's own
//! source shows; identifiers cross the boundary as full hex strings.

use vstd::prelude::*;

use git2::{ObjectType, TreeWalkMode, TreeWalkResult};

use crate::file::{Entry, EntryKind};
use crate::BrowseError;

verus! {

#[verifier::external_type_specification]
#[verifier::external_body]
pub struct ExRepository(git2::Repository);

#[verifier::external_type_specification]
#[verifier::external_body]
pub struct ExGitError(git2::Error);

/// Relies on git2::Error::code and git2::Error::message: a NotFound code
/// becomes [`BrowseError::NotFound`], everything else [`BrowseError::Store`] with the
/// store's message.
#[verifier::external_body]
pub(crate) fn err_of(e: git2::Error) -> BrowseError {
    if e.code() == git2::ErrorCode::NotFound {
        BrowseError::NotFound
    } else {
        BrowseError::Store(e.message().to_owned())
    }
}

/// Relies on git2::Repository::open: opens the object store at `path`; fails
/// when no valid store exists there.
#[verifier::external_body]
pub(crate) fn repo_open(path: &str) -> Result<git2::Repository, BrowseError> {
    git2::Repository::open(path).map_err(err_of)
}

/// Relies on git2::Repository::find_branch for local branches and
/// git2::Reference::peel_to_commit: resolves a branch name to its tip commit
/// id and that commit's root tree id.
#[verifier::external_body]
pub(crate) fn branch_tip(repo: &git2::Repository, name: &str) -> Result<(String, String), BrowseError> {
    let b = repo.find_branch(name, git2::BranchType::Local).map_err(err_of)?;
    let c = b.get().peel_to_commit().map_err(err_of)?;
    Ok((c.id().to_string(), c.tree_id().to_string()))
}

/// Relies on git2::Repository::head, git2::Branch::wrap, git2::Branch::name
/// (None when the current position is not a decodable branch name) and
/// git2::Reference::peel_to_commit: resolves the store's current position.
#[verifier::external_body]
pub(crate) fn head_info(repo: &git2::Repository) -> Result<
    (Option<String>, String, String),
    BrowseError,
> {
    let b = git2::Branch::wrap(repo.head().map_err(err_of)?);
    let name = match b.name() {
        Ok(Some(n)) => Some(n.to_owned()),
        _ => None,
    };
    let c = b.get().peel_to_commit().map_err(err_of)?;
    Ok((name, c.id().to_string(), c.tree_id().to_string()))
}

/// An object id as the store's display writes it: a string of lowercase hex
/// digits.
pub open spec fn hex_id(s: Seq<char>) -> bool {
    forall|i: int|
        0 <= i < s.len() ==> (('0' <= #[trigger] s[i] && s[i] <= '9') || ('a' <= s[i] && s[i]
            <= 'f'))
}

/// Relies on git2::Repository::branches over local branches, git2::Branch::name
/// (None when the name is not valid text) and git2::Reference::target (None
/// when the ref is not direct): one pair per branch, in enumeration order.
/// Each present tip id is git2's Oid display: lowercase hex digits.
#[verifier::external_body]
pub(crate) fn branch_list(repo: &git2::Repository) -> (r: Result<
    Vec<(Option<String>, Option<String>)>,
    BrowseError,
>)
    ensures
        r matches Ok(v) ==> forall|k: int|
            0 <= k < v@.len() ==> ((#[trigger] v@[k]).1 matches Some(t) ==> hex_id(t@)),
{
    let mut v: Vec<(Option<String>, Option<String>)> = Vec::new();
    for b in repo.branches(Some(git2::BranchType::Local)).map_err(err_of)? {
        let (b, _) = b.map_err(err_of)?;
        let name = match b.name() {
            Ok(Some(n)) => Some(n.to_owned()),
            _ => None,
        };
        v.push((name, b.get().target().map(|o| o.to_string())));
    }
    Ok(v)
}

/// Relies on git2::Repository::tag_foreach: one pair per tag, in enumeration
/// order, carrying the full ref name (None when its bytes are not valid text)
/// and the id the tag points at, written as git2's Oid display: lowercase
/// hex digits.
#[verifier::external_body]
pub(crate) fn tag_list(repo: &git2::Repository) -> (r: Result<
    Vec<(Option<String>, String)>,
    BrowseError,
>)
    ensures
        r matches Ok(v) ==> forall|k: int| 0 <= k < v@.len() ==> hex_id((#[trigger] v@[k]).1@),
{
    let mut v: Vec<(Option<String>, String)> = Vec::new();
    repo.tag_foreach(|oid, raw| {
        v.push((std::str::from_utf8(raw).ok().map(|s| s.to_owned()), oid.to_string()));
        true
    }).map_err(err_of)?;
    Ok(v)
}

/// Relies on git2::Repository::find_tree and git2::Tree::walk in pre-order:
/// one element per visited entry, carrying the walk's directory prefix, the
/// entry's name (None when not valid text), its kind and its object id. Any
/// failure of the walk itself is a store fault, so it is always Store here.
#[verifier::external_body]
pub(crate) fn tree_entries(repo: &git2::Repository, tree: &str) -> (r: Result<Vec<Entry>, BrowseError>)
    ensures
        r matches Err(e) ==> e is Store,
{
    let fault = |e: git2::Error| BrowseError::Store(e.message().to_owned());
    let oid = git2::Oid::from_str(tree).map_err(fault)?;
    let t = repo.find_tree(oid).map_err(fault)?;
    let mut v: Vec<Entry> = Vec::new();
    t.walk(TreeWalkMode::PreOrder, |root, e| {
        let kind = match e.kind() {
            Some(ObjectType::Blob) => EntryKind::Blob,
            Some(ObjectType::Tree) => EntryKind::Tree,
            _ => EntryKind::Other,
        };
        v.push(Entry { prefix: root.to_owned(), name: e.name().ok().map(|s| s.to_owned()), kind, id: e.id().to_string() });
        TreeWalkResult::Ok
    }).map_err(fault)?;
    Ok(v)
}

/// Relies on git2::Repository::find_tree and git2::Tree::get_path: looks one
/// slash-separated path up in the tree; a missing path gives
/// [`BrowseError::NotFound`].
#[verifier::external_body]
pub(crate) fn tree_entry_by_path(repo: &git2::Repository, tree: &str, path: &str) -> Result<
    (EntryKind, String),
    BrowseError,
> {
    let oid = git2::Oid::from_str(tree).map_err(err_of)?;
    let t = repo.find_tree(oid).map_err(err_of)?;
    let e = t.get_path(std::path::Path::new(path)).map_err(err_of)?;
    let kind = match e.kind() {
        Some(ObjectType::Blob) => EntryKind::Blob,
        Some(ObjectType::Tree) => EntryKind::Tree,
        _ => EntryKind::Other,
    };
    Ok((kind, e.id().to_string()))
}

/// Relies on git2::Repository::find_object and git2::Object::peel_to_blob:
/// resolves an id to its blob and hands the raw bytes out; an id that does
/// not resolve to a blob fails.
#[verifier::external_body]
pub(crate) fn blob_content(repo: &git2::Repository, id: &str) -> Result<Vec<u8>, BrowseError> {
    let oid = git2::Oid::from_str(id).map_err(err_of)?;
    let o = repo.find_object(oid, None).map_err(err_of)?;
    Ok(o.peel_to_blob().map_err(err_of)?.content().to_vec())
}

/// Relies on git2::Repository::find_commit — a lookup by id — on
/// git2::Object::short_id and git2::Commit::message_raw_bytes for the raw
/// bytes of the abbreviated id and the message, and on
/// git2::Commit::parent_id for the first parent (None for a root commit).
#[verifier::external_body]
pub(crate) fn commit_raw(repo: &git2::Repository, id: &str) -> Result<
    (Vec<u8>, Vec<u8>, Option<String>),
    BrowseError,
> {
    let oid = git2::Oid::from_str(id).map_err(err_of)?;
    let c = repo.find_commit(oid).map_err(err_of)?;
    let buf = c.as_object().short_id().map_err(err_of)?;
    let short = buf.to_vec();
    let message = c.message_raw_bytes().to_vec();
    Ok((short, message, c.parent_id(0).ok().map(|o| o.to_string())))
}

/// Relies on git2::Repository::find_commit and git2::Commit::tree_id: the id
/// of the tree snapshot a commit points at.
#[verifier::external_body]
pub(crate) fn commit_tree_id(repo: &git2::Repository, id: &str) -> Result<String, BrowseError> {
    let oid = git2::Oid::from_str(id).map_err(err_of)?;
    Ok(repo.find_commit(oid).map_err(err_of)?.tree_id().to_string())
}

/// Relies on git2::Repository::diff_tree_to_tree — no old tree means the
/// empty tree — and on git2::DiffDelta::new_file: one element per changed
/// entry, carrying the new file's path (None when its bytes are not valid
/// text).
#[verifier::external_body]
pub(crate) fn diff_paths_between(
    repo: &git2::Repository,
    old_tree: Option<&String>,
    new_tree: &str,
) -> Result<Vec<Option<String>>, BrowseError> {
    let new_t = repo.find_tree(git2::Oid::from_str(new_tree).map_err(err_of)?).map_err(err_of)?;
    let old_t = match old_tree {
        Some(s) => Some(repo.find_tree(git2::Oid::from_str(s).map_err(err_of)?).map_err(err_of)?),
        None => None,
    };
    let diff = repo.diff_tree_to_tree(old_t.as_ref(), Some(&new_t), None).map_err(err_of)?;
    Ok(diff.deltas().map(|d| {
        d.new_file().path_bytes().and_then(|b| std::str::from_utf8(b).ok()).map(|s| s.to_owned())
    }).collect())
}

/// Relies on git2::Revwalk pushed at the tip and sorted by commit time: it
/// yields every ancestor reachable from the tip, newest first, each commit
/// visited exactly once — so the ids of its Ok elements are pairwise distinct.
#[verifier::external_body]
pub(crate) fn revwalk_ids(repo: &git2::Repository, tip: &str) -> (r: Result<
    Vec<Result<String, BrowseError>>,
    BrowseError,
>)
    ensures
        r matches Ok(ids) ==> forall|i: int, j: int|
            #![trigger ids@[i], ids@[j]]
            0 <= i < j < ids@.len() ==> (ids@[i] matches Ok(a) ==> (ids@[j] matches Ok(b)
                ==> a@ != b@)),
{
    let oid = git2::Oid::from_str(tip).map_err(err_of)?;
    let mut w = repo.revwalk().map_err(err_of)?;
    w.push(oid).map_err(err_of)?;
    w.set_sorting(git2::Sort::TIME).map_err(err_of)?;
    Ok(w.map(|r| r.map(|o| o.to_string()).map_err(err_of)).collect())
}

/// A name for what String::from_utf8_lossy returns: it depends on the bytes
/// alone.
pub uninterp spec fn lossy_decode(bytes: Seq<u8>) -> Seq<char>;

/// Relies on String::from_utf8_lossy: the result is a function of the bytes
/// alone, and valid UTF-8 bytes decode to exactly their own chars.
#[verifier::external_body]
pub(crate) fn lossy_string(bytes: &Vec<u8>) -> (r: String)
    ensures
        r@ == lossy_decode(bytes@),
        vstd::utf8::valid_utf8(bytes@) ==> r@ == vstd::utf8::decode_utf8(bytes@),
{
    String::from_utf8_lossy(bytes).into_owned()
}

} // verus!

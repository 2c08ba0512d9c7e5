//! The repository handle: opening a store, resolving branches, and listing
//! branches and tags.

use vstd::prelude::*;

use crate::branch::{opt_name_view, Branch};
use crate::names::{lemma_tail_has_no_slash, split_at_last_slash, tail_after_last_slash};
use crate::store;
use crate::store::hex_id;
use crate::{BrowseError, NameWithId};

verus! {

/// What branch listing keeps of the store's raw enumeration: the pairs whose
/// name was decodable and whose tip was a direct reference, in order.
pub open spec fn paired_branches(raw: Seq<(Option<String>, Option<String>)>) -> Seq<
    (Seq<char>, Seq<char>),
>
    decreases raw.len(),
{
    if raw.len() == 0 {
        Seq::empty()
    } else {
        let rest = paired_branches(raw.drop_last());
        let l = raw.last();
        if l.0 is Some && l.1 is Some {
            rest.push(((l.0->0)@, (l.1->0)@))
        } else {
            rest
        }
    }
}

/// What tag listing keeps of the store's raw enumeration: for every tag whose
/// ref name was decodable, the name stripped of everything up to and including
/// its last `'/'`, with the tag's commit id, in order.
pub open spec fn paired_tags(raw: Seq<(Option<String>, String)>) -> Seq<(Seq<char>, Seq<char>)>
    decreases raw.len(),
{
    if raw.len() == 0 {
        Seq::empty()
    } else {
        let rest = paired_tags(raw.drop_last());
        let l = raw.last();
        if l.0 is Some {
            rest.push((tail_after_last_slash((l.0->0)@), l.1@))
        } else {
            rest
        }
    }
}

/// Every id paired out of a branch enumeration whose present tips are hex
/// ids is itself a hex id.
proof fn lemma_paired_branches_hex(raw: Seq<(Option<String>, Option<String>)>)
    requires
        forall|j: int|
            0 <= j < raw.len() ==> ((#[trigger] raw[j]).1 matches Some(t) ==> hex_id(t@)),
    ensures
        forall|k: int|
            0 <= k < paired_branches(raw).len() ==> hex_id(
                (#[trigger] paired_branches(raw)[k]).1,
            ),
    decreases raw.len(),
{
    if raw.len() > 0 {
        let pre = raw.drop_last();
        assert(forall|j: int| 0 <= j < pre.len() ==> pre[j] == raw[j]);
        lemma_paired_branches_hex(pre);
        assert forall|k: int|
            0 <= k < paired_branches(raw).len() implies hex_id(
            (#[trigger] paired_branches(raw)[k]).1,
        ) by {
            if raw.last().0 is Some && raw.last().1 is Some && k == paired_branches(raw).len()
                - 1 {
                assert(raw[raw.len() - 1].1 matches Some(t) && hex_id(t@));
                assert(paired_branches(raw)[k].1 == (raw.last().1->0)@);
            } else {
                assert(paired_branches(raw)[k] == paired_branches(pre)[k]);
            }
        }
    }
}

/// Tags paired out of an enumeration with hex target ids carry slash-free
/// short names and hex ids.
proof fn lemma_paired_tags_props(raw: Seq<(Option<String>, String)>)
    requires
        forall|j: int| 0 <= j < raw.len() ==> hex_id((#[trigger] raw[j]).1@),
    ensures
        forall|k: int|
            0 <= k < paired_tags(raw).len() ==> hex_id((#[trigger] paired_tags(raw)[k]).1),
        forall|k: int, i: int|
            0 <= k < paired_tags(raw).len() && 0 <= i < paired_tags(raw)[k].0.len()
                ==> #[trigger] paired_tags(raw)[k].0[i] != '/',
    decreases raw.len(),
{
    if raw.len() > 0 {
        let pre = raw.drop_last();
        assert(forall|j: int| 0 <= j < pre.len() ==> pre[j] == raw[j]);
        lemma_paired_tags_props(pre);
        assert(raw[raw.len() - 1].1 == raw.last().1);
        lemma_tail_has_no_slash((raw.last().0->0)@);
        assert forall|k: int|
            0 <= k < paired_tags(raw).len() implies hex_id(
            (#[trigger] paired_tags(raw)[k]).1,
        ) by {
            if raw.last().0 is Some && k == paired_tags(raw).len() - 1 {
                assert(hex_id(raw[raw.len() - 1].1@));
                assert(paired_tags(raw)[k].1 == raw.last().1@);
            } else {
                assert(paired_tags(raw)[k] == paired_tags(pre)[k]);
            }
        }
        assert forall|k: int, i: int|
            0 <= k < paired_tags(raw).len() && 0 <= i < paired_tags(raw)[k].0.len() implies
            #[trigger] paired_tags(raw)[k].0[i] != '/' by {
            if raw.last().0 is Some && k == paired_tags(raw).len() - 1 {
                assert(paired_tags(raw)[k].0 == tail_after_last_slash((raw.last().0->0)@));
            } else {
                assert(paired_tags(raw)[k] == paired_tags(pre)[k]);
            }
        }
    }
}

/// Pairs raw branch enumeration entries into named results, skipping — not
/// failing on — branches whose name could not be decoded or whose tip could
/// not be resolved.
pub fn pair_branches(raw: &Vec<(Option<String>, Option<String>)>) -> (r: Vec<NameWithId>)
    ensures
        r@.len() == paired_branches(raw@).len(),
        forall|k: int|
            0 <= k < r@.len() ==> (#[trigger] r@[k]).name@ == paired_branches(raw@)[k].0
                && r@[k].commit_id@ == paired_branches(raw@)[k].1,
{
    let mut r: Vec<NameWithId> = Vec::new();
    let mut i: usize = 0;
    while i < raw.len()
        invariant
            i <= raw.len(),
            r@.len() == paired_branches(raw@.subrange(0, i as int)).len(),
            forall|k: int|
                0 <= k < r@.len() ==> (#[trigger] r@[k]).name@ == paired_branches(
                    raw@.subrange(0, i as int),
                )[k].0 && r@[k].commit_id@ == paired_branches(raw@.subrange(0, i as int))[k].1,
        decreases raw.len() - i,
    {
        proof {
            assert(raw@.subrange(0, i + 1).drop_last() =~= raw@.subrange(0, i as int));
            assert(raw@.subrange(0, i + 1).last() == raw@[i as int]);
        }
        let p = &raw[i];
        match (&p.0, &p.1) {
            (Some(name), Some(id)) => {
                r.push(NameWithId { name: name.clone(), commit_id: id.clone() });
            },
            _ => {},
        }
        i += 1;
    }
    proof {
        assert(raw@.subrange(0, raw@.len() as int) =~= raw@);
    }
    r
}

/// Pairs raw tag enumeration entries into named results: undecodable names
/// are skipped, kept names are stripped of their ref namespace prefix.
pub fn pair_tags(raw: &Vec<(Option<String>, String)>) -> (r: Vec<NameWithId>)
    ensures
        r@.len() == paired_tags(raw@).len(),
        forall|k: int|
            0 <= k < r@.len() ==> (#[trigger] r@[k]).name@ == paired_tags(raw@)[k].0
                && r@[k].commit_id@ == paired_tags(raw@)[k].1,
{
    let mut r: Vec<NameWithId> = Vec::new();
    let mut i: usize = 0;
    while i < raw.len()
        invariant
            i <= raw.len(),
            r@.len() == paired_tags(raw@.subrange(0, i as int)).len(),
            forall|k: int|
                0 <= k < r@.len() ==> (#[trigger] r@[k]).name@ == paired_tags(
                    raw@.subrange(0, i as int),
                )[k].0 && r@[k].commit_id@ == paired_tags(raw@.subrange(0, i as int))[k].1,
        decreases raw.len() - i,
    {
        proof {
            assert(raw@.subrange(0, i + 1).drop_last() =~= raw@.subrange(0, i as int));
            assert(raw@.subrange(0, i + 1).last() == raw@[i as int]);
        }
        let p = &raw[i];
        match &p.0 {
            Some(name) => {
                let (_ns, short) = split_at_last_slash(name.as_str());
                r.push(NameWithId { name: short, commit_id: p.1.clone() });
            },
            None => {},
        }
        i += 1;
    }
    proof {
        assert(raw@.subrange(0, raw@.len() as int) =~= raw@);
    }
    r
}

/// Projects a listing onto its names, keeping order.
pub fn name_projection(v: &Vec<NameWithId>) -> (r: Vec<String>)
    ensures
        r@.len() == v@.len(),
        forall|k: int| 0 <= k < v@.len() ==> (#[trigger] r@[k])@ == v@[k].name@,
{
    let mut r: Vec<String> = Vec::new();
    let mut i: usize = 0;
    while i < v.len()
        invariant
            i <= v.len(),
            r@.len() == i,
            forall|k: int| 0 <= k < i ==> (#[trigger] r@[k])@ == v@[k].name@,
        decreases v.len() - i,
    {
        r.push(v[i].name.clone());
        i += 1;
    }
    r
}

/// A handle to one opened repository; every other entity borrows it.
pub struct Repo {
    pub(crate) repo: git2::Repository,
}

impl Repo {
    /// Opens the repository at the given path.
    pub fn open(path: &str) -> Result<Repo, BrowseError> {
        Ok(Repo { repo: store::repo_open(path)? })
    }

    /// Browses the local branch with the given name; [`BrowseError::NotFound`]
    /// when no such branch exists. A view handed back carries that name.
    pub fn browse_branch<'a>(&'a self, branch: &str) -> (r: Result<Branch<'a>, BrowseError>)
        ensures
            r matches Ok(b) ==> b.name_spec() == Some(branch@),
    {
        let (tip, tree) = match store::branch_tip(&self.repo, branch) {
            Ok(p) => p,
            Err(e) => {
                return Err(e);
            },
        };
        Ok(Branch::make(&self.repo, Some(branch.to_owned()), tip, tree))
    }

    /// Resolves the store's current position. A position on a named branch
    /// gives a named view; a detached position gives a view without a name,
    /// which browses identically. On success the view is always present.
    pub fn current_branch(&self) -> (r: Result<Option<Branch<'_>>, BrowseError>)
        ensures
            r matches Ok(o) ==> o is Some,
    {
        let (name, tip, tree) = match store::head_info(&self.repo) {
            Ok(t) => t,
            Err(e) => {
                return Err(e);
            },
        };
        Ok(Some(Branch::make(&self.repo, name, tip, tree)))
    }

    /// Lists local branches, each name paired with its tip commit id — a
    /// string of lowercase hex digits. Branches whose name cannot be decoded
    /// or whose tip cannot be resolved are skipped, never failing the whole
    /// listing.
    pub fn list_branches_with_newest_commit_id(&self) -> (r: Result<Vec<NameWithId>, BrowseError>)
        ensures
            r matches Ok(v) ==> forall|k: int|
                0 <= k < v@.len() ==> hex_id((#[trigger] v@[k]).commit_id@),
    {
        let raw = match store::branch_list(&self.repo) {
            Ok(raw) => raw,
            Err(e) => {
                return Err(e);
            },
        };
        let v = pair_branches(&raw);
        proof {
            lemma_paired_branches_hex(raw@);
        }
        Ok(v)
    }

    /// Lists local branch names, in enumeration order.
    pub fn list_branches(&self) -> Result<Vec<String>, BrowseError> {
        match self.list_branches_with_newest_commit_id() {
            Ok(v) => Ok(name_projection(&v)),
            Err(e) => Err(e),
        }
    }

    /// Lists tags, each short name — the stored ref name stripped of
    /// everything up to and including its last `'/'`, so never holding a
    /// slash — paired with the commit id it points at, a string of lowercase
    /// hex digits. Tags whose name bytes are not valid text are skipped.
    pub fn list_tags_with_commit_id(&self) -> (r: Result<Vec<NameWithId>, BrowseError>)
        ensures
            r matches Ok(v) ==> forall|k: int|
                0 <= k < v@.len() ==> hex_id((#[trigger] v@[k]).commit_id@) && !v@[k].name@.contains(
                    '/',
                ),
    {
        let raw = match store::tag_list(&self.repo) {
            Ok(raw) => raw,
            Err(e) => {
                return Err(e);
            },
        };
        let v = pair_tags(&raw);
        proof {
            lemma_paired_tags_props(raw@);
            assert forall|k: int| 0 <= k < v@.len() implies !(#[trigger] v@[k]).name@.contains(
                '/',
            ) by {
                assert(v@[k].name@ == paired_tags(raw@)[k].0);
                assert forall|i: int| 0 <= i < v@[k].name@.len() implies #[trigger] v@[k].name@[i]
                    != '/' by {
                    assert(paired_tags(raw@)[k].0[i] != '/');
                }
            }
        }
        Ok(v)
    }

    /// Lists short tag names, in enumeration order; a listed name never holds
    /// a slash, the ref namespace having been stripped.
    pub fn list_tags(&self) -> (r: Result<Vec<String>, BrowseError>)
        ensures
            r matches Ok(v) ==> forall|k: int| 0 <= k < v@.len() ==> !(#[trigger] v@[k])@.contains(
                '/',
            ),
    {
        match self.list_tags_with_commit_id() {
            Ok(v) => {
                let names = name_projection(&v);
                proof {
                    assert forall|k: int|
                        0 <= k < names@.len() implies !(#[trigger] names@[k])@.contains('/') by {
                        assert(names@[k]@ == v@[k].name@);
                    }
                }
                Ok(names)
            },
            Err(e) => Err(e),
        }
    }
}

} // verus!

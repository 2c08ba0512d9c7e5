//! The history resolver: which ancestor commits of a branch tip changed one
//! file path, newest first.
//!
//! The resolver walks every reachable ancestor (not only the first-parent
//! chain), and for each one asks the store for the changed-entry paths of the
//! diff against its first parent (against the empty tree for a root commit).
//! An ancestor is yielded exactly when one of those paths equals the target
//! path byte for byte. The model of a finished or partial run is a sequence
//! of [`Step`]s — one per ancestor whose diff was resolved — and the yielded
//! commits are exactly [`matched`] of those steps.

use vstd::prelude::*;

use crate::commit::Commit;
use crate::store;
use crate::BrowseError;

verus! {

/// One resolved ancestor of a history walk: its full hex id, the changed
/// new-file paths of its diff against its first parent, and whether those
/// touched the target path.
pub ghost struct Step {
    /// The ancestor commit's full hex id.
    pub id: Seq<char>,
    /// The changed-entry new-file paths of the diff against the first parent.
    pub paths: Seq<Option<String>>,
    /// Whether some changed-entry path equals the target path.
    pub touched: bool,
}

/// The ids of a walk's steps, in step order.
pub open spec fn step_ids(walk: Seq<Step>) -> Seq<Seq<char>> {
    walk.map_values(|s: Step| s.id)
}

/// The ids a history walk yields: the ids of its touched steps, in step
/// order.
pub open spec fn matched(walk: Seq<Step>) -> Seq<Seq<char>>
    decreases walk.len(),
{
    if walk.len() == 0 {
        Seq::empty()
    } else if walk.last().touched {
        matched(walk.drop_last()).push(walk.last().id)
    } else {
        matched(walk.drop_last())
    }
}

/// Pairwise distinct step ids.
pub open spec fn distinct_steps(walk: Seq<Step>) -> bool {
    forall|a: int, b: int|
        #![trigger walk[a], walk[b]]
        0 <= a < b < walk.len() ==> walk[a].id != walk[b].id
}

/// How often `x` occurs in `s`.
pub open spec fn occurrences(s: Seq<Seq<char>>, x: Seq<char>) -> nat
    decreases s.len(),
{
    if s.len() == 0 {
        0
    } else {
        occurrences(s.drop_last(), x) + (if s.last() == x {
            1nat
        } else {
            0nat
        })
    }
}

/// Some step of `walk` carries the id `x` together with a recorded
/// changed-entry path list that contains `target` exactly.
pub open spec fn matching_step(walk: Seq<Step>, target: Seq<char>, x: Seq<char>) -> bool {
    exists|m: int|
        0 <= m < walk.len() && (#[trigger] walk[m]).id == x && path_matches(walk[m].paths, target)
}

/// Some touched step of `walk` carries the id `x`.
pub open spec fn from_touched_step(walk: Seq<Step>, x: Seq<char>) -> bool {
    exists|m: int| 0 <= m < walk.len() && (#[trigger] walk[m]).touched && walk[m].id == x
}

/// Every id yielded by a walk is the id of one of its touched steps.
pub proof fn lemma_matched_sound(walk: Seq<Step>)
    ensures
        forall|k: int|
            #![trigger matched(walk)[k]]
            0 <= k < matched(walk).len() ==> from_touched_step(walk, matched(walk)[k]),
    decreases walk.len(),
{
    if walk.len() > 0 {
        let pre = walk.drop_last();
        lemma_matched_sound(pre);
        assert forall|k: int| #![trigger matched(walk)[k]] 0 <= k < matched(walk).len() implies
            from_touched_step(walk, matched(walk)[k]) by {
            if walk.last().touched && k == matched(walk).len() - 1 {
                let m = walk.len() - 1;
                assert(walk[m].touched && walk[m].id == matched(walk)[k]);
            } else {
                assert(0 <= k < matched(pre).len());
                assert(matched(pre)[k] == matched(walk)[k]);
                let m = choose|m: int|
                    0 <= m < pre.len() && (#[trigger] pre[m]).touched && pre[m].id == matched(
                        pre,
                    )[k];
                assert(walk[m] == pre[m]);
                assert(walk[m].touched && walk[m].id == matched(walk)[k]);
            }
        }
    }
}

/// A walk with pairwise distinct step ids yields pairwise distinct ids.
pub proof fn lemma_matched_distinct(walk: Seq<Step>)
    requires
        distinct_steps(walk),
    ensures
        forall|i: int, j: int|
            #![trigger matched(walk)[i], matched(walk)[j]]
            0 <= i < j < matched(walk).len() ==> matched(walk)[i] != matched(walk)[j],
    decreases walk.len(),
{
    if walk.len() > 0 {
        let pre = walk.drop_last();
        assert(distinct_steps(pre)) by {
            assert(forall|a: int| 0 <= a < pre.len() ==> pre[a] == walk[a]);
        }
        lemma_matched_distinct(pre);
        lemma_matched_sound(pre);
        assert forall|i: int, j: int|
            0 <= i < j < matched(walk).len() implies matched(walk)[i] != matched(walk)[j] by {
            if walk.last().touched && j == matched(walk).len() - 1 {
                assert(matched(pre)[i] == matched(walk)[i]);
                assert(from_touched_step(pre, matched(pre)[i]));
                let m = choose|m: int|
                    0 <= m < pre.len() && (#[trigger] pre[m]).touched && pre[m].id == matched(
                        pre,
                    )[i];
                assert(walk[m].id == matched(walk)[i]);
                assert(walk[m].id != walk[walk.len() - 1].id);
            } else {
                assert(matched(walk)[i] == matched(pre)[i]);
                assert(matched(walk)[j] == matched(pre)[j]);
            }
        }
    }
}

/// `x` does not occur in a sequence none of whose elements is `x`.
proof fn lemma_occurrences_zero(s: Seq<Seq<char>>, x: Seq<char>)
    requires
        forall|k: int| 0 <= k < s.len() ==> (#[trigger] s[k]) != x,
    ensures
        occurrences(s, x) == 0,
    decreases s.len(),
{
    if s.len() > 0 {
        let pre = s.drop_last();
        assert(forall|k: int| 0 <= k < pre.len() ==> (#[trigger] pre[k]) == s[k]);
        lemma_occurrences_zero(pre, x);
    }
}

/// A walk with pairwise distinct step ids yields the id of each of its
/// touched steps exactly once.
pub proof fn lemma_matched_complete(walk: Seq<Step>, id: Seq<char>)
    requires
        distinct_steps(walk),
        from_touched_step(walk, id),
    ensures
        occurrences(matched(walk), id) == 1,
    decreases walk.len(),
{
    let m = choose|m: int| 0 <= m < walk.len() && (#[trigger] walk[m]).touched && walk[m].id == id;
    let pre = walk.drop_last();
    assert(distinct_steps(pre)) by {
        assert(forall|a: int| 0 <= a < pre.len() ==> pre[a] == walk[a]);
    }
    if m == walk.len() - 1 {
        lemma_matched_sound(pre);
        assert forall|k: int| 0 <= k < matched(pre).len() implies (#[trigger] matched(pre)[k])
            != id by {
            assert(from_touched_step(pre, matched(pre)[k]));
            let n = choose|n: int|
                0 <= n < pre.len() && (#[trigger] pre[n]).touched && pre[n].id == matched(pre)[k];
            assert(walk[n].id != walk[m].id);
        }
        lemma_occurrences_zero(matched(pre), id);
        assert(matched(walk) == matched(pre).push(id));
        assert(matched(walk).drop_last() =~= matched(pre));
    } else {
        assert(pre[m].touched && pre[m].id == id);
        assert(from_touched_step(pre, id));
        lemma_matched_complete(pre, id);
        if walk.last().touched {
            assert(walk[m].id != walk[walk.len() - 1].id);
            assert(matched(walk) == matched(pre).push(walk.last().id));
            assert(matched(walk).drop_last() =~= matched(pre));
            assert(matched(walk).last() != id);
        } else {
            assert(matched(walk) == matched(pre));
        }
    }
}

/// Whether some changed-entry path equals the target path exactly — byte for
/// byte, never a prefix or suffix match. Undecodable paths never match a
/// target.
pub open spec fn path_matches(paths: Seq<Option<String>>, target: Seq<char>) -> bool {
    exists|i: int|
        0 <= i < paths.len() && ((#[trigger] paths[i]) matches Some(s) && s@ == target)
}

/// Decides whether a diff's changed-entry paths contain the target path,
/// by exact comparison.
pub fn touches(paths: &Vec<Option<String>>, target: &String) -> (r: bool)
    ensures
        r == path_matches(paths@, target@),
{
    let mut i: usize = 0;
    while i < paths.len()
        invariant
            i <= paths@.len(),
            !path_matches(paths@.subrange(0, i as int), target@),
        decreases paths@.len() - i,
    {
        match &paths[i] {
            Some(s) => {
                if s.eq(target) {
                    proof {
                        assert(paths@[i as int] matches Some(t) && t@ == target@);
                    }
                    return true;
                }
            },
            None => {},
        }
        proof {
            assert forall|k: int| 0 <= k < i + 1 implies !((#[trigger] paths@.subrange(
                0,
                i + 1,
            )[k]) matches Some(s) && s@ == target@) by {
                assert(paths@.subrange(0, i + 1)[k] == paths@[k]);
                if k < i {
                    assert(paths@.subrange(0, i as int)[k] == paths@[k]);
                }
            }
        }
        i += 1;
    }
    proof {
        assert(paths@.subrange(0, paths@.len() as int) =~= paths@);
    }
    false
}

/// Pairwise distinct ids among the Ok elements of an ancestor walk.
pub open spec fn distinct_ok_ids(ids: Seq<Result<String, BrowseError>>) -> bool {
    forall|i: int, j: int|
        #![trigger ids[i], ids[j]]
        0 <= i < j < ids.len() ==> (ids[i] matches Ok(a) ==> (ids[j] matches Ok(b) ==> a@ != b@))
}

/// The id `id` is the id of an Ok walk element before position `upto`.
pub open spec fn step_resolved(
    ids: Seq<Result<String, BrowseError>>,
    upto: int,
    id: Seq<char>,
) -> bool {
    exists|j: int| 0 <= j < upto && ((#[trigger] ids[j]) matches Ok(s) && s@ == id)
}

/// The ids of the Ok elements of `ids` between positions `lo` and `hi`, in
/// order.
pub open spec fn ok_ids_between(
    ids: Seq<Result<String, BrowseError>>,
    lo: int,
    hi: int,
) -> Seq<Seq<char>>
    decreases hi - lo,
{
    if lo >= hi {
        Seq::empty()
    } else {
        match ids[hi - 1] {
            Ok(s) => ok_ids_between(ids, lo, hi - 1).push(s@),
            Err(_) => ok_ids_between(ids, lo, hi - 1),
        }
    }
}

/// Extending a walk by one step appends that step's id to the walk's ids.
proof fn lemma_step_ids_push(walk: Seq<Step>, st: Step)
    ensures
        step_ids(walk.push(st)) == step_ids(walk).push(st.id),
{
    assert(step_ids(walk.push(st)) =~= step_ids(walk).push(st.id));
}

/// A sequence is a prefix of itself extended by one element.
proof fn lemma_push_prefix<T>(s: Seq<T>, x: T)
    ensures
        s.is_prefix_of(s.push(x)),
{
    assert(s =~= s.push(x).subrange(0, s.len() as int));
}

/// A lazy cursor over the commits that changed one file path, newest first.
///
/// The ancestor walk is fixed when the cursor is made; each pull resolves
/// ancestors until one matches, fails, or the walk is exhausted. A failure
/// while resolving one ancestor is yielded in place of a commit and the walk
/// goes on past it; an exhausted cursor stays exhausted.
pub struct FileHistory<'a> {
    pub(crate) repo: &'a git2::Repository,
    pub(crate) target: String,
    pub(crate) ids: Vec<Result<String, BrowseError>>,
    pub(crate) idx: usize,
    pub(crate) steps: Ghost<Seq<Step>>,
    pub(crate) yielded: Ghost<Seq<Seq<char>>>,
}

impl<'a> FileHistory<'a> {
    /// The path whose history the cursor resolves.
    pub closed spec fn target_spec(&self) -> Seq<char> {
        self.target@
    }

    /// The model of the walk so far: one step per ancestor whose diff was
    /// resolved, in walk order.
    pub closed spec fn steps_spec(&self) -> Seq<Step> {
        self.steps@
    }

    /// The full ids of the commits yielded so far, in yield order.
    pub closed spec fn yielded_ids(&self) -> Seq<Seq<char>> {
        self.yielded@
    }

    /// No ancestor of the walk is left to resolve.
    pub closed spec fn exhausted(&self) -> bool {
        self.idx == self.ids@.len()
    }

    /// The fixed ancestor walk the cursor resolves, newest first: the Ok
    /// elements carry ancestor ids, the Err elements the walk's own faults.
    pub closed spec fn walk_spec(&self) -> Seq<Result<String, BrowseError>> {
        self.ids@
    }

    /// How many walk elements the cursor has consumed.
    pub closed spec fn pos(&self) -> int {
        self.idx as int
    }

    /// The cursor's invariant: the yielded ids are exactly [`matched`] of the
    /// steps, and the steps carry pairwise distinct ids of already-resolved
    /// ancestors.
    pub closed spec fn wf(&self) -> bool {
        &&& self.idx <= self.ids@.len()
        &&& distinct_ok_ids(self.ids@)
        &&& self.yielded@ == matched(self.steps@)
        &&& distinct_steps(self.steps@)
        &&& forall|k: int|
            #![trigger self.steps@[k]]
            0 <= k < self.steps@.len() ==> step_resolved(
                self.ids@,
                self.idx as int,
                self.steps@[k].id,
            )
        &&& forall|k: int|
            #![trigger self.steps@[k]]
            0 <= k < self.steps@.len() ==> self.steps@[k].touched == path_matches(
                self.steps@[k].paths,
                self.target@,
            )
    }

    /// Every id the cursor has yielded is distinct from every other: no
    /// commit is yielded twice.
    pub proof fn law_no_commit_twice(&self)
        requires
            self.wf(),
        ensures
            forall|i: int, j: int|
                #![trigger self.yielded_ids()[i], self.yielded_ids()[j]]
                0 <= i < j < self.yielded_ids().len() ==> self.yielded_ids()[i]
                    != self.yielded_ids()[j],
    {
        lemma_matched_distinct(self.steps@);
    }

    /// Every id the cursor has yielded came from a resolved ancestor whose
    /// first-parent diff touched the target path.
    pub proof fn law_history_sound(&self)
        requires
            self.wf(),
        ensures
            forall|k: int|
                #![trigger self.yielded_ids()[k]]
                0 <= k < self.yielded_ids().len() ==> from_touched_step(
                    self.steps_spec(),
                    self.yielded_ids()[k],
                ),
    {
        lemma_matched_sound(self.steps@);
    }

    /// Every id the cursor has yielded came from a resolved ancestor whose
    /// recorded changed-entry paths contain the target path exactly.
    pub proof fn law_yield_has_matching_diff(&self)
        requires
            self.wf(),
        ensures
            forall|k: int|
                #![trigger self.yielded_ids()[k]]
                0 <= k < self.yielded_ids().len() ==> matching_step(
                    self.steps_spec(),
                    self.target_spec(),
                    self.yielded_ids()[k],
                ),
    {
        lemma_matched_sound(self.steps@);
        assert forall|k: int| #![trigger self.yielded_ids()[k]] 0 <= k
            < self.yielded_ids().len() implies matching_step(
            self.steps_spec(),
            self.target_spec(),
            self.yielded_ids()[k],
        ) by {
            assert(from_touched_step(self.steps@, self.yielded@[k]));
            let m = choose|m: int|
                0 <= m < self.steps@.len() && (#[trigger] self.steps@[m]).touched
                    && self.steps@[m].id == self.yielded@[k];
            assert(self.steps@[m].touched == path_matches(self.steps@[m].paths, self.target@));
        }
    }

    /// Every resolved ancestor whose first-parent diff touched the target
    /// path was yielded, exactly once.
    pub proof fn law_history_complete(&self, id: Seq<char>)
        requires
            self.wf(),
            from_touched_step(self.steps_spec(), id),
        ensures
            occurrences(self.yielded_ids(), id) == 1,
    {
        lemma_matched_complete(self.steps@, id);
    }

    pub(crate) fn begin(
        repo: &'a git2::Repository,
        target: String,
        ids: Vec<Result<String, BrowseError>>,
    ) -> (r: FileHistory<'a>)
        requires
            distinct_ok_ids(ids@),
        ensures
            r.wf(),
            r.target_spec() == target@,
            r.walk_spec() == ids@,
            r.pos() == 0,
            r.yielded_ids() == Seq::<Seq<char>>::empty(),
            r.steps_spec() == Seq::<Step>::empty(),
    {
        FileHistory { repo, target, ids, idx: 0, steps: Ghost(Seq::empty()), yielded: Ghost(
            Seq::empty(),
        ) }
    }

    /// Pulls the next element: the next matching commit, an error in place
    /// of an ancestor that failed to resolve, or None once the walk is
    /// exhausted. Every pull that returns Some consumes at least one walk
    /// element; one that yields a commit records a step for each Ok id it
    /// consumed, the last of them touched; one that yields an error records a
    /// step for each Ok id before the failing element, so one unreadable
    /// ancestor hides no history before or after it; None means every
    /// remaining Ok id was resolved into a step and none touched. An
    /// exhausted cursor always answers None again.
    pub fn next(&mut self) -> (r: Option<Result<Commit, BrowseError>>)
        requires
            old(self).wf(),
        ensures
            final(self).wf(),
            final(self).target_spec() == old(self).target_spec(),
            final(self).walk_spec() == old(self).walk_spec(),
            old(self).pos() <= final(self).pos() <= final(self).walk_spec().len(),
            final(self).exhausted() == (final(self).pos() == final(self).walk_spec().len()),
            old(self).exhausted() ==> r is None,
            r is Some ==> old(self).pos() < final(self).pos(),
            r is None ==> final(self).exhausted() && final(self).yielded_ids()
                == old(self).yielded_ids() && step_ids(final(self).steps_spec())
                == step_ids(old(self).steps_spec()) + ok_ids_between(
                old(self).walk_spec(),
                old(self).pos(),
                old(self).walk_spec().len() as int,
            ),
            old(self).yielded_ids().is_prefix_of(final(self).yielded_ids()),
            old(self).steps_spec().is_prefix_of(final(self).steps_spec()),
            r matches Some(q) ==> (q matches Ok(c) ==> final(self).yielded_ids()
                == old(self).yielded_ids().push(c@.full) && !old(self).yielded_ids().contains(
                c@.full,
            ) && final(self).steps_spec().len() > 0 && final(self).steps_spec().last().id
                == c@.full && final(self).steps_spec().last().touched && step_ids(
                final(self).steps_spec(),
            ) == step_ids(old(self).steps_spec()) + ok_ids_between(
                old(self).walk_spec(),
                old(self).pos(),
                final(self).pos(),
            )),
            r matches Some(q) ==> (q matches Err(e) ==> final(self).yielded_ids()
                == old(self).yielded_ids() && step_ids(final(self).steps_spec()) == step_ids(
                old(self).steps_spec(),
            ) + ok_ids_between(
                old(self).walk_spec(),
                old(self).pos(),
                final(self).pos() - 1,
            )),
    {
        proof {
            assert(step_ids(self.steps@) =~= step_ids(old(self).steps@) + ok_ids_between(
                self.ids@,
                old(self).idx as int,
                self.idx as int,
            ));
        }
        while self.idx < self.ids.len()
            invariant
                self.wf(),
                self.repo == old(self).repo,
                self.target@ == old(self).target@,
                self.ids@ == old(self).ids@,
                old(self).idx <= self.idx,
                self.yielded@ == old(self).yielded@,
                old(self).steps@.is_prefix_of(self.steps@),
                step_ids(self.steps@) == step_ids(old(self).steps@) + ok_ids_between(
                    self.ids@,
                    old(self).idx as int,
                    self.idx as int,
                ),
            decreases self.ids@.len() - self.idx,
        {
            let i = self.idx;
            self.idx = i + 1;
            let cur: Result<String, BrowseError> = match &self.ids[i] {
                Ok(s) => Ok(s.clone()),
                Err(e) => Err(e.clone()),
            };
            match cur {
                Err(e) => {
                    proof {
                        assert(ok_ids_between(self.ids@, old(self).idx as int, i as int)
                            == ok_ids_between(self.ids@, old(self).idx as int, i + 1));
                    }
                    return Some(Err(e));
                },
                Ok(id) => {
                    let (short, message, parent) = match store::commit_raw(
                        self.repo,
                        id.as_str(),
                    ) {
                        Ok(t) => t,
                        Err(e) => {
                            return Some(Err(e));
                        },
                    };
                    let tree = match store::commit_tree_id(self.repo, id.as_str()) {
                        Ok(t) => t,
                        Err(e) => {
                            return Some(Err(e));
                        },
                    };
                    let old_tree = match &parent {
                        Some(p) => match store::commit_tree_id(self.repo, p.as_str()) {
                            Ok(t) => Some(t),
                            Err(e) => {
                                return Some(Err(e));
                            },
                        },
                        None => None,
                    };
                    let paths = match store::diff_paths_between(
                        self.repo,
                        old_tree.as_ref(),
                        tree.as_str(),
                    ) {
                        Ok(p) => p,
                        Err(e) => {
                            return Some(Err(e));
                        },
                    };
                    let m = touches(&paths, &self.target);
                    let ghost step = Step { id: id@, paths: paths@, touched: m };
                    proof {
                        assert(self.ids@[i as int] matches Ok(s) && s@ == id@);
                        assert(ok_ids_between(self.ids@, old(self).idx as int, i + 1)
                            == ok_ids_between(self.ids@, old(self).idx as int, i as int).push(
                            id@,
                        ));
                        assert forall|k: int|
                            0 <= k < self.steps@.len() implies (#[trigger] self.steps@[k]).id
                            != id@ by {
                            assert(step_resolved(self.ids@, i as int, self.steps@[k].id));
                            let j = choose|j: int|
                                0 <= j < i && ((#[trigger] self.ids@[j]) matches Ok(s) && s@
                                    == self.steps@[k].id);
                        }
                    }
                    if m {
                        let c = Commit::assemble(id.clone(), &short, &message);
                        proof {
                            lemma_matched_sound(self.steps@);
                            assert forall|k: int|
                                0 <= k < matched(self.steps@).len() implies (#[trigger] matched(
                                self.steps@,
                            )[k]) != id@ by {
                                assert(from_touched_step(self.steps@, matched(self.steps@)[k]));
                                let n = choose|n: int|
                                    0 <= n < self.steps@.len() && (#[trigger] self.steps@[n]).touched
                                        && self.steps@[n].id == matched(self.steps@)[k];
                                assert(self.steps@[n].id != id@);
                            }
                            assert(!matched(self.steps@).contains(id@));
                        }
                        let ghost oldsteps = self.steps@;
                        let ghost oldyielded = self.yielded@;
                        self.steps = Ghost(self.steps@.push(step));
                        self.yielded = Ghost(self.yielded@.push(id@));
                        proof {
                            lemma_push_prefix(oldsteps, step);
                            lemma_push_prefix(oldyielded, id@);
                            lemma_step_ids_push(oldsteps, step);
                            assert(self.steps@.drop_last() =~= oldsteps);
                            assert(self.steps@.last() == step);
                            assert(matched(self.steps@) == matched(oldsteps).push(id@));
                            assert(forall|k: int|
                                0 <= k < oldsteps.len() ==> (#[trigger] self.steps@[k])
                                    == oldsteps[k]);
                            assert(step_resolved(self.ids@, self.idx as int, id@));
                            assert(step_ids(self.steps@) =~= step_ids(old(self).steps@)
                                + ok_ids_between(self.ids@, old(self).idx as int, i + 1));
                            assert(c@.full == id@);
                        }
                        return Some(Ok(c));
                    } else {
                        let ghost oldsteps = self.steps@;
                        self.steps = Ghost(self.steps@.push(step));
                        proof {
                            lemma_push_prefix(oldsteps, step);
                            lemma_step_ids_push(oldsteps, step);
                            assert(self.steps@.drop_last() =~= oldsteps);
                            assert(self.steps@.last() == step);
                            assert(matched(self.steps@) == matched(oldsteps));
                            assert(forall|k: int|
                                0 <= k < oldsteps.len() ==> (#[trigger] self.steps@[k])
                                    == oldsteps[k]);
                            assert(step_resolved(self.ids@, self.idx as int, id@));
                            assert(step_ids(self.steps@) =~= step_ids(old(self).steps@)
                                + ok_ids_between(self.ids@, old(self).idx as int, i + 1));
                            assert(old(self).steps@.is_prefix_of(self.steps@));
                        }
                    }
                },
            }
        }
        None
    }
}

} // verus!

//! Which snapshot domains a change under the Git directory makes stale.
use vstd::prelude::*;

use crate::plan::{covers, plan_of_domains, DomainSet, RefreshDomain, RefreshPlan};
use crate::plan::RefreshDomain::{
    Branches, Head, Identity, Operation, Paths, Remotes, Stashes, Submodules, Tags, Upstream,
    Worktrees,
};
use crate::text::{has_prefix, has_suffix, starts_with, str_eq, strip_suffix};

verus! {

/// Paths written while a merge, rebase, cherry-pick, revert, bisect or
/// sequencer run is in progress.
pub open spec fn operation_text(t: Seq<char>) -> bool {
    ||| t == "MERGE_HEAD"@
    ||| t == "REBASE_HEAD"@
    ||| t == "CHERRY_PICK_HEAD"@
    ||| t == "REVERT_HEAD"@
    ||| t == "BISECT_LOG"@
    ||| t == "BISECT_ANCESTORS_OK"@
    ||| t == "BISECT_EXPECTED_REV"@
    ||| t == "BISECT_HEAD"@
    ||| t == "BISECT_NAMES"@
    ||| t == "BISECT_START"@
    ||| t == "BISECT_TERMS"@
    ||| t == "MERGE_MODE"@
    ||| t == "MERGE_MSG"@
    ||| t == "rebase-merge"@
    ||| t == "rebase-apply"@
    ||| t == "sequencer"@
    ||| has_prefix(t, "sequencer/"@)
    ||| has_prefix(t, "rebase-merge/"@)
    ||| has_prefix(t, "rebase-apply/"@)
    ||| has_prefix(t, "refs/bisect/"@)
}

/// Whether `path` (relative to the Git directory) belongs to an in-progress operation.
pub fn is_operation_path(path: &str) -> (r: bool)
    ensures
        r == operation_text(path@),
{
    str_eq(path, "MERGE_HEAD") || str_eq(path, "REBASE_HEAD") || str_eq(path, "CHERRY_PICK_HEAD")
        || str_eq(path, "REVERT_HEAD") || str_eq(path, "BISECT_LOG") || str_eq(
        path,
        "BISECT_ANCESTORS_OK",
    ) || str_eq(path, "BISECT_EXPECTED_REV") || str_eq(path, "BISECT_HEAD") || str_eq(
        path,
        "BISECT_NAMES",
    ) || str_eq(path, "BISECT_START") || str_eq(path, "BISECT_TERMS") || str_eq(
        path,
        "MERGE_MODE",
    ) || str_eq(path, "MERGE_MSG") || str_eq(path, "rebase-merge") || str_eq(
        path,
        "rebase-apply",
    ) || str_eq(path, "sequencer") || starts_with(path, "sequencer/") || starts_with(
        path,
        "rebase-merge/",
    ) || starts_with(path, "rebase-apply/") || starts_with(path, "refs/bisect/")
}

/// What a path under the Git directory stands for, with respect to lock files.
#[derive(Debug, Clone, PartialEq, Eq)]
pub enum LockTarget {
    /// A lock file for a file whose change is modelled; the text of that file.
    Known(String),
    /// A lock file for a file that no snapshot domain reads.
    Unmodeled,
    /// Not a lock file.
    NotLock,
}

/// The lock targets whose changes matter.
pub open spec fn modeled_lock_target(t: Seq<char>) -> bool {
    ||| t == "HEAD"@
    ||| t == "ORIG_HEAD"@
    ||| t == "index"@
    ||| t == "config"@
    ||| t == "config.worktree"@
    ||| t == "info/sparse-checkout"@
    ||| has_prefix(t, "index."@)
    ||| has_prefix(t, "refs/"@)
    ||| has_prefix(t, "worktrees/"@)
    ||| operation_text(t)
}

/// The text that a path under the Git directory is classified as: the lock
/// target for a lock of a modelled file, the path itself when it is no lock,
/// and nothing for other locks.
pub open spec fn lock_resolved(t: Seq<char>) -> Option<Seq<char>> {
    if !has_suffix(t, ".lock"@) {
        Some(t)
    } else if modeled_lock_target(t.subrange(0, t.len() - 5)) {
        Some(t.subrange(0, t.len() - 5))
    } else {
        None
    }
}

/// Classifies a path under the Git directory as a lock file or not.
pub fn lock_target_for_git_path(path: &str) -> (r: LockTarget)
    ensures
        match r {
            LockTarget::NotLock => !has_suffix(path@, ".lock"@),
            LockTarget::Unmodeled => has_suffix(path@, ".lock"@) && lock_resolved(path@) is None,
            LockTarget::Known(t) => has_suffix(path@, ".lock"@) && lock_resolved(path@) == Some(t@),
        },
{
    proof {
        reveal_strlit(".lock");
    }
    let target = match strip_suffix(path, ".lock") {
        Some(t) => t,
        None => return LockTarget::NotLock,
    };
    let t = target.as_str();
    if str_eq(t, "HEAD") || str_eq(t, "ORIG_HEAD") || str_eq(t, "index") || str_eq(t, "config")
        || str_eq(t, "config.worktree") || str_eq(t, "info/sparse-checkout") || starts_with(
        t,
        "index.",
    ) || starts_with(t, "refs/") || starts_with(t, "worktrees/") || is_operation_path(t) {
        return LockTarget::Known(target);
    }
    LockTarget::Unmodeled
}

pub open spec fn pd1(a: RefreshDomain) -> RefreshPlan {
    plan_of_domains(seq![a])
}

pub open spec fn pd2(a: RefreshDomain, b: RefreshDomain) -> RefreshPlan {
    plan_of_domains(seq![a, b])
}

pub open spec fn pd3(a: RefreshDomain, b: RefreshDomain, c: RefreshDomain) -> RefreshPlan {
    plan_of_domains(seq![a, b, c])
}

pub open spec fn pd4(a: RefreshDomain, b: RefreshDomain, c: RefreshDomain, d: RefreshDomain) -> RefreshPlan {
    plan_of_domains(seq![a, b, c, d])
}

pub open spec fn pd5(
    a: RefreshDomain,
    b: RefreshDomain,
    c: RefreshDomain,
    d: RefreshDomain,
    e: RefreshDomain,
) -> RefreshPlan {
    plan_of_domains(seq![a, b, c, d, e])
}

/// The plan for a change to the file `t` (relative to the Git directory, lock
/// files already resolved). `current_branch` tells whether `t` names the ref of
/// the checked-out branch.
pub open spec fn git_text_plan(t: Seq<char>, current_branch: bool) -> RefreshPlan {
    if t == "index"@ || has_prefix(t, "index."@) || t == "info/exclude"@ || t
        == "info/sparse-checkout"@ || t == "config.worktree"@ {
        pd1(Paths)
    } else if has_prefix(t, "objects/"@) {
        RefreshPlan::Nothing
    } else if t == "modules"@ || has_prefix(t, "modules/"@) {
        pd2(Paths, Submodules)
    } else if has_prefix(t, "rr-cache/"@) {
        RefreshPlan::Nothing
    } else if t == "COMMIT_EDITMSG"@ || t == "AUTO_MERGE"@ || t == "MERGE_RR"@ {
        RefreshPlan::Nothing
    } else if t == "HEAD"@ || t == "ORIG_HEAD"@ {
        pd4(Head, Upstream, Branches, Paths)
    } else if t == "shallow"@ {
        pd4(Identity, Head, Upstream, Branches)
    } else if t == "refs/heads"@ {
        pd3(Head, Upstream, Branches)
    } else if t == "refs/bisect"@ {
        pd5(Operation, Head, Upstream, Branches, Paths)
    } else if has_prefix(t, "refs/heads/"@) {
        if current_branch {
            pd4(Head, Upstream, Branches, Paths)
        } else {
            pd3(Head, Upstream, Branches)
        }
    } else if t == "refs/remotes"@ || has_prefix(t, "refs/remotes/"@) || t == "FETCH_HEAD"@ {
        pd3(Upstream, Branches, Remotes)
    } else if t == "refs/tags"@ || has_prefix(t, "refs/tags/"@) {
        pd1(Tags)
    } else if t == "packed-refs"@ || t == "packed-refs.new"@ {
        pd4(Head, Upstream, Branches, Tags)
    } else if t == "config"@ {
        pd4(Remotes, Upstream, Branches, Paths)
    } else if t == "logs/refs/stash"@ || t == "refs/stash"@ {
        pd5(Head, Upstream, Branches, Paths, Stashes)
    } else if has_prefix(t, "logs/"@) {
        RefreshPlan::Nothing
    } else if t == "worktrees"@ || has_prefix(t, "worktrees/"@) || t == "commondir"@ || t
        == "gitdir"@ {
        pd4(Identity, Upstream, Branches, Worktrees)
    } else if operation_text(t) {
        pd5(Operation, Head, Upstream, Branches, Paths)
    } else {
        RefreshPlan::Full
    }
}

/// The plan for a change to `path`, a path relative to the Git directory.
pub open spec fn git_path_plan(path: Seq<char>, current_branch: bool) -> RefreshPlan {
    match lock_resolved(path) {
        None => RefreshPlan::Nothing,
        Some(t) => git_text_plan(t, current_branch),
    }
}

fn plan1(a: RefreshDomain) -> (r: RefreshPlan)
    ensures
        r == pd1(a),
{
    let r = RefreshPlan::domains([a]);
    assert([a]@ =~= seq![a]);
    r
}

fn plan2(a: RefreshDomain, b: RefreshDomain) -> (r: RefreshPlan)
    ensures
        r == pd2(a, b),
{
    let r = RefreshPlan::domains([a, b]);
    assert([a, b]@ =~= seq![a, b]);
    r
}

fn plan3(a: RefreshDomain, b: RefreshDomain, c: RefreshDomain) -> (r: RefreshPlan)
    ensures
        r == pd3(a, b, c),
{
    let r = RefreshPlan::domains([a, b, c]);
    assert([a, b, c]@ =~= seq![a, b, c]);
    r
}

fn plan4(a: RefreshDomain, b: RefreshDomain, c: RefreshDomain, d: RefreshDomain) -> (r: RefreshPlan)
    ensures
        r == pd4(a, b, c, d),
{
    let r = RefreshPlan::domains([a, b, c, d]);
    assert([a, b, c, d]@ =~= seq![a, b, c, d]);
    r
}

fn plan5(a: RefreshDomain, b: RefreshDomain, c: RefreshDomain, d: RefreshDomain, e: RefreshDomain) -> (r: RefreshPlan)
    ensures
        r == pd5(a, b, c, d, e),
{
    let r = RefreshPlan::domains([a, b, c, d, e]);
    assert([a, b, c, d, e]@ =~= seq![a, b, c, d, e]);
    r
}

/// The plan for a change to the file `text` under the Git directory, lock
/// files already resolved. `current_branch` tells whether `text` is the ref of
/// the checked-out branch.
pub fn plan_for_git_text(text: &str, current_branch: bool) -> (r: RefreshPlan)
    ensures
        r == git_text_plan(text@, current_branch),
        holds_tags(text@) ==> covers(r, Tags),
{
    proof {
        if holds_tags(text@) {
            lemma_tag_files_refresh_tags(text@, current_branch);
        }
    }
    let t = text;
    if str_eq(t, "index") || starts_with(t, "index.") || str_eq(t, "info/exclude") || str_eq(
        t,
        "info/sparse-checkout",
    ) || str_eq(t, "config.worktree") {
        return plan1(Paths);
    }
    if starts_with(t, "objects/") {
        return RefreshPlan::Nothing;
    }
    if str_eq(t, "modules") || starts_with(t, "modules/") {
        return plan2(Paths, Submodules);
    }
    if starts_with(t, "rr-cache/") {
        return RefreshPlan::Nothing;
    }
    if str_eq(t, "COMMIT_EDITMSG") || str_eq(t, "AUTO_MERGE") || str_eq(t, "MERGE_RR") {
        return RefreshPlan::Nothing;
    }
    if str_eq(t, "HEAD") || str_eq(t, "ORIG_HEAD") {
        return plan4(Head, Upstream, Branches, Paths);
    }
    if str_eq(t, "shallow") {
        return plan4(Identity, Head, Upstream, Branches);
    }
    if str_eq(t, "refs/heads") {
        return plan3(Head, Upstream, Branches);
    }
    if str_eq(t, "refs/bisect") {
        return plan5(Operation, Head, Upstream, Branches, Paths);
    }
    if starts_with(t, "refs/heads/") {
        if current_branch {
            return plan4(Head, Upstream, Branches, Paths);
        }
        return plan3(Head, Upstream, Branches);
    }
    if str_eq(t, "refs/remotes") || starts_with(t, "refs/remotes/") || str_eq(t, "FETCH_HEAD") {
        return plan3(Upstream, Branches, Remotes);
    }
    if str_eq(t, "refs/tags") || starts_with(t, "refs/tags/") {
        return plan1(Tags);
    }
    if str_eq(t, "packed-refs") || str_eq(t, "packed-refs.new") {
        return plan4(Head, Upstream, Branches, Tags);
    }
    if str_eq(t, "config") {
        return plan4(Remotes, Upstream, Branches, Paths);
    }
    if str_eq(t, "logs/refs/stash") || str_eq(t, "refs/stash") {
        return plan5(Head, Upstream, Branches, Paths, Stashes);
    }
    if starts_with(t, "logs/") {
        return RefreshPlan::Nothing;
    }
    if str_eq(t, "worktrees") || starts_with(t, "worktrees/") || str_eq(t, "commondir") || str_eq(
        t,
        "gitdir",
    ) {
        return plan4(Identity, Upstream, Branches, Worktrees);
    }
    if is_operation_path(t) {
        return plan5(Operation, Head, Upstream, Branches, Paths);
    }
    RefreshPlan::Full
}

/// The plan for a change to `path`, a path relative to the Git directory.
/// `current_branch` tells whether the path (lock resolved) is the ref of the
/// checked-out branch.
pub fn plan_for_git_relative_path(path: &str, current_branch: bool) -> (r: RefreshPlan)
    ensures
        r == git_path_plan(path@, current_branch),
        holds_tags(path@) ==> covers(r, Tags),
{
    proof {
        if holds_tags(path@) {
            lemma_tag_paths_refresh_tags(path@, current_branch);
        }
    }
    match lock_target_for_git_path(path) {
        LockTarget::Known(target) => plan_for_git_text(target.as_str(), current_branch),
        LockTarget::Unmodeled => RefreshPlan::Nothing,
        LockTarget::NotLock => plan_for_git_text(path, current_branch),
    }
}


/// A file under the Git directory that can hold tag references: the packed
/// references (and `packed-refs.new`, which Git renames over them), the tags
/// directory and every loose tag reference below it.
pub open spec fn holds_tags(t: Seq<char>) -> bool {
    ||| t == "packed-refs"@
    ||| t == "packed-refs.new"@
    ||| t == "refs/tags"@
    ||| has_prefix(t, "refs/tags/"@)
}

/// Two texts that differ at position `k` are different, and neither is a
/// prefix of the other.
proof fn lemma_differ_at(t: Seq<char>, p: Seq<char>, k: int)
    requires
        0 <= k < t.len(),
        k < p.len(),
        t[k] != p[k],
    ensures
        t != p,
        !has_prefix(t, p),
{
    if has_prefix(t, p) {
        assert(t.subrange(0, p.len() as int)[k] == t[k]);
    }
}

/// A text of another length is a different text.
proof fn lemma_other_length(t: Seq<char>, p: Seq<char>)
    requires
        t.len() != p.len(),
    ensures
        t != p,
{
}

/// Domains listed in a plan are covered by it.
proof fn lemma_tags_listed(a: RefreshDomain, b: RefreshDomain, c: RefreshDomain)
    ensures
        covers(pd1(Tags), Tags),
        covers(pd4(a, b, c, Tags), Tags),
{
    let one = seq![Tags];
    assert(one.drop_last() =~= Seq::<RefreshDomain>::empty());
    assert(one.last() == Tags);
    assert(DomainSet::of_seq(one).has(Tags));
    let four = seq![a, b, c, Tags];
    assert(four.drop_last() =~= seq![a, b, c]);
    assert(four.last() == Tags);
    assert(DomainSet::of_seq(four).has(Tags));
}

/// A change to a file that can hold tag references makes the tags section
/// stale: its plan re-reads the tags.
pub proof fn lemma_tag_files_refresh_tags(t: Seq<char>, current_branch: bool)
    requires
        holds_tags(t),
    ensures
        covers(git_text_plan(t, current_branch), Tags),
{
    reveal_strlit("packed-refs");
    reveal_strlit("packed-refs.new");
    reveal_strlit("refs/tags");
    reveal_strlit("refs/tags/");
    reveal_strlit("index");
    reveal_strlit("index.");
    reveal_strlit("info/exclude");
    reveal_strlit("info/sparse-checkout");
    reveal_strlit("config.worktree");
    reveal_strlit("objects/");
    reveal_strlit("modules");
    reveal_strlit("modules/");
    reveal_strlit("rr-cache/");
    reveal_strlit("COMMIT_EDITMSG");
    reveal_strlit("AUTO_MERGE");
    reveal_strlit("MERGE_RR");
    reveal_strlit("HEAD");
    reveal_strlit("ORIG_HEAD");
    reveal_strlit("shallow");
    reveal_strlit("refs/heads");
    reveal_strlit("refs/bisect");
    reveal_strlit("refs/heads/");
    reveal_strlit("refs/remotes");
    reveal_strlit("refs/remotes/");
    reveal_strlit("FETCH_HEAD");
    lemma_tags_listed(Head, Upstream, Branches);
    if t == "packed-refs"@ || t == "packed-refs.new"@ {
        // Only `refs/...` and the packed files themselves start with 'p' or 'r' among the earlier cases.
        assert(t[0] == 'p');
        lemma_differ_at(t, "index"@, 0);
        lemma_differ_at(t, "index."@, 0);
        lemma_differ_at(t, "info/exclude"@, 0);
        lemma_differ_at(t, "info/sparse-checkout"@, 0);
        lemma_differ_at(t, "config.worktree"@, 0);
        lemma_differ_at(t, "objects/"@, 0);
        lemma_differ_at(t, "modules"@, 0);
        lemma_differ_at(t, "modules/"@, 0);
        lemma_differ_at(t, "rr-cache/"@, 0);
        lemma_differ_at(t, "COMMIT_EDITMSG"@, 0);
        lemma_differ_at(t, "AUTO_MERGE"@, 0);
        lemma_differ_at(t, "MERGE_RR"@, 0);
        lemma_differ_at(t, "HEAD"@, 0);
        lemma_differ_at(t, "ORIG_HEAD"@, 0);
        lemma_differ_at(t, "shallow"@, 0);
        lemma_differ_at(t, "refs/heads"@, 0);
        lemma_differ_at(t, "refs/bisect"@, 0);
        lemma_differ_at(t, "refs/heads/"@, 0);
        lemma_differ_at(t, "refs/remotes"@, 0);
        lemma_differ_at(t, "refs/remotes/"@, 0);
        lemma_differ_at(t, "FETCH_HEAD"@, 0);
        lemma_differ_at(t, "refs/tags"@, 0);
        lemma_differ_at(t, "refs/tags/"@, 0);
    } else {
        if t == "refs/tags"@ {
            assert(t[0] == 'r' && t[1] == 'e' && t[5] == 't');
        } else {
            assert(t[0] == t.subrange(0, 10)[0] && t[1] == t.subrange(0, 10)[1] && t[5] == t.subrange(0, 10)[5]);
        }
        assert(t.len() >= 9);
        assert(t[0] == 'r' && t[1] == 'e' && t[5] == 't');
        lemma_other_length(t, "index"@);
        lemma_differ_at(t, "index."@, 0);
        lemma_differ_at(t, "info/exclude"@, 0);
        lemma_differ_at(t, "info/sparse-checkout"@, 0);
        lemma_differ_at(t, "config.worktree"@, 0);
        lemma_differ_at(t, "objects/"@, 0);
        lemma_differ_at(t, "modules"@, 0);
        lemma_differ_at(t, "modules/"@, 0);
        lemma_differ_at(t, "rr-cache/"@, 1);
        lemma_differ_at(t, "COMMIT_EDITMSG"@, 0);
        lemma_differ_at(t, "AUTO_MERGE"@, 0);
        lemma_differ_at(t, "MERGE_RR"@, 0);
        lemma_differ_at(t, "HEAD"@, 0);
        lemma_differ_at(t, "ORIG_HEAD"@, 0);
        lemma_differ_at(t, "shallow"@, 0);
        lemma_differ_at(t, "refs/heads"@, 5);
        lemma_differ_at(t, "refs/bisect"@, 5);
        lemma_differ_at(t, "refs/heads/"@, 5);
        lemma_differ_at(t, "refs/remotes"@, 5);
        lemma_differ_at(t, "refs/remotes/"@, 5);
        lemma_differ_at(t, "FETCH_HEAD"@, 0);
    }
}

/// A change to a path under the Git directory that can hold tag references,
/// or to the lock of one, makes the tags section stale.
pub proof fn lemma_tag_paths_refresh_tags(path: Seq<char>, current_branch: bool)
    requires
        holds_tags(path),
    ensures
        covers(git_path_plan(path, current_branch), Tags),
{
    reveal_strlit(".lock");
    reveal_strlit("refs/");
    reveal_strlit("refs/tags/");
    reveal_strlit("packed-refs");
    reveal_strlit("packed-refs.new");
    reveal_strlit("refs/tags");
    if has_suffix(path, ".lock"@) {
        // `packed-refs`, `packed-refs.new` and `refs/tags` do not end in `.lock`.
        let n = path.len();
        assert(path[n - 1] == path.subrange(n - 5, n as int)[4]);
        assert(path[n - 5] == path.subrange(n - 5, n as int)[0]);
        assert(path[n - 1] == 'k' && path[n - 5] == '.');
        assert(has_prefix(path, "refs/tags/"@));
        assert forall|i: int| 0 <= i < 10 implies path[i] == "refs/tags/"@[i] by {
            assert(path.subrange(0, 10)[i] == path[i]);
        }
        // The `.lock` suffix cannot overlap the `refs/tags/` prefix.
        assert(n >= 15);
        let t = path.subrange(0, n - 5);
        assert(t.subrange(0, 10) =~= path.subrange(0, 10));
        assert(t.subrange(0, 5) =~= "refs/"@);
        assert(has_prefix(t, "refs/"@));
        assert(modeled_lock_target(t));
        assert(lock_resolved(path) == Some(t));
        lemma_tag_files_refresh_tags(t, current_branch);
    } else {
        assert(lock_resolved(path) == Some(path));
        lemma_tag_files_refresh_tags(path, current_branch);
    }
}

} // verus!

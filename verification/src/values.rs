//! Each section of a snapshot as a tuple of plain values, and the laws that
//! holding the same data is equality of every field.
use vstd::prelude::*;
use crate::delta::is_snapshot_delta;
use crate::model::{
    BisectState, BranchKind, BranchSummary, CommitSummary, ConflictSide, ConflictSummary,
    GitObjectKind, HeadKind, HeadState, OperationHead, OperationHeadRole, OperationKind,
    OperationState, PathEntry, PathEntryStatus, PathState, RemoteSummary, RepositoryIdentity,
    RepositorySnapshot, Same, SnapshotDelta, StashSummary, SubmoduleState, SubmoduleSummary, TagKind, TagSummary, UpstreamState,
    WorktreeSummary,
};

verus! {

/// A remote, as plain values.
pub type RemoteValue = (Seq<char>, Option<Seq<char>>, Option<Seq<char>>, Option<Seq<char>>, Seq<Seq<char>>, Seq<Seq<char>>);

/// A commit summary, as plain values.
pub type CommitValue = (Seq<char>, Seq<Seq<char>>, Option<Seq<char>>, Option<Seq<char>>, Option<Seq<char>>, i64);

/// A repository identity, as plain values.
pub type IdentityValue = (Seq<char>, Option<Seq<char>>, Seq<char>, Seq<char>, Option<Seq<char>>, bool, bool, bool, bool);

/// A HEAD state, as plain values.
pub type HeadValue = (HeadKind, Option<Seq<char>>, Option<Seq<char>>, Option<Seq<char>>);

/// An upstream, as plain values.
pub type UpstreamValue = (Seq<char>, Option<Seq<char>>, usize, usize);

/// One stage of a conflict, as plain values.
pub type SideValue = (Seq<char>, Seq<char>, u32);

/// A conflicted path, as plain values.
pub type ConflictValue = (Seq<char>, Option<SideValue>, Option<SideValue>, Option<SideValue>);

/// A path entry, as plain values.
pub type EntryValue = (Seq<char>, Option<Seq<char>>, Option<Seq<char>>, Option<Seq<char>>, Option<Seq<char>>, PathEntryStatus);

/// A path state, as plain values.
pub type PathsValue = (Seq<Seq<char>>, Seq<Seq<char>>, Seq<Seq<char>>, Seq<Seq<char>>, Seq<Seq<char>>, Seq<ConflictValue>, Seq<EntryValue>);

/// An operation head, as plain values.
pub type OperationHeadValue = (OperationHeadRole, Seq<char>);

/// A bisection, as plain values.
pub type BisectValue = (Option<Seq<char>>, Seq<Seq<char>>, Seq<Seq<char>>, Seq<Seq<char>>);

/// An operation state, as plain values.
pub type OperationValue = (OperationKind, Option<Seq<char>>, Seq<OperationHeadValue>, Option<BisectValue>);

/// A branch, as plain values.
pub type BranchValue = (Seq<char>, BranchKind, bool, Option<Seq<char>>, Option<CommitValue>, Option<Seq<char>>, Option<usize>, Option<usize>);

/// A tag, as plain values.
pub type TagValue = (Seq<char>, Seq<char>, TagKind, Seq<char>, Option<GitObjectKind>, Option<Seq<char>>, Option<Seq<char>>, Option<i64>, Option<Seq<char>>);

/// A stash, as plain values.
pub type StashValue = (usize, Seq<char>, Seq<char>);

/// A worktree, as plain values.
pub type WorktreeValue = (Seq<char>, Seq<char>, bool, Option<Seq<char>>);

/// A submodule, as plain values.
pub type SubmoduleValue = (Seq<char>, Seq<char>, Option<Seq<char>>, Option<Seq<char>>, Option<Seq<char>>, Option<Seq<char>>, Option<Seq<char>>, SubmoduleState);

/// The text of an optional string.
pub open spec fn opt_text(o: Option<String>) -> Option<Seq<char>> {
    match o {
        Some(s) => Some(s@),
        None => None,
    }
}

/// The texts of a list of strings, in order.
pub open spec fn texts(v: Vec<String>) -> Seq<Seq<char>> {
    v@.map_values(|s: String| s@)
}

/// An optional value mapped through `f`.
pub open spec fn opt_value<T, V>(o: Option<T>, f: spec_fn(T) -> V) -> Option<V> {
    match o {
        Some(x) => Some(f(x)),
        None => None,
    }
}

/// Two optional values hold the same data exactly when their images agree,
/// given that `f` tells apart what `same` tells apart for the inner values.
proof fn lemma_option_same<T: Same, V>(a: Option<T>, b: Option<T>, f: spec_fn(T) -> V)
    requires
        (a is Some && b is Some) ==> (a->0.same(&b->0) <==> f(a->0) == f(b->0)),
    ensures
        a.same(&b) <==> opt_value(a, f) == opt_value(b, f),
{
}

/// Two lists hold the same data exactly when their images agree element by
/// element, given that `f` tells apart what `same` tells apart for the items.
proof fn lemma_vec_same<T: Same, V>(a: Vec<T>, b: Vec<T>, f: spec_fn(T) -> V)
    requires
        a@.len() == b@.len() ==> forall|i: int|
            0 <= i < a@.len() ==> ((#[trigger] a@[i]).same(&b@[i]) <==> f(a@[i]) == f(b@[i])),
    ensures
        a.same(&b) <==> a@.map_values(f) == b@.map_values(f),
{
    if a.same(&b) {
        assert(a@.map_values(f) =~= b@.map_values(f));
    }
    if a@.map_values(f) == b@.map_values(f) {
        assert(a@.len() == a@.map_values(f).len());
        assert forall|i: int| 0 <= i < a@.len() implies (#[trigger] a@[i]).same(&b@[i]) by {
            assert(a@.map_values(f)[i] == b@.map_values(f)[i]);
        }
    }
}

/// Two optional strings hold the same data exactly when their texts agree.
pub proof fn lemma_opt_text_same(a: Option<String>, b: Option<String>)
    ensures
        a.same(&b) <==> opt_text(a) == opt_text(b),
{
}

/// Two lists of strings hold the same data exactly when their texts agree.
pub proof fn lemma_texts_same(a: Vec<String>, b: Vec<String>)
    ensures
        a.same(&b) <==> texts(a) == texts(b),
{
    lemma_vec_same(a, b, |s: String| s@);
}

/// A remote as plain values: name, URL, push URL, default branch, fetch and
/// push refspecs.
pub open spec fn remote_value(r: RemoteSummary) -> RemoteValue {
    (
        r.name@,
        opt_text(r.url),
        opt_text(r.push_url),
        opt_text(r.default_branch),
        texts(r.fetch_refspecs),
        texts(r.push_refspecs),
    )
}

/// Two remotes hold the same data exactly when every field is equal: name,
/// URL, push URL, default branch and both refspec lists.
pub proof fn lemma_remote_same_is_equality(a: RemoteSummary, b: RemoteSummary)
    ensures
        a.same(&b) <==> remote_value(a) == remote_value(b),
{
    lemma_texts_same(a.fetch_refspecs, b.fetch_refspecs);
    lemma_texts_same(a.push_refspecs, b.push_refspecs);
}

/// A commit as plain values: id, parent ids, summary, author name and email,
/// time.
pub open spec fn commit_value(c: CommitSummary) -> CommitValue {
    (
        c.oid@,
        texts(c.parent_oids),
        opt_text(c.summary),
        opt_text(c.author_name),
        opt_text(c.author_email),
        c.time_seconds,
    )
}

/// Two commit summaries hold the same data exactly when every field is equal.
pub proof fn lemma_commit_same_is_equality(a: CommitSummary, b: CommitSummary)
    ensures
        a.same(&b) <==> commit_value(a) == commit_value(b),
{
    lemma_texts_same(a.parent_oids, b.parent_oids);
}

/// Two optional commit summaries hold the same data exactly when both are
/// absent or both hold equal commits.
pub proof fn lemma_opt_commit_same_is_equality(a: Option<CommitSummary>, b: Option<CommitSummary>)
    ensures
        a.same(&b) <==> opt_value(a, |c: CommitSummary| commit_value(c)) == opt_value(
            b,
            |c: CommitSummary| commit_value(c),
        ),
{
    if a is Some && b is Some {
        lemma_commit_same_is_equality(a->0, b->0);
    }
    lemma_option_same(a, b, |c: CommitSummary| commit_value(c));
}

/// The identity of a repository as plain values.
pub open spec fn identity_value(i: RepositoryIdentity) -> IdentityValue {
    (
        i.id@,
        opt_text(i.worktree_root),
        i.git_dir@,
        i.common_dir@,
        opt_text(i.namespace),
        i.is_bare,
        i.is_empty,
        i.is_shallow,
        i.is_linked_worktree,
    )
}

/// Two identities hold the same data exactly when every field is equal.
pub proof fn lemma_identity_same_is_equality(a: RepositoryIdentity, b: RepositoryIdentity)
    ensures
        a.same(&b) <==> identity_value(a) == identity_value(b),
{
}

/// HEAD as plain values: kind, reference name, branch, target id.
pub open spec fn head_value(h: HeadState) -> HeadValue {
    (h.kind, opt_text(h.name), opt_text(h.branch), opt_text(h.oid))
}

/// Two HEAD states hold the same data exactly when every field is equal.
pub proof fn lemma_head_same_is_equality(a: HeadState, b: HeadState)
    ensures
        a.same(&b) <==> head_value(a) == head_value(b),
{
}

/// An upstream as plain values: name, id, commits ahead and behind.
pub open spec fn upstream_value(u: UpstreamState) -> UpstreamValue {
    (u.name@, opt_text(u.oid), u.ahead, u.behind)
}

/// Two optional upstreams hold the same data exactly when both are absent
/// or both hold equal upstreams.
pub proof fn lemma_upstream_same_is_equality(a: Option<UpstreamState>, b: Option<UpstreamState>)
    ensures
        a.same(&b) <==> opt_value(a, |u: UpstreamState| upstream_value(u)) == opt_value(
            b,
            |u: UpstreamState| upstream_value(u),
        ),
{
    lemma_option_same(a, b, |u: UpstreamState| upstream_value(u));
}

/// One stage of a conflict as plain values: path, blob id, mode.
pub open spec fn side_value(s: ConflictSide) -> SideValue {
    (s.path@, s.oid@, s.mode)
}

/// An optional stage of a conflict as plain values.
pub open spec fn opt_side_value(o: Option<ConflictSide>) -> Option<SideValue> {
    opt_value(o, |s: ConflictSide| side_value(s))
}

/// A conflicted path as plain values: path, ancestor, ours, theirs.
pub open spec fn conflict_value(c: ConflictSummary) -> ConflictValue {
    (c.path@, opt_side_value(c.ancestor), opt_side_value(c.ours), opt_side_value(c.theirs))
}

/// Two conflicts hold the same data exactly when every field is equal.
pub proof fn lemma_conflict_same_is_equality(a: ConflictSummary, b: ConflictSummary)
    ensures
        a.same(&b) <==> conflict_value(a) == conflict_value(b),
{
    lemma_option_same(a.ancestor, b.ancestor, |s: ConflictSide| side_value(s));
    lemma_option_same(a.ours, b.ours, |s: ConflictSide| side_value(s));
    lemma_option_same(a.theirs, b.theirs, |s: ConflictSide| side_value(s));
}

/// A path entry as plain values: path, rename sources and targets, flags.
pub open spec fn entry_value(e: PathEntry) -> EntryValue {
    (
        e.path@,
        opt_text(e.staged_old_path),
        opt_text(e.staged_new_path),
        opt_text(e.workdir_old_path),
        opt_text(e.workdir_new_path),
        e.status,
    )
}

/// Two path entries hold the same data exactly when every field is equal.
pub proof fn lemma_entry_same_is_equality(a: PathEntry, b: PathEntry)
    ensures
        a.same(&b) <==> entry_value(a) == entry_value(b),
{
}

/// The path state as plain values: the five path sets, the conflicts and the
/// entries, each in order.
pub open spec fn paths_value(p: PathState) -> PathsValue {
    (
        texts(p.staged),
        texts(p.unstaged),
        texts(p.untracked),
        texts(p.ignored),
        texts(p.conflicted),
        p.conflicts@.map_values(|c: ConflictSummary| conflict_value(c)),
        p.entries@.map_values(|e: PathEntry| entry_value(e)),
    )
}

/// Two path states hold the same data exactly when every field is equal.
pub proof fn lemma_paths_same_is_equality(a: PathState, b: PathState)
    ensures
        a.same(&b) <==> paths_value(a) == paths_value(b),
{
    lemma_texts_same(a.staged, b.staged);
    lemma_texts_same(a.unstaged, b.unstaged);
    lemma_texts_same(a.untracked, b.untracked);
    lemma_texts_same(a.ignored, b.ignored);
    lemma_texts_same(a.conflicted, b.conflicted);
    assert forall|i: int| 0 <= i < a.conflicts@.len() && i < b.conflicts@.len() implies ((
    #[trigger] a.conflicts@[i]).same(&b.conflicts@[i]) <==> conflict_value(a.conflicts@[i])
        == conflict_value(b.conflicts@[i])) by {
        lemma_conflict_same_is_equality(a.conflicts@[i], b.conflicts@[i]);
    }
    lemma_vec_same(a.conflicts, b.conflicts, |c: ConflictSummary| conflict_value(c));
    assert forall|i: int| 0 <= i < a.entries@.len() && i < b.entries@.len() implies ((
    #[trigger] a.entries@[i]).same(&b.entries@[i]) <==> entry_value(a.entries@[i]) == entry_value(
        b.entries@[i],
    )) by {
        lemma_entry_same_is_equality(a.entries@[i], b.entries@[i]);
    }
    lemma_vec_same(a.entries, b.entries, |e: PathEntry| entry_value(e));
}

/// An operation head as plain values: role and commit id.
pub open spec fn op_head_value(h: OperationHead) -> OperationHeadValue {
    (h.role, h.oid@)
}

/// A bisection as plain values: start, good, bad and skipped ids.
pub open spec fn bisect_value(b: BisectState) -> BisectValue {
    (opt_text(b.start_oid), texts(b.good_oids), texts(b.bad_oids), texts(b.skipped_oids))
}

/// The operation in progress as plain values: kind, message, heads and
/// bisection.
pub open spec fn operation_value(o: OperationState) -> OperationValue {
    (
        o.kind,
        opt_text(o.message),
        o.heads@.map_values(|h: OperationHead| op_head_value(h)),
        opt_value(o.bisect, |b: BisectState| bisect_value(b)),
    )
}

/// Two operation states hold the same data exactly when every field is
/// equal.
pub proof fn lemma_operation_same_is_equality(a: OperationState, b: OperationState)
    ensures
        a.same(&b) <==> operation_value(a) == operation_value(b),
{
    lemma_vec_same(a.heads, b.heads, |h: OperationHead| op_head_value(h));
    if a.bisect is Some && b.bisect is Some {
        let (x, y) = (a.bisect->0, b.bisect->0);
        lemma_texts_same(x.good_oids, y.good_oids);
        lemma_texts_same(x.bad_oids, y.bad_oids);
        lemma_texts_same(x.skipped_oids, y.skipped_oids);
    }
    lemma_option_same(a.bisect, b.bisect, |b: BisectState| bisect_value(b));
}

/// A branch as plain values: name, kind, whether HEAD, id, tip commit,
/// upstream name, commits ahead and behind.
pub open spec fn branch_value(b: BranchSummary) -> BranchValue {
    (
        b.name@,
        b.kind,
        b.is_head,
        opt_text(b.oid),
        opt_value(b.tip_commit, |c: CommitSummary| commit_value(c)),
        opt_text(b.upstream),
        b.upstream_ahead,
        b.upstream_behind,
    )
}

/// Two branches hold the same data exactly when every field is equal.
pub proof fn lemma_branch_same_is_equality(a: BranchSummary, b: BranchSummary)
    ensures
        a.same(&b) <==> branch_value(a) == branch_value(b),
{
    lemma_opt_commit_same_is_equality(a.tip_commit, b.tip_commit);
}

/// A tag as plain values: name, id, kind, target id and kind, tagger name,
/// email and time, message.
pub open spec fn tag_value(t: TagSummary) -> TagValue {
    (
        t.name@,
        t.oid@,
        t.kind,
        t.target_oid@,
        t.target_kind,
        opt_text(t.tagger_name),
        opt_text(t.tagger_email),
        t.tagger_time_seconds,
        opt_text(t.message),
    )
}

/// Two tags hold the same data exactly when every field is equal.
pub proof fn lemma_tag_same_is_equality(a: TagSummary, b: TagSummary)
    ensures
        a.same(&b) <==> tag_value(a) == tag_value(b),
{
}

/// A stash as plain values: position, message, id.
pub open spec fn stash_value(s: StashSummary) -> StashValue {
    (s.index, s.message@, s.oid@)
}

/// Two stashes hold the same data exactly when every field is equal.
pub proof fn lemma_stash_same_is_equality(a: StashSummary, b: StashSummary)
    ensures
        a.same(&b) <==> stash_value(a) == stash_value(b),
{
}

/// A worktree as plain values: name, path, whether locked, lock reason.
pub open spec fn worktree_value(w: WorktreeSummary) -> WorktreeValue {
    (w.name@, w.path@, w.locked, opt_text(w.lock_reason))
}

/// Two worktrees hold the same data exactly when every field is equal.
pub proof fn lemma_worktree_same_is_equality(a: WorktreeSummary, b: WorktreeSummary)
    ensures
        a.same(&b) <==> worktree_value(a) == worktree_value(b),
{
}

/// A submodule as plain values: name, path, URL, branch, the three ids and
/// the status flags.
pub open spec fn submodule_value(m: SubmoduleSummary) -> SubmoduleValue {
    (
        m.name@,
        m.path@,
        opt_text(m.url),
        opt_text(m.branch),
        opt_text(m.head_oid),
        opt_text(m.index_oid),
        opt_text(m.workdir_oid),
        m.status,
    )
}

/// Two submodules hold the same data exactly when every field is equal.
pub proof fn lemma_submodule_same_is_equality(a: SubmoduleSummary, b: SubmoduleSummary)
    ensures
        a.same(&b) <==> submodule_value(a) == submodule_value(b),
{
}

/// The remotes of a list as plain values, in order.
pub open spec fn remote_values(v: Vec<RemoteSummary>) -> Seq<RemoteValue> {
    v@.map_values(|r: RemoteSummary| remote_value(r))
}

/// Two remote lists hold the same data exactly when they hold equal remotes
/// in the same order.
pub proof fn lemma_remotes_same_is_equality(a: Vec<RemoteSummary>, b: Vec<RemoteSummary>)
    ensures
        a.same(&b) <==> remote_values(a) == remote_values(b),
{
    assert forall|i: int| 0 <= i < a@.len() && i < b@.len() implies ((#[trigger] a@[i]).same(
        &b@[i],
    ) <==> remote_value(a@[i]) == remote_value(b@[i])) by {
        lemma_remote_same_is_equality(a@[i], b@[i]);
    }
    lemma_vec_same(a, b, |r: RemoteSummary| remote_value(r));
}

/// The branches of a list as plain values, in order.
pub open spec fn branch_values(v: Vec<BranchSummary>) -> Seq<BranchValue> {
    v@.map_values(|b: BranchSummary| branch_value(b))
}

/// Two branch lists hold the same data exactly when they hold equal branches
/// in the same order.
pub proof fn lemma_branches_same_is_equality(a: Vec<BranchSummary>, b: Vec<BranchSummary>)
    ensures
        a.same(&b) <==> branch_values(a) == branch_values(b),
{
    assert forall|i: int| 0 <= i < a@.len() && i < b@.len() implies ((#[trigger] a@[i]).same(
        &b@[i],
    ) <==> branch_value(a@[i]) == branch_value(b@[i])) by {
        lemma_branch_same_is_equality(a@[i], b@[i]);
    }
    lemma_vec_same(a, b, |b: BranchSummary| branch_value(b));
}

/// The tags of a list as plain values, in order.
pub open spec fn tag_values(v: Vec<TagSummary>) -> Seq<TagValue> {
    v@.map_values(|t: TagSummary| tag_value(t))
}

/// Two tag lists hold the same data exactly when they hold equal tags
/// in the same order.
pub proof fn lemma_tags_same_is_equality(a: Vec<TagSummary>, b: Vec<TagSummary>)
    ensures
        a.same(&b) <==> tag_values(a) == tag_values(b),
{
    assert forall|i: int| 0 <= i < a@.len() && i < b@.len() implies ((#[trigger] a@[i]).same(
        &b@[i],
    ) <==> tag_value(a@[i]) == tag_value(b@[i])) by {
        lemma_tag_same_is_equality(a@[i], b@[i]);
    }
    lemma_vec_same(a, b, |t: TagSummary| tag_value(t));
}

/// The stashes of a list as plain values, in order.
pub open spec fn stash_values(v: Vec<StashSummary>) -> Seq<StashValue> {
    v@.map_values(|s: StashSummary| stash_value(s))
}

/// Two stash lists hold the same data exactly when they hold equal stashes
/// in the same order.
pub proof fn lemma_stashes_same_is_equality(a: Vec<StashSummary>, b: Vec<StashSummary>)
    ensures
        a.same(&b) <==> stash_values(a) == stash_values(b),
{
    assert forall|i: int| 0 <= i < a@.len() && i < b@.len() implies ((#[trigger] a@[i]).same(
        &b@[i],
    ) <==> stash_value(a@[i]) == stash_value(b@[i])) by {
        lemma_stash_same_is_equality(a@[i], b@[i]);
    }
    lemma_vec_same(a, b, |s: StashSummary| stash_value(s));
}

/// The worktrees of a list as plain values, in order.
pub open spec fn worktree_values(v: Vec<WorktreeSummary>) -> Seq<WorktreeValue> {
    v@.map_values(|w: WorktreeSummary| worktree_value(w))
}

/// Two worktree lists hold the same data exactly when they hold equal worktrees
/// in the same order.
pub proof fn lemma_worktrees_same_is_equality(a: Vec<WorktreeSummary>, b: Vec<WorktreeSummary>)
    ensures
        a.same(&b) <==> worktree_values(a) == worktree_values(b),
{
    assert forall|i: int| 0 <= i < a@.len() && i < b@.len() implies ((#[trigger] a@[i]).same(
        &b@[i],
    ) <==> worktree_value(a@[i]) == worktree_value(b@[i])) by {
        lemma_worktree_same_is_equality(a@[i], b@[i]);
    }
    lemma_vec_same(a, b, |w: WorktreeSummary| worktree_value(w));
}

/// The submodules of a list as plain values, in order.
pub open spec fn submodule_values(v: Vec<SubmoduleSummary>) -> Seq<SubmoduleValue> {
    v@.map_values(|m: SubmoduleSummary| submodule_value(m))
}

/// Two submodule lists hold the same data exactly when they hold equal submodules
/// in the same order.
pub proof fn lemma_submodules_same_is_equality(a: Vec<SubmoduleSummary>, b: Vec<SubmoduleSummary>)
    ensures
        a.same(&b) <==> submodule_values(a) == submodule_values(b),
{
    assert forall|i: int| 0 <= i < a@.len() && i < b@.len() implies ((#[trigger] a@[i]).same(
        &b@[i],
    ) <==> submodule_value(a@[i]) == submodule_value(b@[i])) by {
        lemma_submodule_same_is_equality(a@[i], b@[i]);
    }
    lemma_vec_same(a, b, |m: SubmoduleSummary| submodule_value(m));
}

/// A snapshot delta marks a section changed exactly when some field of that
/// section differs between the two snapshots, compared as plain values:
/// identity, HEAD together with its commit, upstream, operation, remotes,
/// branches, tags, stashes, worktrees and submodules.
pub proof fn lemma_delta_marks_value_changes(
    d: SnapshotDelta,
    previous: RepositorySnapshot,
    current: RepositorySnapshot,
)
    requires
        is_snapshot_delta(d, previous, current),
    ensures
        d.identity_changed <==> identity_value(previous.identity) != identity_value(
            current.identity,
        ),
        d.head_changed <==> (head_value(previous.head) != head_value(current.head) || opt_value(
            previous.head_commit,
            |c: CommitSummary| commit_value(c),
        ) != opt_value(current.head_commit, |c: CommitSummary| commit_value(c))),
        d.upstream_changed <==> opt_value(previous.upstream, |u: UpstreamState| upstream_value(u))
            != opt_value(current.upstream, |u: UpstreamState| upstream_value(u)),
        d.operation_changed <==> operation_value(previous.operation) != operation_value(
            current.operation,
        ),
        d.remotes_changed <==> remote_values(previous.remotes) != remote_values(current.remotes),
        d.branches_changed <==> branch_values(previous.branches) != branch_values(
            current.branches,
        ),
        d.tags_changed <==> tag_values(previous.tags) != tag_values(current.tags),
        d.stashes_changed <==> stash_values(previous.stashes) != stash_values(current.stashes),
        d.worktrees_changed <==> worktree_values(previous.worktrees) != worktree_values(
            current.worktrees,
        ),
        d.submodules_changed <==> submodule_values(previous.submodules) != submodule_values(
            current.submodules,
        ),
{
    lemma_identity_same_is_equality(previous.identity, current.identity);
    lemma_head_same_is_equality(previous.head, current.head);
    lemma_opt_commit_same_is_equality(previous.head_commit, current.head_commit);
    lemma_upstream_same_is_equality(previous.upstream, current.upstream);
    lemma_operation_same_is_equality(previous.operation, current.operation);
    lemma_remotes_same_is_equality(previous.remotes, current.remotes);
    lemma_branches_same_is_equality(previous.branches, current.branches);
    lemma_tags_same_is_equality(previous.tags, current.tags);
    lemma_stashes_same_is_equality(previous.stashes, current.stashes);
    lemma_worktrees_same_is_equality(previous.worktrees, current.worktrees);
    lemma_submodules_same_is_equality(previous.submodules, current.submodules);
}

} // verus!

//! Building snapshot sections from what libgit2 reports.
use vstd::prelude::*;

use vstd::string::*;

use crate::error::{GitError, GitErrorCode, SnapshotError};
use crate::git::{
    trimmed_end, trim_end, BranchRef, IndexConflictInfo, RefInfo, RemoteInfo, SubmoduleInfo, TagObject,
    WorktreeInfo,
};
use crate::model::{
    BisectState, BranchKind, BranchSummary, CommitSummary, ConflictSummary, OperationHead,
    OperationHeadRole, RemoteSummary, RepositoryIdentity, SubmoduleState, SubmoduleSummary, TagKind,
    TagSummary, UpstreamState, WorktreeSummary,
};
use crate::sort::{sort_by_key, sorted_by_key};
use crate::sys::{path_join, path_joined};
use crate::text::{has_prefix, own, strip_prefix};

verus! {

broadcast use vstd::seq_lib::group_to_multiset_ensures;

/// The first error among the items, if any.
pub open spec fn first_error<T>(items: Seq<Result<T, GitError>>) -> Option<GitError>
    decreases items.len(),
{
    if items.len() == 0 {
        None
    } else {
        match items[0] {
            Ok(_) => first_error(items.drop_first()),
            Err(e) => Some(e),
        }
    }
}

/// The values of the `Ok` items, in order.
pub open spec fn ok_values<T>(items: Seq<Result<T, GitError>>) -> Seq<T>
    decreases items.len(),
{
    if items.len() == 0 {
        Seq::empty()
    } else {
        match items[0] {
            Ok(v) => seq![v] + ok_values(items.drop_first()),
            Err(_) => ok_values(items.drop_first()),
        }
    }
}

/// The values when every item is `Ok`; else the first error.
pub fn collect_ok<T>(items: Vec<Result<T, GitError>>) -> (r: Result<Vec<T>, SnapshotError>)
    ensures
        match first_error(items@) {
            Some(e) => r == Err::<Vec<T>, SnapshotError>(SnapshotError::Git(e)),
            None => r is Ok && r->Ok_0@ == ok_values(items@),
        },
{
    let ghost orig = items@;
    let mut rest = items;
    let mut out: Vec<T> = Vec::new();
    while rest.len() > 0
        invariant
            orig == items@,
            first_error(orig) == first_error(rest@),
            ok_values(orig) == out@ + ok_values(rest@),
        decreases rest.len(),
    {
        let ghost before = rest@;
        let x = rest.remove(0);
        assert(rest@ =~= before.drop_first());
        match x {
            Ok(v) => {
                let ghost prev = out@;
                out.push(v);
                assert(out@ + ok_values(rest@) =~= prev + (seq![v] + ok_values(rest@)));
            },
            Err(e) => {
                assert(before[0] == Err::<T, GitError>(e));
                assert(first_error(before) == Some(e));
                return Err(SnapshotError::Git(e));
            },
        }
    }
    assert(out@ + ok_values(rest@) =~= out@);
    Ok(out)
}

/// The path of a conflict: that of its ancestor, ours, or theirs side, the
/// first one present.
pub open spec fn conflict_path(c: IndexConflictInfo) -> Option<String> {
    match c.ancestor {
        Some(a) => Some(a.path),
        None => match c.ours {
            Some(o) => Some(o.path),
            None => match c.theirs {
                Some(t) => Some(t.path),
                None => None,
            },
        },
    }
}

/// The summaries of the conflicts that have a side, in order.
pub open spec fn conflict_summaries_of(cs: Seq<IndexConflictInfo>) -> Seq<ConflictSummary>
    decreases cs.len(),
{
    if cs.len() == 0 {
        Seq::empty()
    } else {
        let c = cs[0];
        let rest = conflict_summaries_of(cs.drop_first());
        match conflict_path(c) {
            Some(p) => seq![ConflictSummary { path: p, ancestor: c.ancestor, ours: c.ours, theirs: c.theirs }] + rest,
            None => rest,
        }
    }
}

/// The conflict summaries, sorted by path.
pub fn conflict_summaries(cs: Vec<IndexConflictInfo>) -> (r: Vec<ConflictSummary>)
    ensures
        sorted_by_key(r@),
        r@.to_multiset() == conflict_summaries_of(cs@).to_multiset(),
{
    let ghost orig = cs@;
    let mut rest = cs;
    let mut out: Vec<ConflictSummary> = Vec::new();
    while rest.len() > 0
        invariant
            conflict_summaries_of(orig) == out@ + conflict_summaries_of(rest@),
        decreases rest.len(),
    {
        let ghost before = rest@;
        let c = rest.remove(0);
        assert(rest@ =~= before.drop_first());
        let path = match &c.ancestor {
            Some(a) => Some(a.path.clone()),
            None => match &c.ours {
                Some(o) => Some(o.path.clone()),
                None => match &c.theirs {
                    Some(t) => Some(t.path.clone()),
                    None => None,
                },
            },
        };
        assert(path == conflict_path(c));
        match path {
            Some(p) => {
                let ghost prev = out@;
                let IndexConflictInfo { ancestor, ours, theirs } = c;
                let s = ConflictSummary { path: p, ancestor, ours, theirs };
                out.push(s);
                assert(out@ + conflict_summaries_of(rest@) =~= prev + (seq![s] + conflict_summaries_of(rest@)));
            },
            None => {},
        }
    }
    assert(out@ + conflict_summaries_of(rest@) =~= out@);
    sort_by_key(out)
}

/// The heads with the given role, one per id.
pub open spec fn role_heads(role: OperationHeadRole, oids: Seq<String>) -> Seq<OperationHead> {
    oids.map_values(|o: String| OperationHead { role: role, oid: o })
}

/// The heads an operation has recorded: the merge heads, then the rebase,
/// cherry-pick and revert heads.
pub open spec fn operation_heads_of(
    merge: Seq<String>,
    rebase: Seq<String>,
    cherry_pick: Seq<String>,
    revert: Seq<String>,
) -> Seq<OperationHead> {
    role_heads(OperationHeadRole::Merge, merge) + role_heads(OperationHeadRole::Rebase, rebase) + role_heads(
        OperationHeadRole::CherryPick,
        cherry_pick,
    ) + role_heads(OperationHeadRole::Revert, revert)
}

fn push_role_heads(heads: &mut Vec<OperationHead>, role: OperationHeadRole, oids: &Vec<String>)
    ensures
        final(heads)@ == old(heads)@ + role_heads(role, oids@),
{
    let ghost base = heads@;
    let mut i: usize = 0;
    assert(base + role_heads(role, oids@.subrange(0, 0)) =~= base);
    while i < oids.len()
        invariant
            i <= oids@.len(),
            heads@ == base + role_heads(role, oids@.subrange(0, i as int)),
        decreases oids.len() - i,
    {
        heads.push(OperationHead { role, oid: oids[i].clone() });
        assert(heads@ =~= base + role_heads(role, oids@.subrange(0, i + 1)));
        i = i + 1;
    }
    assert(oids@.subrange(0, oids@.len() as int) =~= oids@);
}

/// The recorded heads, sorted by role and then by id.
pub fn operation_heads_from(
    merge: &Vec<String>,
    rebase: &Vec<String>,
    cherry_pick: &Vec<String>,
    revert: &Vec<String>,
) -> (r: Vec<OperationHead>)
    ensures
        sorted_by_key(r@),
        r@.to_multiset() == operation_heads_of(merge@, rebase@, cherry_pick@, revert@).to_multiset(),
{
    let mut heads: Vec<OperationHead> = Vec::new();
    assert(heads@ =~= Seq::<OperationHead>::empty());
    push_role_heads(&mut heads, OperationHeadRole::Merge, merge);
    assert(heads@ =~= role_heads(OperationHeadRole::Merge, merge@));
    push_role_heads(&mut heads, OperationHeadRole::Rebase, rebase);
    push_role_heads(&mut heads, OperationHeadRole::CherryPick, cherry_pick);
    push_role_heads(&mut heads, OperationHeadRole::Revert, revert);
    sort_by_key(heads)
}

/// The reference that marks the bad commit of a bisect session.
pub open spec fn is_bisect_bad(name: Seq<char>) -> bool {
    name == "refs/bisect/bad"@
}

/// A reference that marks a good commit of a bisect session.
pub open spec fn is_bisect_good(name: Seq<char>) -> bool {
    !is_bisect_bad(name) && crate::text::has_prefix(name, "refs/bisect/good-"@)
}

/// A reference that marks a skipped commit of a bisect session.
pub open spec fn is_bisect_skip(name: Seq<char>) -> bool {
    !is_bisect_bad(name) && !crate::text::has_prefix(name, "refs/bisect/good-"@)
        && crate::text::has_prefix(name, "refs/bisect/skip-"@)
}

/// The target ids of the readable references whose name `m` accepts, in order.
pub open spec fn marked_oids(refs: Seq<Option<RefInfo>>, m: spec_fn(Seq<char>) -> bool) -> Seq<String>
    decreases refs.len(),
{
    if refs.len() == 0 {
        Seq::empty()
    } else {
        let rest = marked_oids(refs.drop_first(), m);
        match refs[0] {
            Some(RefInfo { name: Some(n), target: Some(t) }) => if m(n@) {
                seq![t] + rest
            } else {
                rest
            },
            _ => rest,
        }
    }
}

/// The three sorted lists of bisect marks among the references.
fn bisect_marks(refs: &Vec<Option<RefInfo>>) -> (r: (Vec<String>, Vec<String>, Vec<String>))
    ensures
        sorted_by_key(r.0@),
        sorted_by_key(r.1@),
        sorted_by_key(r.2@),
        r.0@.to_multiset() == marked_oids(refs@, |n: Seq<char>| is_bisect_good(n)).to_multiset(),
        r.1@.to_multiset() == marked_oids(refs@, |n: Seq<char>| is_bisect_bad(n)).to_multiset(),
        r.2@.to_multiset() == marked_oids(refs@, |n: Seq<char>| is_bisect_skip(n)).to_multiset(),
{
    let ghost fg = |n: Seq<char>| is_bisect_good(n);
    let ghost fb = |n: Seq<char>| is_bisect_bad(n);
    let ghost fs = |n: Seq<char>| is_bisect_skip(n);
    let mut good: Vec<String> = Vec::new();
    let mut bad: Vec<String> = Vec::new();
    let mut skipped: Vec<String> = Vec::new();
    let mut i: usize = refs.len();
    while i > 0
        invariant
            i <= refs@.len(),
            fg == (|n: Seq<char>| is_bisect_good(n)),
            fb == (|n: Seq<char>| is_bisect_bad(n)),
            fs == (|n: Seq<char>| is_bisect_skip(n)),
            good@.reverse() == marked_oids(refs@.subrange(i as int, refs@.len() as int), fg),
            bad@.reverse() == marked_oids(refs@.subrange(i as int, refs@.len() as int), fb),
            skipped@.reverse() == marked_oids(refs@.subrange(i as int, refs@.len() as int), fs),
        decreases i,
    {
        i = i - 1;
        let ghost sub = refs@.subrange(i as int, refs@.len() as int);
        assert(sub.drop_first() =~= refs@.subrange(i + 1, refs@.len() as int));
        assert(sub[0] == refs@[i as int]);
        let ghost (g0, b0, s0) = (good@, bad@, skipped@);
        match &refs[i] {
            Some(RefInfo { name: Some(n), target: Some(t) }) => {
                let is_bad = crate::text::str_eq(n.as_str(), "refs/bisect/bad");
                if is_bad {
                    bad.push(t.clone());
                } else if crate::text::starts_with(n.as_str(), "refs/bisect/good-") {
                    good.push(t.clone());
                } else if crate::text::starts_with(n.as_str(), "refs/bisect/skip-") {
                    skipped.push(t.clone());
                }
            },
            _ => {},
        }
        assert(good@.reverse() =~= marked_oids(sub, fg));
        assert(bad@.reverse() =~= marked_oids(sub, fb));
        assert(skipped@.reverse() =~= marked_oids(sub, fs));
    }
    assert(refs@.subrange(0, refs@.len() as int) =~= refs@);
    proof {
        good@.lemma_reverse_to_multiset();
        bad@.lemma_reverse_to_multiset();
        skipped@.lemma_reverse_to_multiset();
    }
    (sort_by_key(good), sort_by_key(bad), sort_by_key(skipped))
}

/// The bisect state for the start id and the references (`None` when the
/// references could not be listed): the good, bad and skipped marks, each
/// list sorted.
pub open spec fn is_bisect_state_of(b: BisectState, start: Option<String>, refs: Option<Vec<Option<RefInfo>>>) -> bool {
    &&& b.start_oid == start
    &&& sorted_by_key(b.good_oids@)
    &&& sorted_by_key(b.bad_oids@)
    &&& sorted_by_key(b.skipped_oids@)
    &&& match refs {
        None => b.good_oids@.len() == 0 && b.bad_oids@.len() == 0 && b.skipped_oids@.len() == 0,
        Some(v) => {
            &&& b.good_oids@.to_multiset() == marked_oids(v@, |n: Seq<char>| is_bisect_good(n)).to_multiset()
            &&& b.bad_oids@.to_multiset() == marked_oids(v@, |n: Seq<char>| is_bisect_bad(n)).to_multiset()
            &&& b.skipped_oids@.to_multiset() == marked_oids(v@, |n: Seq<char>| is_bisect_skip(n)).to_multiset()
        },
    }
}

/// The bisect state for the start id and the listed references.
pub fn bisect_state_from(start: Option<String>, refs: Option<Vec<Option<RefInfo>>>) -> (r: BisectState)
    ensures
        is_bisect_state_of(r, start, refs),
{
    match &refs {
        Some(v) => {
            let (good_oids, bad_oids, skipped_oids) = bisect_marks(v);
            BisectState { start_oid: start, good_oids, bad_oids, skipped_oids }
        },
        None => BisectState {
            start_oid: start,
            good_oids: Vec::new(),
            bad_oids: Vec::new(),
            skipped_oids: Vec::new(),
        },
    }
}

/// The texts that are present, in order.
pub open spec fn present_texts(v: Seq<Option<String>>) -> Seq<String>
    decreases v.len(),
{
    if v.len() == 0 {
        Seq::empty()
    } else {
        match v[0] {
            Some(t) => seq![t] + present_texts(v.drop_first()),
            None => present_texts(v.drop_first()),
        }
    }
}

/// The texts that are present, in order.
pub fn present(v: Vec<Option<String>>) -> (r: Vec<String>)
    ensures
        r@ == present_texts(v@),
{
    let ghost orig = v@;
    let mut rest = v;
    let mut out: Vec<String> = Vec::new();
    while rest.len() > 0
        invariant
            present_texts(orig) == out@ + present_texts(rest@),
        decreases rest.len(),
    {
        let ghost before = rest@;
        let x = rest.remove(0);
        assert(rest@ =~= before.drop_first());
        match x {
            Some(t) => {
                let ghost prev = out@;
                out.push(t);
                assert(out@ + present_texts(rest@) =~= prev + (seq![t] + present_texts(rest@)));
            },
            None => {},
        }
    }
    assert(out@ + present_texts(rest@) =~= out@);
    out
}

/// The name of the reference that records a remote's default branch.
pub open spec fn remote_head_name(remote: Seq<char>) -> Seq<char> {
    "refs/remotes/"@ + remote + "/HEAD"@
}

/// The prefix of the remote-tracking references of a remote.
pub open spec fn remote_branch_prefix(remote: Seq<char>) -> Seq<char> {
    "refs/remotes/"@ + remote + "/"@
}

/// The name of the reference that records a remote's default branch.
pub fn remote_head_ref(remote: &str) -> (r: String)
    ensures
        r@ == remote_head_name(remote@),
{
    own("refs/remotes/").concat(remote).concat("/HEAD")
}

/// The default branch a remote's HEAD reference points at: its symbolic
/// target without the remote's branch prefix, when it has that prefix.
pub fn default_branch(remote: &str, symbolic_target: Option<String>) -> (r: Option<String>)
    ensures
        match symbolic_target {
            Some(t) => if has_prefix(t@, remote_branch_prefix(remote@)) {
                r is Some && r->0@ == t@.subrange(remote_branch_prefix(remote@).len() as int, t@.len() as int)
            } else {
                r is None
            },
            None => r is None,
        },
{
    match symbolic_target {
        Some(t) => {
            let prefix = own("refs/remotes/").concat(remote).concat("/");
            strip_prefix(t.as_str(), prefix.as_str())
        },
        None => None,
    }
}

/// The summary of a remote.
pub fn remote_summary(name: String, info: RemoteInfo, default_branch: Option<String>) -> (r: RemoteSummary)
    ensures
        r.name == name,
        r.url == info.url,
        r.push_url == info.push_url,
        r.default_branch == default_branch,
        r.fetch_refspecs@ == present_texts(info.fetch_refspecs@),
        r.push_refspecs@ == present_texts(info.push_refspecs@),
{
    let RemoteInfo { url, push_url, fetch_refspecs, push_refspecs } = info;
    RemoteSummary {
        name,
        url,
        push_url,
        default_branch,
        fetch_refspecs: present(fetch_refspecs),
        push_refspecs: present(push_refspecs),
    }
}

/// The text that stands for a name that is not valid UTF-8.
pub open spec fn invalid_name() -> Seq<char> {
    "<invalid-utf8>"@
}

/// A name, or the placeholder when it could not be read as text.
pub fn name_or_placeholder(n: Option<String>) -> (r: String)
    ensures
        r@ == match n {
            Some(t) => t@,
            None => invalid_name(),
        },
{
    match n {
        Some(t) => t,
        None => own("<invalid-utf8>"),
    }
}

/// The pair of commits whose distance gives a branch's ahead and behind
/// counts: its own target and its upstream's, when both exist.
pub open spec fn counts_pair_of(b: BranchRef) -> Option<(String, String)> {
    match b.upstream {
        Ok(u) => match (b.target, u.target) {
            (Some(l), Some(t)) => Some((l, t)),
            _ => None,
        },
        Err(_) => None,
    }
}

/// The pair of commits whose distance gives a branch's ahead and behind counts.
pub fn counts_pair(b: &BranchRef) -> (r: Option<(String, String)>)
    ensures
        r == counts_pair_of(*b),
{
    match &b.upstream {
        Ok(u) => match (&b.target, &u.target) {
            (Some(l), Some(t)) => Some((l.clone(), t.clone())),
            _ => None,
        },
        Err(_) => None,
    }
}

/// The upstream name a local branch reports: `Ok(None)` when it has no
/// upstream, an error when the upstream cannot be read.
pub open spec fn branch_upstream_of(b: BranchRef) -> Result<Option<Seq<char>>, GitError> {
    match b.kind {
        BranchKind::Remote => Ok(None),
        BranchKind::Local => match b.upstream {
            Ok(u) => match u.name {
                Ok(n) => Ok(
                    match n {
                        Some(t) => Some(t@),
                        None => None,
                    },
                ),
                Err(e) => Err(e),
            },
            Err(e) => if e.code == GitErrorCode::NotFound {
                Ok(None)
            } else {
                Err(e)
            },
        },
    }
}

/// The summary of a branch, given the commit at its tip and the ahead and
/// behind counts (`None` when there is no pair to count): the first error
/// among its name, its upstream and the counts, else the summary.
pub open spec fn is_branch_summary_of(
    r: Result<BranchSummary, SnapshotError>,
    b: BranchRef,
    tip: Option<CommitSummary>,
    counts: Option<Result<(usize, usize), GitError>>,
) -> bool {
    match b.name {
        Err(e) => r == Err::<BranchSummary, SnapshotError>(SnapshotError::Git(e)),
        Ok(n) => match branch_upstream_of(b) {
            Err(e) => r == Err::<BranchSummary, SnapshotError>(SnapshotError::Git(e)),
            Ok(up) => match counts {
                Some(Err(e)) => r == Err::<BranchSummary, SnapshotError>(SnapshotError::Git(e)),
                _ => r matches Ok(s) && {
                    &&& s.name@ == (match n {
                        Some(t) => t@,
                        None => invalid_name(),
                    })
                    &&& s.kind == b.kind
                    &&& s.is_head == b.is_head
                    &&& s.oid == b.target
                    &&& s.tip_commit == tip
                    &&& (match up {
                        Some(u) => s.upstream is Some && s.upstream->0@ == u,
                        None => s.upstream is None,
                    })
                    &&& (match counts {
                        Some(Ok((a, c))) => s.upstream_ahead == Some(a) && s.upstream_behind == Some(c),
                        _ => s.upstream_ahead is None && s.upstream_behind is None,
                    })
                },
            },
        },
    }
}

/// The summary of a branch, given its tip commit and its counts.
pub fn branch_summary(
    b: BranchRef,
    tip: Option<CommitSummary>,
    counts: Option<Result<(usize, usize), GitError>>,
) -> (r: Result<BranchSummary, SnapshotError>)
    ensures
        is_branch_summary_of(r, b, tip, counts),
{
    let ghost bv = b;
    let BranchRef { name, kind, is_head, target, upstream } = b;
    let name = match name {
        Ok(n) => name_or_placeholder(n),
        Err(e) => return Err(SnapshotError::Git(e)),
    };
    let upstream_name = match kind {
        BranchKind::Remote => None,
        BranchKind::Local => match upstream {
            Ok(u) => match u.name {
                Ok(n) => n,
                Err(e) => return Err(SnapshotError::Git(e)),
            },
            Err(e) => {
                if e.code == GitErrorCode::NotFound {
                    None
                } else {
                    return Err(SnapshotError::Git(e));
                }
            },
        },
    };
    let (upstream_ahead, upstream_behind) = match counts {
        Some(Ok((a, c))) => (Some(a), Some(c)),
        Some(Err(e)) => return Err(SnapshotError::Git(e)),
        None => (None, None),
    };
    Ok(BranchSummary {
        name,
        kind,
        is_head,
        oid: target,
        tip_commit: tip,
        upstream: upstream_name,
        upstream_ahead,
        upstream_behind,
    })
}

/// The summary of a tag named `name` that resolves to `obj`.
pub open spec fn tag_summary_of(name: String, obj: TagObject) -> TagSummary {
    match obj {
        TagObject::Annotated { oid, target_oid, target_kind, tagger, message } => TagSummary {
            name: name,
            oid: oid,
            kind: TagKind::Annotated,
            target_oid: target_oid,
            target_kind: target_kind,
            tagger_name: match tagger {
                Some(t) => t.name,
                None => None,
            },
            tagger_email: match tagger {
                Some(t) => t.email,
                None => None,
            },
            tagger_time_seconds: match tagger {
                Some(t) => Some(t.time_seconds),
                None => None,
            },
            message: message,
        },
        TagObject::Plain { oid, kind } => TagSummary {
            name: name,
            oid: oid,
            kind: TagKind::Lightweight,
            target_oid: oid,
            target_kind: kind,
            tagger_name: None,
            tagger_email: None,
            tagger_time_seconds: None,
            message: None,
        },
    }
}

/// The summary of a tag named `name` that resolves to `obj`.
pub fn tag_summary(name: String, obj: TagObject) -> (r: TagSummary)
    ensures
        r == tag_summary_of(name, obj),
{
    match obj {
        TagObject::Annotated { oid, target_oid, target_kind, tagger, message } => {
            let (tagger_name, tagger_email, tagger_time_seconds) = match tagger {
                Some(t) => (t.name, t.email, Some(t.time_seconds)),
                None => (None, None, None),
            };
            TagSummary {
                name,
                oid,
                kind: TagKind::Annotated,
                target_oid,
                target_kind,
                tagger_name,
                tagger_email,
                tagger_time_seconds,
                message,
            }
        },
        TagObject::Plain { oid, kind } => {
            let target_oid = oid.clone();
            TagSummary {
                name,
                oid,
                kind: TagKind::Lightweight,
                target_oid,
                target_kind: kind,
                tagger_name: None,
                tagger_email: None,
                tagger_time_seconds: None,
                message: None,
            }
        },
    }
}

/// Where libgit2 keeps the lock file of the linked worktree `name`: its
/// administrative directory `worktrees/<name>` under the common directory,
/// then `locked`.
pub open spec fn worktree_lock_path_of(common_dir: Seq<char>, name: Seq<char>) -> Seq<char> {
    path_joined(path_joined(path_joined(common_dir, "worktrees"@), name), "locked"@)
}

/// The path of the lock file of the linked worktree `name`.
pub fn worktree_lock_path(common_dir: &str, name: &str) -> (r: String)
    ensures
        r@ == worktree_lock_path_of(common_dir@, name@),
{
    let admin = path_join(path_join(common_dir, "worktrees").as_str(), name);
    path_join(admin.as_str(), "locked")
}

/// The path of the merge message in the Git directory.
pub open spec fn merge_message_path_of(git_dir: Seq<char>) -> Seq<char> {
    path_joined(git_dir, "MERGE_MSG"@)
}

/// The path of the merge message in the Git directory.
pub fn merge_message_path(git_dir: &str) -> (r: String)
    ensures
        r@ == merge_message_path_of(git_dir@),
{
    path_join(git_dir, "MERGE_MSG")
}

/// A worktree's lock state from the text of its lock file: unlocked without
/// a lock file; locked, with the file's text as the reason unless it is
/// empty.
pub open spec fn lock_state_of(file: Option<String>) -> Option<Option<String>> {
    match file {
        None => None,
        Some(t) => Some(if t@.len() == 0 { None } else { Some(t) }),
    }
}

/// A worktree's lock state from the text of its lock file.
pub fn lock_state(file: Option<String>) -> (r: Option<Option<String>>)
    ensures
        r == lock_state_of(file),
{
    match file {
        None => None,
        Some(t) => {
            if t.as_str().unicode_len() == 0 {
                Some(None)
            } else {
                Some(Some(t))
            }
        },
    }
}

/// The summary of a linked worktree: an error when its lock state cannot be
/// read; else locked with the lock reason without trailing white space, or
/// unlocked.
pub fn worktree_summary(name: String, info: WorktreeInfo) -> (r: Result<WorktreeSummary, SnapshotError>)
    ensures
        match info.lock {
            Err(e) => r == Err::<WorktreeSummary, SnapshotError>(SnapshotError::Git(e)),
            Ok(lock) => r matches Ok(w) && {
                &&& w.name == name
                &&& w.path == info.path
                &&& w.locked == lock is Some
                &&& match lock {
                    Some(Some(reason)) => w.lock_reason is Some && w.lock_reason->0@ == trimmed_end(reason@),
                    _ => w.lock_reason is None,
                }
            },
        },
{
    let WorktreeInfo { path, lock } = info;
    match lock {
        Err(e) => Err(SnapshotError::Git(e)),
        Ok(None) => Ok(WorktreeSummary { name, path, locked: false, lock_reason: None }),
        Ok(Some(reason)) => {
            let lock_reason = match reason {
                Some(text) => Some(trim_end(text.as_str())),
                None => None,
            };
            Ok(WorktreeSummary { name, path, locked: true, lock_reason })
        },
    }
}

/// The summary of a submodule named `name` with the given status.
pub fn submodule_summary(name: String, info: SubmoduleInfo, status: SubmoduleState) -> (r: SubmoduleSummary)
    ensures
        r == (SubmoduleSummary {
            name: name,
            path: info.path,
            url: info.url,
            branch: info.branch,
            head_oid: info.head_oid,
            index_oid: info.index_oid,
            workdir_oid: info.workdir_oid,
            status: status,
        }),
{
    let SubmoduleInfo { name: _, path, url, branch, head_oid, index_oid, workdir_oid } = info;
    SubmoduleSummary { name, path, url, branch, head_oid, index_oid, workdir_oid, status }
}

/// The path a repository is known by: its working tree, or its Git
/// directory when it has none.
pub fn identity_path(workdir: &Option<String>, git_dir: &String) -> (r: String)
    ensures
        r@ == match workdir {
            Some(w) => w@,
            None => git_dir@,
        },
{
    match workdir {
        Some(w) => w.clone(),
        None => git_dir.clone(),
    }
}

/// The identity of a repository. Its id is the canonical form of the path it
/// is known by, or that path itself when it has none; it is a linked worktree
/// when its Git directory is not the common directory.
pub fn identity_from(
    workdir: Option<String>,
    git_dir: String,
    common_dir: String,
    canonical: Option<String>,
    namespace: Option<String>,
    is_bare: bool,
    is_empty: bool,
    is_shallow: bool,
) -> (r: RepositoryIdentity)
    ensures
        r.id@ == match canonical {
            Some(c) => c@,
            None => match workdir {
                Some(w) => w@,
                None => git_dir@,
            },
        },
        r.worktree_root == workdir,
        r.git_dir == git_dir,
        r.common_dir == common_dir,
        r.namespace == namespace,
        r.is_bare == is_bare,
        r.is_empty == is_empty,
        r.is_shallow == is_shallow,
        r.is_linked_worktree == (git_dir@ != common_dir@),
{
    let id = match canonical {
        Some(c) => c,
        None => identity_path(&workdir, &git_dir),
    };
    let is_linked_worktree = git_dir != common_dir;
    RepositoryIdentity {
        id,
        worktree_root: workdir,
        git_dir,
        common_dir,
        namespace,
        is_bare,
        is_empty,
        is_shallow,
        is_linked_worktree,
    }
}

/// The upstream state of the checked-out branch `b`, given its ahead and
/// behind counts (`None` when one of the two commits is missing): no state
/// when it has no upstream; the first error among the upstream lookup, its
/// name and the counts; else the upstream's name, target and counts (zero
/// when not counted).
pub open spec fn is_upstream_state_of(
    r: Result<Option<UpstreamState>, SnapshotError>,
    b: BranchRef,
    counts: Option<Result<(usize, usize), GitError>>,
) -> bool {
    match b.upstream {
        Err(e) => if e.code == GitErrorCode::NotFound {
            r == Ok::<Option<UpstreamState>, SnapshotError>(None)
        } else {
            r == Err::<Option<UpstreamState>, SnapshotError>(SnapshotError::Git(e))
        },
        Ok(u) => match u.name {
            Err(e) => r == Err::<Option<UpstreamState>, SnapshotError>(SnapshotError::Git(e)),
            Ok(n) => match counts {
                Some(Err(e)) => r == Err::<Option<UpstreamState>, SnapshotError>(SnapshotError::Git(e)),
                _ => r matches Ok(Some(s)) && {
                    &&& s.name@ == (match n {
                        Some(t) => t@,
                        None => invalid_name(),
                    })
                    &&& s.oid == u.target
                    &&& (match counts {
                        Some(Ok((a, c))) => s.ahead == a && s.behind == c,
                        _ => s.ahead == 0 && s.behind == 0,
                    })
                },
            },
        },
    }
}

/// The upstream state of the checked-out branch, given its counts.
pub fn upstream_state_from(b: BranchRef, counts: Option<Result<(usize, usize), GitError>>) -> (r: Result<Option<UpstreamState>, SnapshotError>)
    ensures
        is_upstream_state_of(r, b, counts),
{
    match b.upstream {
        Err(e) => {
            if e.code == GitErrorCode::NotFound {
                Ok(None)
            } else {
                Err(SnapshotError::Git(e))
            }
        },
        Ok(u) => {
            let name = match u.name {
                Ok(n) => name_or_placeholder(n),
                Err(e) => return Err(SnapshotError::Git(e)),
            };
            let (ahead, behind) = match counts {
                Some(Ok((a, c))) => (a, c),
                Some(Err(e)) => return Err(SnapshotError::Git(e)),
                None => (0, 0),
            };
            Ok(Some(UpstreamState { name, oid: u.target, ahead, behind }))
        },
    }
}

} // verus!

verus! {

/// The name of the reference of the tag `name`.
pub open spec fn tag_ref_name(name: Seq<char>) -> Seq<char> {
    "refs/tags/"@ + name
}

/// The name of the reference of the tag `name`.
pub fn tag_ref(name: &str) -> (r: String)
    ensures
        r@ == tag_ref_name(name@),
{
    own("refs/tags/").concat(name)
}

/// The names of some tag summaries, in order.
pub open spec fn summary_names(v: Seq<TagSummary>) -> Seq<String> {
    v.map_values(|t: TagSummary| t.name)
}

/// Reordering tag summaries reorders their names alike.
proof fn lemma_summary_names_reordered(a: Seq<TagSummary>, b: Seq<TagSummary>)
    requires
        a.to_multiset() == b.to_multiset(),
    ensures
        summary_names(a).to_multiset() == summary_names(b).to_multiset(),
    decreases a.len(),
{
    broadcast use vstd::multiset::group_multiset_axioms;
    if a.len() == 0 {
        assert(b.to_multiset().len() == 0);
        assert(b.len() == 0);
        assert(summary_names(a) =~= summary_names(b));
    } else {
        vstd::seq_lib::to_multiset_contains(a, a[0]);
        vstd::seq_lib::to_multiset_contains(b, a[0]);
        assert(a.contains(a[0])) by { assert(a[0] == a[0]); }
        let k = choose|k: int| 0 <= k < b.len() && b[k] == a[0];
        vstd::seq_lib::to_multiset_remove(a, 0);
        vstd::seq_lib::to_multiset_remove(b, k);
        assert(a.remove(0) =~= a.drop_first());
        lemma_summary_names_reordered(a.drop_first(), b.remove(k));
        let (na, nb) = (summary_names(a), summary_names(b));
        vstd::seq_lib::to_multiset_remove(na, 0);
        vstd::seq_lib::to_multiset_remove(nb, k);
        assert(na.remove(0) =~= summary_names(a.drop_first()));
        assert(nb.remove(k) =~= summary_names(b.remove(k)));
        vstd::seq_lib::to_multiset_contains(na, na[0]);
        vstd::seq_lib::to_multiset_contains(nb, nb[k]);
        assert(na.contains(na[0]));
        assert(nb.contains(nb[k]));
        assert(na.to_multiset() =~= na.to_multiset().remove(na[0]).insert(na[0]));
        assert(nb.to_multiset() =~= nb.to_multiset().remove(nb[k]).insert(nb[k]));
    }
}

/// The reference names of the tags `names`, in order.
pub fn tag_refs(names: &Vec<String>) -> (r: Vec<String>)
    ensures
        r@.len() == names@.len(),
        forall|i: int| 0 <= i < names@.len() ==> (#[trigger] r@[i])@ == tag_ref_name(names@[i]@),
{
    let mut out: Vec<String> = Vec::new();
    let mut i: usize = 0;
    while i < names.len()
        invariant
            i <= names@.len(),
            out@.len() == i,
            forall|j: int| 0 <= j < i ==> (#[trigger] out@[j])@ == tag_ref_name(names@[j]@),
        decreases names.len() - i,
    {
        out.push(tag_ref(names[i].as_str()));
        i = i + 1;
    }
    out
}

/// Where a branch's data is read: the commit at its target, and the ahead
/// and behind counts between its target and its upstream's.
pub fn branch_lookups(b: &BranchRef) -> (r: (Option<String>, Option<(String, String)>))
    ensures
        r.0 == b.target,
        r.1 == counts_pair_of(*b),
{
    (b.target.clone(), counts_pair(b))
}

/// The summaries of the tags `names`, each with what its reference resolved
/// to, when every one resolved.
pub open spec fn tag_summaries_of(names: Seq<String>, resolved: Seq<Result<TagObject, GitError>>) -> Seq<TagSummary> {
    Seq::new(names.len(), |j: int| tag_summary_of(names[j], resolved[j]->Ok_0))
}

/// One summary per tag, sorted by name, given the tag names and what each
/// one's reference resolved to: the error of the first that did not
/// resolve, if any.
pub fn tag_summaries(names: Vec<String>, resolved: Vec<Result<TagObject, GitError>>) -> (r: Result<Vec<TagSummary>, SnapshotError>)
    requires
        names@.len() == resolved@.len(),
    ensures
        match r {
            Err(e) => exists|i: int| {
                &&& 0 <= i < resolved@.len()
                &&& forall|j: int| 0 <= j < i ==> (#[trigger] resolved@[j]) is Ok
                &&& (#[trigger] resolved@[i]) matches Err(g) && e == SnapshotError::Git(g)
            },
            Ok(v) => {
                &&& forall|j: int| 0 <= j < resolved@.len() ==> (#[trigger] resolved@[j]) is Ok
                &&& sorted_by_key(v@)
                &&& v@.to_multiset() == tag_summaries_of(names@, resolved@).to_multiset()
                &&& summary_names(v@).to_multiset() == names@.to_multiset()
            },
        },
{
    let ghost ns = names@;
    let ghost rs = resolved@;
    let mut rest_names = names;
    let mut rest = resolved;
    let mut out: Vec<TagSummary> = Vec::new();
    let mut i: usize = 0;
    while rest.len() > 0
        invariant
            ns.len() == rs.len(),
            rs == resolved@,
            rs.len() == resolved.len(),
            i + rest@.len() == rs.len(),
            rest_names@ == ns.subrange(i as int, ns.len() as int),
            rest@ == rs.subrange(i as int, rs.len() as int),
            out@.len() == i,
            forall|j: int| 0 <= j < i ==> (#[trigger] rs[j]) is Ok,
            forall|j: int| 0 <= j < i ==> #[trigger] out@[j] == tag_summary_of(ns[j], rs[j]->Ok_0),
        decreases rest.len(),
    {
        let ghost rest_n = rest_names@;
        let ghost rest_r = rest@;
        let n = rest_names.remove(0);
        let x = rest.remove(0);
        assert(rest_r[0] == rs[i as int]);
        assert(rest_n[0] == ns[i as int]);
        assert(rest_names@ =~= ns.subrange(i + 1, ns.len() as int));
        assert(rest@ =~= rs.subrange(i + 1, rs.len() as int));
        match x {
            Ok(o) => {
                out.push(tag_summary(n, o));
            },
            Err(e) => {
                assert(rs[i as int] matches Err(g) && SnapshotError::Git(e) == SnapshotError::Git(g));
                return Err(SnapshotError::Git(e));
            },
        }
        i = i + 1;
    }
    assert(out@ =~= tag_summaries_of(ns, rs));
    assert(summary_names(out@) =~= ns);
    let v = sort_by_key(out);
    proof {
        lemma_summary_names_reordered(out@, v@);
    }
    Ok(v)
}

/// A branch with what was read for it: the commit at its tip and its ahead
/// and behind counts (`None` when there is no pair to count).
pub struct BranchRead {
    pub branch: BranchRef,
    pub tip: Option<CommitSummary>,
    pub counts: Option<Result<(usize, usize), GitError>>,
}

/// The error reading a branch gives, if any: that of reading the branch,
/// its name, its upstream or its counts.
pub open spec fn branch_read_error(x: Result<BranchRead, GitError>) -> Option<GitError> {
    match x {
        Err(e) => Some(e),
        Ok(b) => match b.branch.name {
            Err(e) => Some(e),
            Ok(_) => match branch_upstream_of(b.branch) {
                Err(e) => Some(e),
                Ok(_) => match b.counts {
                    Some(Err(e)) => Some(e),
                    _ => None,
                },
            },
        },
    }
}

/// The summary of a branch read without error.
pub open spec fn is_branch_read_summary(s: BranchSummary, x: Result<BranchRead, GitError>) -> bool {
    x matches Ok(b) && is_branch_summary_of(Ok(s), b.branch, b.tip, b.counts)
}

/// One summary per branch, sorted by name and then kind, given what was
/// read for each: the error of the first that failed, if any.
pub fn branch_summaries(reads: Vec<Result<BranchRead, GitError>>) -> (r: Result<Vec<BranchSummary>, SnapshotError>)
    ensures
        match r {
            Err(e) => exists|i: int| {
                &&& 0 <= i < reads@.len()
                &&& forall|j: int| 0 <= j < i ==> branch_read_error(#[trigger] reads@[j]) is None
                &&& branch_read_error(#[trigger] reads@[i]) matches Some(g) && e == SnapshotError::Git(g)
            },
            Ok(v) => {
                &&& forall|j: int| 0 <= j < reads@.len() ==> branch_read_error(#[trigger] reads@[j]) is None
                &&& sorted_by_key(v@)
                &&& exists|raw: Seq<BranchSummary>| #![trigger raw.to_multiset()] {
                    &&& raw.len() == reads@.len()
                    &&& forall|j: int| 0 <= j < raw.len() ==> is_branch_read_summary(#[trigger] raw[j], reads@[j])
                    &&& v@.to_multiset() == raw.to_multiset()
                }
            },
        },
{
    let ghost rs = reads@;
    let mut rest = reads;
    let mut out: Vec<BranchSummary> = Vec::new();
    let mut i: usize = 0;
    while rest.len() > 0
        invariant
            rs == reads@,
            rs.len() == reads.len(),
            i + rest@.len() == rs.len(),
            rest@ == rs.subrange(i as int, rs.len() as int),
            out@.len() == i,
            forall|j: int| 0 <= j < i ==> branch_read_error(#[trigger] rs[j]) is None,
            forall|j: int| 0 <= j < i ==> is_branch_read_summary(#[trigger] out@[j], rs[j]),
        decreases rest.len(),
    {
        let ghost before = rest@;
        let x = rest.remove(0);
        assert(before[0] == rs[i as int]);
        assert(rest@ =~= rs.subrange(i + 1, rs.len() as int));
        let b = match x {
            Ok(b) => b,
            Err(e) => {
                assert(branch_read_error(rs[i as int]) == Some(e));
                return Err(SnapshotError::Git(e));
            },
        };
        let BranchRead { branch, tip, counts } = b;
        let ghost bv = branch;
        let ghost tv = tip;
        let ghost cv = counts;
        match branch_summary(branch, tip, counts) {
            Ok(s) => {
                assert(branch_read_error(rs[i as int]) is None);
                out.push(s);
                assert(is_branch_read_summary(out@[i as int], rs[i as int]));
            },
            Err(e) => {
                assert(branch_read_error(rs[i as int]) matches Some(g) && e == SnapshotError::Git(g));
                return Err(e);
            },
        }
        i = i + 1;
    }
    let ghost raw = out@;
    let v = sort_by_key(out);
    assert(raw.len() == rs.len());
    Ok(v)
}


/// A remote with what was read for it: its configuration and the symbolic
/// target of its `HEAD` reference.
pub struct RemoteRead {
    pub name: String,
    pub info: RemoteInfo,
    pub head_target: Option<String>,
}

/// The default branch a remote's `HEAD` target names: the part after
/// `refs/remotes/<remote>/`, when the target lies there.
pub open spec fn default_branch_of(remote: Seq<char>, target: Option<String>) -> Option<Seq<char>> {
    match target {
        Some(t) => if has_prefix(t@, remote_branch_prefix(remote)) {
            Some(t@.subrange(remote_branch_prefix(remote).len() as int, t@.len() as int))
        } else {
            None
        },
        None => None,
    }
}

/// `s` summarises the remote read as `x`.
pub open spec fn is_remote_read_summary(s: RemoteSummary, x: Result<RemoteRead, GitError>) -> bool {
    x matches Ok(m) && {
        &&& s.name == m.name
        &&& s.url == m.info.url
        &&& s.push_url == m.info.push_url
        &&& s.fetch_refspecs@ == present_texts(m.info.fetch_refspecs@)
        &&& s.push_refspecs@ == present_texts(m.info.push_refspecs@)
        &&& match default_branch_of(m.name@, m.head_target) {
            Some(b) => s.default_branch is Some && s.default_branch->0@ == b,
            None => s.default_branch is None,
        }
    }
}

/// One summary per remote, sorted by name, given what was read for each:
/// the error of the first that could not be read, if any.
pub fn remote_summaries(reads: Vec<Result<RemoteRead, GitError>>) -> (r: Result<Vec<RemoteSummary>, SnapshotError>)
    ensures
        match r {
            Err(e) => exists|i: int| {
                &&& 0 <= i < reads@.len()
                &&& forall|j: int| 0 <= j < i ==> (#[trigger] reads@[j]) is Ok
                &&& (#[trigger] reads@[i]) matches Err(g) && e == SnapshotError::Git(g)
            },
            Ok(v) => {
                &&& forall|j: int| 0 <= j < reads@.len() ==> (#[trigger] reads@[j]) is Ok
                &&& sorted_by_key(v@)
                &&& v@.len() == reads@.len()
                &&& exists|raw: Seq<RemoteSummary>| #![trigger raw.to_multiset()] {
                    &&& raw.len() == reads@.len()
                    &&& forall|j: int| 0 <= j < raw.len() ==> is_remote_read_summary(#[trigger] raw[j], reads@[j])
                    &&& v@.to_multiset() == raw.to_multiset()
                }
            },
        },
{
    let ghost rs = reads@;
    let mut rest = reads;
    let mut out: Vec<RemoteSummary> = Vec::new();
    let mut i: usize = 0;
    while rest.len() > 0
        invariant
            rs == reads@,
            rs.len() == reads.len(),
            i + rest@.len() == rs.len(),
            rest@ == rs.subrange(i as int, rs.len() as int),
            out@.len() == i,
            forall|j: int| 0 <= j < i ==> (#[trigger] rs[j]) is Ok,
            forall|j: int| 0 <= j < i ==> is_remote_read_summary(#[trigger] out@[j], rs[j]),
        decreases rest.len(),
    {
        let ghost before = rest@;
        let x = rest.remove(0);
        assert(before[0] == rs[i as int]);
        assert(rest@ =~= rs.subrange(i + 1, rs.len() as int));
        let m = match x {
            Ok(m) => m,
            Err(e) => {
                return Err(SnapshotError::Git(e));
            },
        };
        let RemoteRead { name, info, head_target } = m;
        let db = default_branch(name.as_str(), head_target);
        out.push(remote_summary(name, info, db));
        assert(is_remote_read_summary(out@[i as int], rs[i as int]));
        i = i + 1;
    }
    let ghost raw = out@;
    let v = sort_by_key(out);
    proof {
        vstd::seq_lib::to_multiset_len(raw);
        vstd::seq_lib::to_multiset_len(v@);
    }
    Ok(v)
}

/// A linked worktree with what was read for it: its path and the text of
/// its lock file (`None` when there is none).
pub struct WorktreeRead {
    pub name: String,
    pub path: String,
    pub lock_file: Option<String>,
}

/// `s` summarises the worktree read as `x`.
pub open spec fn is_worktree_read_summary(s: WorktreeSummary, x: Result<WorktreeRead, GitError>) -> bool {
    x matches Ok(w) && {
        &&& s.name == w.name
        &&& s.path == w.path
        &&& s.locked == (w.lock_file is Some)
        &&& match lock_state_of(w.lock_file) {
            Some(Some(reason)) => s.lock_reason is Some && s.lock_reason->0@ == trimmed_end(reason@),
            _ => s.lock_reason is None,
        }
    }
}

/// One summary per linked worktree, sorted by name, given what was read for
/// each: the error of the first that could not be read, if any.
pub fn worktree_summaries(reads: Vec<Result<WorktreeRead, GitError>>) -> (r: Result<Vec<WorktreeSummary>, SnapshotError>)
    ensures
        match r {
            Err(e) => exists|i: int| {
                &&& 0 <= i < reads@.len()
                &&& forall|j: int| 0 <= j < i ==> (#[trigger] reads@[j]) is Ok
                &&& (#[trigger] reads@[i]) matches Err(g) && e == SnapshotError::Git(g)
            },
            Ok(v) => {
                &&& forall|j: int| 0 <= j < reads@.len() ==> (#[trigger] reads@[j]) is Ok
                &&& sorted_by_key(v@)
                &&& v@.len() == reads@.len()
                &&& exists|raw: Seq<WorktreeSummary>| #![trigger raw.to_multiset()] {
                    &&& raw.len() == reads@.len()
                    &&& forall|j: int| 0 <= j < raw.len() ==> is_worktree_read_summary(#[trigger] raw[j], reads@[j])
                    &&& v@.to_multiset() == raw.to_multiset()
                }
            },
        },
{
    let ghost rs = reads@;
    let mut rest = reads;
    let mut out: Vec<WorktreeSummary> = Vec::new();
    let mut i: usize = 0;
    while rest.len() > 0
        invariant
            rs == reads@,
            rs.len() == reads.len(),
            i + rest@.len() == rs.len(),
            rest@ == rs.subrange(i as int, rs.len() as int),
            out@.len() == i,
            forall|j: int| 0 <= j < i ==> (#[trigger] rs[j]) is Ok,
            forall|j: int| 0 <= j < i ==> is_worktree_read_summary(#[trigger] out@[j], rs[j]),
        decreases rest.len(),
    {
        let ghost before = rest@;
        let x = rest.remove(0);
        assert(before[0] == rs[i as int]);
        assert(rest@ =~= rs.subrange(i + 1, rs.len() as int));
        let w = match x {
            Ok(w) => w,
            Err(e) => {
                return Err(SnapshotError::Git(e));
            },
        };
        let WorktreeRead { name, path, lock_file } = w;
        let info = WorktreeInfo { path, lock: Ok(lock_state(lock_file)) };
        match worktree_summary(name, info) {
            Ok(s) => {
                out.push(s);
            },
            Err(e) => {
                return Err(e);
            },
        }
        assert(is_worktree_read_summary(out@[i as int], rs[i as int]));
        i = i + 1;
    }
    let ghost raw = out@;
    let v = sort_by_key(out);
    proof {
        vstd::seq_lib::to_multiset_len(raw);
        vstd::seq_lib::to_multiset_len(v@);
    }
    Ok(v)
}

/// A submodule with its status as read.
pub struct SubmoduleRead {
    pub info: SubmoduleInfo,
    pub status: SubmoduleState,
}

/// `s` summarises the submodule read as `x`: known by its name, or the
/// placeholder when the name is not text.
pub open spec fn is_submodule_read_summary(s: SubmoduleSummary, x: Result<SubmoduleRead, GitError>) -> bool {
    x matches Ok(m) && {
        &&& s.name@ == (match m.info.name {
            Some(t) => t@,
            None => invalid_name(),
        })
        &&& s.path == m.info.path
        &&& s.url == m.info.url
        &&& s.branch == m.info.branch
        &&& s.head_oid == m.info.head_oid
        &&& s.index_oid == m.info.index_oid
        &&& s.workdir_oid == m.info.workdir_oid
        &&& s.status == m.status
    }
}

/// One summary per submodule, sorted by name, given what was read for each:
/// the error of the first whose status could not be read, if any.
pub fn submodule_summaries(reads: Vec<Result<SubmoduleRead, GitError>>) -> (r: Result<Vec<SubmoduleSummary>, SnapshotError>)
    ensures
        match r {
            Err(e) => exists|i: int| {
                &&& 0 <= i < reads@.len()
                &&& forall|j: int| 0 <= j < i ==> (#[trigger] reads@[j]) is Ok
                &&& (#[trigger] reads@[i]) matches Err(g) && e == SnapshotError::Git(g)
            },
            Ok(v) => {
                &&& forall|j: int| 0 <= j < reads@.len() ==> (#[trigger] reads@[j]) is Ok
                &&& sorted_by_key(v@)
                &&& v@.len() == reads@.len()
                &&& exists|raw: Seq<SubmoduleSummary>| #![trigger raw.to_multiset()] {
                    &&& raw.len() == reads@.len()
                    &&& forall|j: int| 0 <= j < raw.len() ==> is_submodule_read_summary(#[trigger] raw[j], reads@[j])
                    &&& v@.to_multiset() == raw.to_multiset()
                }
            },
        },
{
    let ghost rs = reads@;
    let mut rest = reads;
    let mut out: Vec<SubmoduleSummary> = Vec::new();
    let mut i: usize = 0;
    while rest.len() > 0
        invariant
            rs == reads@,
            rs.len() == reads.len(),
            i + rest@.len() == rs.len(),
            rest@ == rs.subrange(i as int, rs.len() as int),
            out@.len() == i,
            forall|j: int| 0 <= j < i ==> (#[trigger] rs[j]) is Ok,
            forall|j: int| 0 <= j < i ==> is_submodule_read_summary(#[trigger] out@[j], rs[j]),
        decreases rest.len(),
    {
        let ghost before = rest@;
        let x = rest.remove(0);
        assert(before[0] == rs[i as int]);
        assert(rest@ =~= rs.subrange(i + 1, rs.len() as int));
        let m = match x {
            Ok(m) => m,
            Err(e) => {
                return Err(SnapshotError::Git(e));
            },
        };
        let SubmoduleRead { info, status } = m;
        let name = name_or_placeholder(info.name.clone());
        out.push(submodule_summary(name, info, status));
        assert(is_submodule_read_summary(out@[i as int], rs[i as int]));
        i = i + 1;
    }
    let ghost raw = out@;
    let v = sort_by_key(out);
    proof {
        vstd::seq_lib::to_multiset_len(raw);
        vstd::seq_lib::to_multiset_len(v@);
    }
    Ok(v)
}

} // verus!

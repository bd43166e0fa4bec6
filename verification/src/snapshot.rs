//! Reading a repository snapshot, whole or section by section.
use git2::Repository;
use vstd::prelude::*;

use crate::error::{GitError, GitErrorCode, SnapshotError};
use crate::git;
use crate::model::{
    BranchSummary, CommitSummary, HeadKind, HeadState, OperationKind, OperationState, PathState,
    RemoteSummary, RepositoryIdentity, RepositorySnapshot, Same, SnapshotOptions, StashSummary,
    SubmoduleSummary, TagSummary, UpstreamState, WorktreeSummary,
};
use crate::plan::{DomainSet, RefreshDomain, RefreshPlan};
use crate::git::{BranchRef, StatusListing, SubmoduleInfo, StatusItem, StatusRequest, StatusScope, TagObject};
use crate::read::{head_state_from, is_path_state_of, path_state_from, status_paths};
use crate::model::ConflictSummary;
use crate::git::IndexFlags;
use crate::sections::{
    bisect_state_from, branch_lookups, branch_summaries, collect_ok, conflict_summaries, counts_pair,
    identity_from, identity_path, is_branch_read_summary, merge_message_path, name_or_placeholder,
    operation_heads_from, present, present_texts, remote_head_ref, remote_summaries, submodule_summaries,
    summary_names, tag_refs, tag_summaries, upstream_state_from, worktree_lock_path, worktree_summaries,
    BranchRead, RemoteRead, SubmoduleRead, WorktreeRead,
};
use crate::sort::sorted_by_key;
use crate::heads::{first_word_text, head_oids, head_oids_of};
use crate::sys::path_join;
use crate::text::{own, sorted_unique, text_set};

verus! {

/// The invariants of each section of a snapshot: every list sorted the way
/// the snapshot sorts it, path sets without repeats, a bisect state exactly
/// while bisecting, a HEAD commit only when HEAD has a target, an upstream
/// only when HEAD is attached to a branch, and the linked-worktree flag
/// telling the Git directory and the common directory apart.
pub open spec fn sections_well_formed(s: RepositorySnapshot) -> bool {
    &&& s.identity.is_linked_worktree == (s.identity.git_dir@ != s.identity.common_dir@)
    &&& (s.head.oid is None ==> s.head_commit is None)
    &&& (s.head.kind != HeadKind::Attached || s.head.branch is None ==> s.upstream is None)
    &&& sorted_unique(s.paths.staged@)
    &&& sorted_unique(s.paths.unstaged@)
    &&& sorted_unique(s.paths.untracked@)
    &&& sorted_unique(s.paths.ignored@)
    &&& sorted_unique(s.paths.conflicted@)
    &&& sorted_by_key(s.paths.conflicts@)
    &&& sorted_by_key(s.paths.entries@)
    &&& sorted_by_key(s.operation.heads@)
    &&& (s.operation.bisect is Some <==> s.operation.kind == OperationKind::Bisect)
    &&& bisect_marks_sorted(s.operation)
    &&& sorted_by_key(s.remotes@)
    &&& sorted_by_key(s.branches@)
    &&& sorted_by_key(s.tags@)
    &&& sorted_by_key(s.worktrees@)
    &&& sorted_by_key(s.submodules@)
}

/// The good, bad and skipped lists of a bisect session are each sorted.
pub open spec fn bisect_marks_sorted(o: OperationState) -> bool {
    o.bisect matches Some(b) ==> {
        &&& sorted_by_key(b.good_oids@)
        &&& sorted_by_key(b.bad_oids@)
        &&& sorted_by_key(b.skipped_oids@)
    }
}

/// Every path list of a path state is empty.
pub open spec fn path_state_is_empty(p: PathState) -> bool {
    &&& p.staged@.len() == 0
    &&& p.unstaged@.len() == 0
    &&& p.untracked@.len() == 0
    &&& p.ignored@.len() == 0
    &&& p.conflicted@.len() == 0
    &&& p.conflicts@.len() == 0
    &&& p.entries@.len() == 0
}

/// A snapshot as reading a repository with `include_ignored` gives it: its
/// sections well formed, no ignored path unless asked for, and no path at
/// all for a bare repository.
pub open spec fn is_read_snapshot(s: RepositorySnapshot, include_ignored: bool) -> bool {
    &&& sections_well_formed(s)
    &&& (!include_ignored ==> s.paths.ignored@.len() == 0)
    &&& (s.identity.is_bare ==> path_state_is_empty(s.paths))
    &&& (!s.identity.is_bare ==> is_listed_paths(s.paths, include_ignored))
}

/// `p` was built from a status listing asked for with the snapshot's status
/// request for `include_ignored`, together with some index conflicts and
/// index flags: each path set, the ignored one among them, is exactly the set
/// of paths that listing reports with the set's flags.
pub open spec fn is_listed_paths(p: PathState, include_ignored: bool) -> bool {
    exists|l: StatusListing, conflicts: Seq<ConflictSummary>, flags: Seq<IndexFlags>|
        #![trigger is_path_state_of(p, l.entries(), conflicts, flags)]
        l.asked() == snapshot_status_request(include_ignored) && is_path_state_of(p, l.entries(), conflicts, flags)
}

/// The error for a failed repository lookup of `path`: not a repository when
/// Git found none, else the Git error.
pub open spec fn is_discover_error(r: SnapshotError, path: Seq<char>, e: GitError) -> bool {
    if e.code == GitErrorCode::NotFound {
        r matches SnapshotError::NotRepository { path: p } && p@ == path
    } else {
        r == SnapshotError::Git(e)
    }
}

/// The error for a failed repository lookup of `path`.
pub fn discover_error(path: &str, e: GitError) -> (r: SnapshotError)
    ensures
        is_discover_error(r, path@, e),
{
    if e.code == GitErrorCode::NotFound {
        SnapshotError::NotRepository { path: own(path) }
    } else {
        SnapshotError::Git(e)
    }
}

/// Opens the repository that contains `path`.
pub fn open_repository(path: &str) -> (r: Result<Repository, SnapshotError>)
    ensures
        r matches Err(SnapshotError::NotRepository { path: p }) ==> p@ == path@,
        r matches Err(e) ==> exists|g: GitError| is_discover_error(e, path@, g),
{
    match git::discover(path) {
        Ok(repo) => Ok(repo),
        Err(e) => Err(discover_error(path, e)),
    }
}

fn git_error<T>(r: Result<T, GitError>) -> (out: Result<T, SnapshotError>)
    ensures
        match r {
            Ok(v) => out == Ok::<T, SnapshotError>(v),
            Err(e) => out == Err::<T, SnapshotError>(SnapshotError::Git(e)),
        },
{
    match r {
        Ok(v) => Ok(v),
        Err(e) => Err(SnapshotError::Git(e)),
    }
}

/// Whether the repository is empty: HEAD is unborn and there is no reference.
fn read_is_empty(repo: &Repository) -> (r: Result<bool, SnapshotError>)
    ensures
        r matches Err(e) ==> e is Git,
{
    match git::head(repo) {
        Ok(_) => Ok(false),
        Err(e) => {
            if e.code == GitErrorCode::UnbornBranch {
                match git::has_references(repo) {
                    Ok(any) => Ok(!any),
                    Err(e) => Err(SnapshotError::Git(e)),
                }
            } else {
                Err(SnapshotError::Git(e))
            }
        },
    }
}

/// Reads the identity section.
pub fn read_identity(repo: &Repository) -> (r: Result<RepositoryIdentity, SnapshotError>)
    ensures
        r matches Err(e) ==> e is Git,
        r matches Ok(i) ==> i.is_linked_worktree == (i.git_dir@ != i.common_dir@),
{
    let workdir = git::workdir(repo);
    let git_dir = git::git_dir(repo);
    let common_dir = git::common_dir(repo);
    let id_path = identity_path(&workdir, &git_dir);
    let canonical = crate::sys::canonical_path(id_path.as_str());
    let namespace = git::namespace(repo);
    let is_bare = git::is_bare(repo);
    let is_empty = read_is_empty(repo)?;
    let is_shallow = git::is_shallow(repo);
    Ok(identity_from(workdir, git_dir, common_dir, canonical, namespace, is_bare, is_empty, is_shallow))
}

/// Reads the HEAD section.
pub fn read_head(repo: &Repository) -> (r: Result<HeadState, SnapshotError>)
    ensures
        r matches Err(e) ==> e is Git,
{
    head_state_from(git::head(repo))
}

/// Reads the commit HEAD points at; none when HEAD has no target.
pub fn read_head_commit(repo: &Repository, head: &HeadState) -> (r: Option<CommitSummary>)
    ensures
        head.oid is None ==> r is None,
{
    match &head.oid {
        Some(oid) => git::find_commit(repo, oid.as_str()),
        None => None,
    }
}

/// Reads the upstream of the checked-out branch; none unless HEAD is
/// attached to a branch.
pub fn read_upstream(repo: &Repository, head: &HeadState) -> (r: Result<Option<UpstreamState>, SnapshotError>)
    ensures
        r matches Err(e) ==> e is Git,
        head.kind != HeadKind::Attached || head.branch is None ==> r == Ok::<Option<UpstreamState>, SnapshotError>(None),
{
    if head.kind != HeadKind::Attached {
        return Ok(None);
    }
    let name = match &head.branch {
        Some(n) => n,
        None => return Ok(None),
    };
    let branch = git_error(git::find_local_branch(repo, name.as_str()))?;
    let counts = match counts_pair(&branch) {
        Some((local, upstream)) => Some(git::ahead_behind(repo, local.as_str(), upstream.as_str())),
        None => None,
    };
    upstream_state_from(branch, counts)
}

/// The path state of a repository without a working tree.
pub fn empty_path_state() -> (r: PathState)
    ensures
        path_state_is_empty(r),
{
    PathState {
        staged: Vec::new(),
        unstaged: Vec::new(),
        untracked: Vec::new(),
        ignored: Vec::new(),
        conflicted: Vec::new(),
        conflicts: Vec::new(),
        entries: Vec::new(),
    }
}

/// The status listing a snapshot asks for: the index and the working tree,
/// untracked files listed file by file, renames detected both ways, and
/// ignored files listed exactly when `include_ignored` holds.
pub open spec fn snapshot_status_request(include_ignored: bool) -> StatusRequest {
    StatusRequest {
        scope: StatusScope::IndexAndWorkdir,
        include_untracked: true,
        recurse_untracked_dirs: true,
        include_ignored: include_ignored,
        renames_head_to_index: true,
        renames_index_to_workdir: true,
    }
}

/// The status listing a snapshot asks for.
pub fn status_request(include_ignored: bool) -> (r: StatusRequest)
    ensures
        r == snapshot_status_request(include_ignored),
{
    StatusRequest {
        scope: StatusScope::IndexAndWorkdir,
        include_untracked: true,
        recurse_untracked_dirs: true,
        include_ignored,
        renames_head_to_index: true,
        renames_index_to_workdir: true,
    }
}

/// A path state built from status items none of which is ignored lists no
/// ignored path.
proof fn lemma_no_ignored_paths(
    p: PathState,
    items: Seq<StatusItem>,
    conflicts: Seq<ConflictSummary>,
    flags: Seq<IndexFlags>,
)
    requires
        is_path_state_of(p, items, conflicts, flags),
        forall|i: int| 0 <= i < items.len() ==> !(#[trigger] items[i]).other.0,
    ensures
        p.ignored@.len() == 0,
{
    if p.ignored@.len() > 0 {
        let t = p.ignored@[0]@;
        assert(text_set(p.ignored@).contains(t));
        assert(status_paths(items, |s: StatusItem| s.other.0).contains(t));
    }
}

/// Reads the path section of a repository that is bare exactly when
/// `is_bare` holds: empty for a bare repository; otherwise built from the
/// status listing `status_request` asks for, the index conflicts and the
/// index flags, so that ignored paths are listed only when `options` asks
/// for them.
pub fn read_paths_of(repo: &Repository, is_bare: bool, options: SnapshotOptions) -> (r: Result<PathState, SnapshotError>)
    ensures
        is_bare ==> (r matches Ok(p) && path_state_is_empty(p)),
        !is_bare ==> (r matches Ok(p) ==> is_listed_paths(p, options.include_ignored)),
        r matches Err(e) ==> e is Git,
        !options.include_ignored ==> (r matches Ok(p) ==> p.ignored@.len() == 0),
        r matches Ok(p) ==> {
            &&& sorted_unique(p.staged@)
            &&& sorted_unique(p.unstaged@)
            &&& sorted_unique(p.untracked@)
            &&& sorted_unique(p.ignored@)
            &&& sorted_unique(p.conflicted@)
            &&& sorted_by_key(p.conflicts@)
            &&& sorted_by_key(p.entries@)
        },
{
    if is_bare {
        return Ok(empty_path_state());
    }
    let listing = git_error(git::status_listing(repo, status_request(options.include_ignored)))?;
    let conflict_items = git_error(git::index_conflicts(repo))?;
    let conflicts = conflict_summaries(collect_ok(conflict_items)?);
    let flags = git_error(git::index_flags(repo))?;
    let ghost c = conflicts@;
    let p = path_state_from(listing.items(), conflicts, &flags);
    proof {
        if !options.include_ignored {
            lemma_no_ignored_paths(p, listing.entries(), c, flags@);
        }
        assert(is_path_state_of(p, listing.entries(), c, flags@));
    }
    Ok(p)
}

/// Reads the path section: empty for a bare repository; ignored paths are
/// listed only when `options` asks for them.
pub fn read_paths(repo: &Repository, options: SnapshotOptions) -> (r: Result<PathState, SnapshotError>)
    ensures
        r matches Err(e) ==> e is Git,
        !options.include_ignored ==> (r matches Ok(p) ==> p.ignored@.len() == 0),
        r matches Ok(p) ==> {
            &&& sorted_unique(p.staged@)
            &&& sorted_unique(p.unstaged@)
            &&& sorted_unique(p.untracked@)
            &&& sorted_unique(p.ignored@)
            &&& sorted_unique(p.conflicted@)
            &&& sorted_by_key(p.conflicts@)
            &&& sorted_by_key(p.entries@)
        },
{
    read_paths_of(repo, git::is_bare(repo), options)
}

/// The text of the file at `path` when there is one, converted lossily.
fn file_text(path: &str) -> (r: Option<String>) {
    match git::file_bytes(path) {
        Some(bytes) => Some(git::lossy_text(&bytes)),
        None => None,
    }
}

/// The object ids recorded in the head file `name` of the Git directory:
/// none when it is missing or not UTF-8; else the first word of each line
/// that parses as an object id.
pub fn head_file_oids(git_dir: &str, name: &str) -> (r: Vec<String>)
    ensures
        r@.len() == 0 || exists|t: Seq<char>| r@.map_values(|s: String| s@) == #[trigger] head_oids_of(t),
{
    match git::file_bytes(path_join(git_dir, name).as_str()) {
        Some(bytes) => match git::utf8_text(bytes) {
            Some(text) => head_oids(text.as_str()),
            None => Vec::new(),
        },
        None => Vec::new(),
    }
}

/// The commit a bisect session started from, as `BISECT_START` records it:
/// its first word when that parses as an object id, else the target of the
/// reference of that name.
pub fn bisect_start(repo: &Repository, git_dir: &str) -> (r: Option<String>) {
    let text = match git::file_bytes(path_join(git_dir, "BISECT_START").as_str()) {
        Some(bytes) => match git::utf8_text(bytes) {
            Some(text) => text,
            None => return None,
        },
        None => return None,
    };
    match first_word_text(text.as_str()) {
        Some(word) => {
            if git::oid_parses(word.as_str()) {
                Some(word)
            } else {
                git::reference_target(repo, word.as_str())
            }
        },
        None => None,
    }
}

/// Reads the operation section: the state, the merge message, the heads
/// recorded in `MERGE_HEAD`, `REBASE_HEAD`, `CHERRY_PICK_HEAD` and
/// `REVERT_HEAD`, and the bisect marks while bisecting.
pub fn read_operation(repo: &mut Repository) -> (r: OperationState)
    ensures
        sorted_by_key(r.heads@),
        r.bisect is Some <==> r.kind == OperationKind::Bisect,
        bisect_marks_sorted(r),
{
    let kind = git::state(repo);
    let git_dir = git::git_dir(repo);
    let message = file_text(merge_message_path(git_dir.as_str()).as_str());
    let merge = head_file_oids(git_dir.as_str(), "MERGE_HEAD");
    let rebase = head_file_oids(git_dir.as_str(), "REBASE_HEAD");
    let cherry_pick = head_file_oids(git_dir.as_str(), "CHERRY_PICK_HEAD");
    let revert = head_file_oids(git_dir.as_str(), "REVERT_HEAD");
    let heads = operation_heads_from(&merge, &rebase, &cherry_pick, &revert);
    let bisect = if kind == OperationKind::Bisect {
        let start = bisect_start(repo, git_dir.as_str());
        Some(bisect_state_from(start, git::references(repo)))
    } else {
        None
    };
    OperationState { kind, message, heads, bisect }
}

/// The remotes named `names` (as `Repository::remotes` lists them),
/// sorted by name: for each name that is text its configuration and the
/// symbolic target of its `HEAD` reference are read, then there is one
/// summary per such name, or the error of the first remote that could not
/// be read.
pub fn remotes_named(repo: &Repository, names: Vec<Option<String>>) -> (r: Result<Vec<RemoteSummary>, SnapshotError>)
    ensures
        r matches Err(e) ==> e is Git,
        r matches Ok(v) ==> sorted_by_key(v@) && v@.len() == present_texts(names@).len(),
{
    let names = present(names);
    let mut reads: Vec<Result<RemoteRead, GitError>> = Vec::new();
    let mut i: usize = 0;
    while i < names.len()
        invariant
            i <= names@.len(),
            reads@.len() == i,
        decreases names.len() - i,
    {
        let name = &names[i];
        let read = match git::find_remote(repo, name.as_str()) {
            Ok(info) => {
                let head_ref = remote_head_ref(name.as_str());
                let head_target = git::reference_symbolic_target(repo, head_ref.as_str());
                Ok(RemoteRead { name: name.clone(), info, head_target })
            },
            Err(e) => Err(e),
        };
        reads.push(read);
        i = i + 1;
    }
    remote_summaries(reads)
}

/// Reads the remotes, sorted by name: one summary per remote name that is
/// text.
pub fn read_remotes(repo: &Repository) -> (r: Result<Vec<RemoteSummary>, SnapshotError>)
    ensures
        r matches Err(e) ==> e is Git,
        r matches Ok(v) ==> sorted_by_key(v@),
{
    remotes_named(repo, git_error(git::remote_names(repo))?)
}

/// The summaries of the branches `refs` (as `Repository::branches` lists
/// them), sorted by name and then kind: for each branch the commit at its
/// tip and, when it has an upstream, the ahead and behind counts between
/// the two are read, and there is one summary per branch.
pub fn branches_from(repo: &Repository, refs: Vec<Result<BranchRef, GitError>>) -> (r: Result<Vec<BranchSummary>, SnapshotError>)
    ensures
        r matches Err(e) ==> e is Git,
        r matches Ok(v) ==> sorted_by_key(v@) && v@.len() == refs@.len(),
{
    let ghost all = refs@;
    let mut rest = refs;
    let mut reads: Vec<Result<BranchRead, GitError>> = Vec::new();
    while rest.len() > 0
        invariant
            reads@.len() + rest@.len() == all.len(),
        decreases rest.len(),
    {
        let read = match rest.remove(0) {
            Ok(b) => {
                let (tip_at, counts_at) = branch_lookups(&b);
                let tip = match tip_at {
                    Some(oid) => git::find_commit(repo, oid.as_str()),
                    None => None,
                };
                let counts = match counts_at {
                    Some((local, upstream)) => Some(git::ahead_behind(repo, local.as_str(), upstream.as_str())),
                    None => None,
                };
                Ok(BranchRead { branch: b, tip, counts })
            },
            Err(e) => Err(e),
        };
        reads.push(read);
    }
    let ghost n = reads@.len();
    let r = branch_summaries(reads);
    proof {
        if r is Ok {
            let v = r->Ok_0;
            let raw = choose|raw: Seq<BranchSummary>| #![trigger raw.to_multiset()]
                {
                    &&& raw.len() == n
                    &&& forall|j: int| 0 <= j < raw.len() ==> is_branch_read_summary(#[trigger] raw[j], reads@[j])
                    &&& v@.to_multiset() == raw.to_multiset()
                };
            vstd::seq_lib::to_multiset_len(raw);
            vstd::seq_lib::to_multiset_len(v@);
        }
    }
    r
}

/// Reads the branches, sorted by name and then kind: one summary per branch.
pub fn read_branches(repo: &Repository) -> (r: Result<Vec<BranchSummary>, SnapshotError>)
    ensures
        r matches Err(e) ==> e is Git,
        r matches Ok(v) ==> sorted_by_key(v@),
{
    branches_from(repo, git_error(git::branches(repo))?)
}

/// The tags named `names` (as `Repository::tag_names` lists them), sorted
/// by name: each name that is text is resolved through its reference
/// `refs/tags/<name>`, and there is one summary per such name.
pub fn tags_named(repo: &Repository, names: Vec<Option<String>>) -> (r: Result<Vec<TagSummary>, SnapshotError>)
    ensures
        r matches Err(e) ==> e is Git,
        r matches Ok(v) ==> sorted_by_key(v@) && summary_names(v@).to_multiset() == present_texts(
            names@,
        ).to_multiset(),
{
    let names = present(names);
    let refs = tag_refs(&names);
    let mut resolved: Vec<Result<TagObject, GitError>> = Vec::new();
    let mut i: usize = 0;
    while i < refs.len()
        invariant
            i <= refs@.len(),
            refs@.len() == names@.len(),
            resolved@.len() == i,
        decreases refs.len() - i,
    {
        resolved.push(git::resolve_tag(repo, refs[i].as_str()));
        i = i + 1;
    }
    tag_summaries(names, resolved)
}

/// Reads the tags, sorted by name: one summary per tag name that is text.
pub fn read_tags(repo: &Repository) -> (r: Result<Vec<TagSummary>, SnapshotError>)
    ensures
        r matches Err(e) ==> e is Git,
        r matches Ok(v) ==> sorted_by_key(v@),
{
    tags_named(repo, git_error(git::tag_names(repo))?)
}

/// Reads the stash entries, newest first.
pub fn read_stashes(repo: &mut Repository) -> (r: Result<Vec<StashSummary>, SnapshotError>)
    ensures
        r matches Err(e) ==> e is Git,
{
    git_error(git::stashes(repo))
}

/// The linked worktrees named `names` (as `Repository::worktrees` lists
/// them), sorted by name: for each name that is text its path and the text
/// of its lock file are read, then there is one summary per such name, or
/// the error of the first worktree that could not be found.
pub fn worktrees_named(repo: &Repository, names: Vec<Option<String>>) -> (r: Result<Vec<WorktreeSummary>, SnapshotError>)
    ensures
        r matches Err(e) ==> e is Git,
        r matches Ok(v) ==> sorted_by_key(v@) && v@.len() == present_texts(names@).len(),
{
    let names = present(names);
    let common = git::common_dir(repo);
    let mut reads: Vec<Result<WorktreeRead, GitError>> = Vec::new();
    let mut i: usize = 0;
    while i < names.len()
        invariant
            i <= names@.len(),
            reads@.len() == i,
        decreases names.len() - i,
    {
        let name = &names[i];
        let read = match git::find_worktree(repo, name.as_str()) {
            Ok(path) => {
                let lock_file = file_text(worktree_lock_path(common.as_str(), name.as_str()).as_str());
                Ok(WorktreeRead { name: name.clone(), path, lock_file })
            },
            Err(e) => Err(e),
        };
        reads.push(read);
        i = i + 1;
    }
    worktree_summaries(reads)
}

/// Reads the linked worktrees, sorted by name: one summary per worktree
/// name that is text.
pub fn read_worktrees(repo: &Repository) -> (r: Result<Vec<WorktreeSummary>, SnapshotError>)
    ensures
        r matches Err(e) ==> e is Git,
        r matches Ok(v) ==> sorted_by_key(v@),
{
    worktrees_named(repo, git_error(git::worktree_names(repo))?)
}

/// The submodules `subs` (as `Repository::submodules` lists them), sorted
/// by name: for each its status is read under its name (or the placeholder
/// when the name is not text), then there is one summary per submodule, or
/// the error of the first status that could not be read.
pub fn submodules_from(repo: &Repository, subs: Vec<SubmoduleInfo>) -> (r: Result<Vec<SubmoduleSummary>, SnapshotError>)
    ensures
        r matches Err(e) ==> e is Git,
        r matches Ok(v) ==> sorted_by_key(v@) && v@.len() == subs@.len(),
{
    let ghost n = subs@.len();
    let mut rest = subs;
    let mut reads: Vec<Result<SubmoduleRead, GitError>> = Vec::new();
    while rest.len() > 0
        invariant
            reads@.len() + rest@.len() == n,
        decreases rest.len(),
    {
        let info = rest.remove(0);
        let name = name_or_placeholder(info.name.clone());
        let read = match git::submodule_status(repo, name.as_str()) {
            Ok(status) => Ok(SubmoduleRead { info, status }),
            Err(e) => Err(e),
        };
        reads.push(read);
    }
    submodule_summaries(reads)
}

/// Reads the submodules, sorted by name: none for a bare repository, else
/// one summary per submodule listed.
pub fn read_submodules(repo: &Repository) -> (r: Result<Vec<SubmoduleSummary>, SnapshotError>)
    ensures
        r matches Err(e) ==> e is Git,
        r matches Ok(v) ==> sorted_by_key(v@),
{
    if git::is_bare(repo) {
        return Ok(Vec::new());
    }
    submodules_from(repo, git_error(git::submodules(repo))?)
}

/// The default snapshot options: ignored paths are not listed.
pub fn default_options() -> (r: SnapshotOptions)
    ensures
        !r.include_ignored,
{
    SnapshotOptions { include_ignored: false }
}

/// Reads a full snapshot of the repository that contains `path`, with the
/// default options.
pub fn snapshot_repository(path: &str) -> (r: Result<RepositorySnapshot, SnapshotError>)
    ensures
        r matches Ok(s) ==> is_read_snapshot(s, false),
        r matches Err(SnapshotError::NotRepository { path: p }) ==> p@ == path@,
{
    snapshot_repository_with_options(path, default_options())
}

/// Reads a full snapshot of the repository that contains `path`.
pub fn snapshot_repository_with_options(path: &str, options: SnapshotOptions) -> (r: Result<RepositorySnapshot, SnapshotError>)
    ensures
        r matches Ok(s) ==> is_read_snapshot(s, options.include_ignored),
        r matches Err(SnapshotError::NotRepository { path: p }) ==> p@ == path@,
{
    let mut repo = open_repository(path)?;
    let identity = read_identity(&repo)?;
    let head = read_head(&repo)?;
    let head_commit = read_head_commit(&repo, &head);
    let upstream = read_upstream(&repo, &head)?;
    let paths = read_paths_of(&repo, identity.is_bare, options)?;
    let operation = read_operation(&mut repo);
    let remotes = read_remotes(&repo)?;
    let branches = read_branches(&repo)?;
    let tags = read_tags(&repo)?;
    let stashes = read_stashes(&mut repo)?;
    let worktrees = read_worktrees(&repo)?;
    let submodules = read_submodules(&repo)?;
    Ok(RepositorySnapshot {
        identity,
        head,
        head_commit,
        upstream,
        paths,
        operation,
        remotes,
        branches,
        tags,
        stashes,
        worktrees,
        submodules,
    })
}

/// The sections of `next` outside the domains `d` hold the same data as in
/// `prev`; the HEAD domain covers both HEAD and its commit.
pub open spec fn keeps_unselected(prev: RepositorySnapshot, next: RepositorySnapshot, d: DomainSet) -> bool {
    &&& !d.has(RefreshDomain::Identity) ==> next.identity.same(&prev.identity)
    &&& !d.has(RefreshDomain::Head) ==> next.head.same(&prev.head) && next.head_commit.same(&prev.head_commit)
    &&& !d.has(RefreshDomain::Upstream) ==> next.upstream.same(&prev.upstream)
    &&& !d.has(RefreshDomain::Paths) ==> next.paths.same(&prev.paths)
    &&& !d.has(RefreshDomain::Operation) ==> next.operation.same(&prev.operation)
    &&& !d.has(RefreshDomain::Remotes) ==> next.remotes.same(&prev.remotes)
    &&& !d.has(RefreshDomain::Branches) ==> next.branches.same(&prev.branches)
    &&& !d.has(RefreshDomain::Tags) ==> next.tags.same(&prev.tags)
    &&& !d.has(RefreshDomain::Stashes) ==> next.stashes.same(&prev.stashes)
    &&& !d.has(RefreshDomain::Worktrees) ==> next.worktrees.same(&prev.worktrees)
    &&& !d.has(RefreshDomain::Submodules) ==> next.submodules.same(&prev.submodules)
}

/// Keeping the sections of a copy keeps those of the snapshot it copies.
proof fn lemma_keeps_unselected_same(
    prev: RepositorySnapshot,
    copy: RepositorySnapshot,
    next: RepositorySnapshot,
    d: DomainSet,
)
    requires
        copy.same(&prev),
        keeps_unselected(copy, next, d),
    ensures
        keeps_unselected(prev, next, d),
{
    if !d.has(RefreshDomain::Identity) {
        next.identity.lemma_same_trans(&copy.identity, &prev.identity);
    }
    if !d.has(RefreshDomain::Head) {
        next.head.lemma_same_trans(&copy.head, &prev.head);
    }
    if !d.has(RefreshDomain::Head) {
        next.head_commit.lemma_same_trans(&copy.head_commit, &prev.head_commit);
    }
    if !d.has(RefreshDomain::Upstream) {
        next.upstream.lemma_same_trans(&copy.upstream, &prev.upstream);
    }
    if !d.has(RefreshDomain::Paths) {
        next.paths.lemma_same_trans(&copy.paths, &prev.paths);
    }
    if !d.has(RefreshDomain::Operation) {
        next.operation.lemma_same_trans(&copy.operation, &prev.operation);
    }
    if !d.has(RefreshDomain::Remotes) {
        next.remotes.lemma_same_trans(&copy.remotes, &prev.remotes);
    }
    if !d.has(RefreshDomain::Branches) {
        next.branches.lemma_same_trans(&copy.branches, &prev.branches);
    }
    if !d.has(RefreshDomain::Tags) {
        next.tags.lemma_same_trans(&copy.tags, &prev.tags);
    }
    if !d.has(RefreshDomain::Stashes) {
        next.stashes.lemma_same_trans(&copy.stashes, &prev.stashes);
    }
    if !d.has(RefreshDomain::Worktrees) {
        next.worktrees.lemma_same_trans(&copy.worktrees, &prev.worktrees);
    }
    if !d.has(RefreshDomain::Submodules) {
        next.submodules.lemma_same_trans(&copy.submodules, &prev.submodules);
    }
}

/// The sections of `s` in the domains `d` hold the invariants of sections
/// as they are read: the linked-worktree flag telling the directories
/// apart, a HEAD commit only when HEAD has a target, an upstream only when
/// HEAD is attached to a branch, sorted and repeat-free path sets, sorted
/// operation heads with a bisect state exactly while bisecting, and sorted
/// remotes, branches, tags, worktrees and submodules.
pub open spec fn domains_well_formed(s: RepositorySnapshot, d: DomainSet) -> bool {
    &&& d.has(RefreshDomain::Identity) ==> s.identity.is_linked_worktree == (s.identity.git_dir@
        != s.identity.common_dir@)
    &&& d.has(RefreshDomain::Head) ==> (s.head.oid is None ==> s.head_commit is None)
    &&& d.has(RefreshDomain::Upstream) ==> (s.head.kind != HeadKind::Attached || s.head.branch is None
        ==> s.upstream is None)
    &&& d.has(RefreshDomain::Paths) ==> {
        &&& sorted_unique(s.paths.staged@)
        &&& sorted_unique(s.paths.unstaged@)
        &&& sorted_unique(s.paths.untracked@)
        &&& sorted_unique(s.paths.ignored@)
        &&& sorted_unique(s.paths.conflicted@)
        &&& sorted_by_key(s.paths.conflicts@)
        &&& sorted_by_key(s.paths.entries@)
    }
    &&& d.has(RefreshDomain::Operation) ==> sorted_by_key(s.operation.heads@) && (s.operation.bisect is Some
        <==> s.operation.kind == OperationKind::Bisect) && bisect_marks_sorted(s.operation)
    &&& d.has(RefreshDomain::Remotes) ==> sorted_by_key(s.remotes@)
    &&& d.has(RefreshDomain::Branches) ==> sorted_by_key(s.branches@)
    &&& d.has(RefreshDomain::Tags) ==> sorted_by_key(s.tags@)
    &&& d.has(RefreshDomain::Worktrees) ==> sorted_by_key(s.worktrees@)
    &&& d.has(RefreshDomain::Submodules) ==> sorted_by_key(s.submodules@)
}

/// Re-reads the sections in `domains`, in the order of the snapshot; the
/// upstream is read against the HEAD the snapshot holds by then. The
/// sections re-read hold the invariants of sections as they are read; the
/// others are kept.
#[verifier::spinoff_prover]
#[verifier::rlimit(60)]
fn read_domains(
    repo: &mut Repository,
    snapshot: &mut RepositorySnapshot,
    domains: &DomainSet,
    options: SnapshotOptions,
) -> (r: Result<(), SnapshotError>)
    ensures
        r matches Err(e) ==> e is Git,
        r is Ok ==> keeps_unselected(*old(snapshot), *final(snapshot), *domains),
        r is Ok ==> domains_well_formed(*final(snapshot), *domains),
        r is Ok && domains.has(RefreshDomain::Paths) && !options.include_ignored ==> final(snapshot).paths.ignored@.len() == 0,
{
    proof {
        old(snapshot).identity.lemma_same_refl();
        old(snapshot).head.lemma_same_refl();
        old(snapshot).head_commit.lemma_same_refl();
        old(snapshot).upstream.lemma_same_refl();
        old(snapshot).paths.lemma_same_refl();
        old(snapshot).operation.lemma_same_refl();
        old(snapshot).remotes.lemma_same_refl();
        old(snapshot).branches.lemma_same_refl();
        old(snapshot).tags.lemma_same_refl();
        old(snapshot).stashes.lemma_same_refl();
        old(snapshot).worktrees.lemma_same_refl();
        old(snapshot).submodules.lemma_same_refl();
    }
    if domains.contains(&RefreshDomain::Identity) {
        snapshot.identity = read_identity(repo)?;
    }
    if domains.contains(&RefreshDomain::Head) {
        snapshot.head = read_head(repo)?;
        snapshot.head_commit = read_head_commit(repo, &snapshot.head);
    }
    if domains.contains(&RefreshDomain::Upstream) {
        snapshot.upstream = read_upstream(repo, &snapshot.head)?;
    }
    if domains.contains(&RefreshDomain::Paths) {
        snapshot.paths = read_paths(repo, options)?;
    }
    if domains.contains(&RefreshDomain::Operation) {
        snapshot.operation = read_operation(repo);
    }
    if domains.contains(&RefreshDomain::Remotes) {
        snapshot.remotes = read_remotes(repo)?;
    }
    if domains.contains(&RefreshDomain::Branches) {
        snapshot.branches = read_branches(repo)?;
    }
    if domains.contains(&RefreshDomain::Tags) {
        snapshot.tags = read_tags(repo)?;
    }
    if domains.contains(&RefreshDomain::Stashes) {
        snapshot.stashes = read_stashes(repo)?;
    }
    if domains.contains(&RefreshDomain::Worktrees) {
        snapshot.worktrees = read_worktrees(repo)?;
    }
    if domains.contains(&RefreshDomain::Submodules) {
        snapshot.submodules = read_submodules(repo)?;
    }
    Ok(())
}

/// Re-reads the sections in `domains`, in the order of the snapshot; the
/// upstream is read against the HEAD the snapshot holds by then. The
/// sections re-read hold the invariants of sections as they are read; the
/// others are kept. With no domain, nothing is read and the snapshot stays
/// as it was.
pub fn refresh_domains(
    repo: &mut Repository,
    snapshot: &mut RepositorySnapshot,
    domains: &DomainSet,
    options: SnapshotOptions,
) -> (r: Result<(), SnapshotError>)
    ensures
        r matches Err(e) ==> e is Git,
        r is Ok ==> keeps_unselected(*old(snapshot), *final(snapshot), *domains),
        r is Ok ==> domains_well_formed(*final(snapshot), *domains),
        r is Ok && domains.has(RefreshDomain::Paths) && !options.include_ignored ==> final(snapshot).paths.ignored@.len() == 0,
        domains.spec_is_empty() ==> r is Ok && *final(snapshot) == *old(snapshot),
{
    if domains.is_empty() {
        proof {
            lemma_keeps_all(*snapshot, *domains);
        }
        return Ok(());
    }
    read_domains(repo, snapshot, domains, options)
}

/// A snapshot keeps its own sections.
proof fn lemma_keeps_all(s: RepositorySnapshot, d: DomainSet)
    ensures
        keeps_unselected(s, s, d),
{
    s.identity.lemma_same_refl();
    s.head.lemma_same_refl();
    s.head_commit.lemma_same_refl();
    s.upstream.lemma_same_refl();
    s.paths.lemma_same_refl();
    s.operation.lemma_same_refl();
    s.remotes.lemma_same_refl();
    s.branches.lemma_same_refl();
    s.tags.lemma_same_refl();
    s.stashes.lemma_same_refl();
    s.worktrees.lemma_same_refl();
    s.submodules.lemma_same_refl();
}


/// A refreshed snapshot and the plan that was carried out.
#[derive(Debug, Clone, PartialEq, Eq)]
pub struct SnapshotRefresh {
    pub snapshot: RepositorySnapshot,
    pub plan: RefreshPlan,
}

/// Brings a snapshot up to date following a refresh plan. Without a previous
/// snapshot, or for the full plan, a full snapshot is read. The empty plan
/// gives back the previous snapshot. A plan of domains re-reads those
/// sections and keeps the others from the previous snapshot.
pub fn refresh_repository_with_plan(
    path: &str,
    previous: Option<&RepositorySnapshot>,
    plan: &RefreshPlan,
    options: SnapshotOptions,
) -> (r: Result<SnapshotRefresh, SnapshotError>)
    ensures
        r matches Err(SnapshotError::NotRepository { path: p }) ==> p@ == path@,
        previous is None ==> (r matches Ok(x) ==> x.plan == RefreshPlan::Full && sections_well_formed(x.snapshot)),
        previous is None || *plan == RefreshPlan::Full ==> (!options.include_ignored ==> (r matches Ok(x)
            ==> x.snapshot.paths.ignored@.len() == 0)),
        previous is Some ==> (*plan matches RefreshPlan::Domains(d) && d.has(RefreshDomain::Paths) && !options.include_ignored
            ==> (r matches Ok(x) ==> x.snapshot.paths.ignored@.len() == 0)),
        previous is Some ==> match *plan {
            RefreshPlan::Nothing => r matches Ok(x) && x.plan == RefreshPlan::Nothing && x.snapshot.same(previous->0),
            RefreshPlan::Full => r matches Ok(x) ==> x.plan == RefreshPlan::Full && sections_well_formed(x.snapshot),
            RefreshPlan::Domains(d) => r matches Ok(x) ==> x.plan == *plan && keeps_unselected(*previous->0, x.snapshot, d)
                && domains_well_formed(x.snapshot, d),
        },
{
    let previous = match previous {
        Some(p) => p,
        None => {
            let snapshot = snapshot_repository_with_options(path, options)?;
            return Ok(SnapshotRefresh { snapshot, plan: RefreshPlan::Full });
        },
    };
    match plan {
        RefreshPlan::Nothing => Ok(SnapshotRefresh { snapshot: previous.duplicate(), plan: RefreshPlan::Nothing }),
        RefreshPlan::Full => {
            let snapshot = snapshot_repository_with_options(path, options)?;
            Ok(SnapshotRefresh { snapshot, plan: RefreshPlan::Full })
        },
        RefreshPlan::Domains(domains) => {
            let mut repo = open_repository(path)?;
            let mut snapshot = previous.duplicate();
            let ghost copy = snapshot;
            refresh_domains(&mut repo, &mut snapshot, domains, options)?;
            proof {
                lemma_keeps_unselected_same(*previous, copy, snapshot, *domains);
            }
            Ok(SnapshotRefresh { snapshot, plan: *plan })
        },
    }
}

} // verus!

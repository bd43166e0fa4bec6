//! Reading repository state through libgit2 (the `git2` crate).
//!
//! Every function here calls into `git2` and turns what comes back into plain
//! values. What they return depends on the repository on disk, so their
//! contracts claim nothing about it beyond its shape.
use git2::string_array::StringArray;
use git2::{BranchType, ErrorCode, ObjectType, Oid, Repository, RepositoryState, Status};
use vstd::prelude::*;

use crate::error::{GitError, GitErrorCode};
use crate::model::{
    BranchKind, CommitSummary, ConflictSide, GitObjectKind, OperationKind, StashSummary, SubmoduleState,
};

verus! {

#[verifier::external_type_specification]
#[verifier::external_body]
pub struct ExRepository(git2::Repository);

#[verifier::external_type_specification]
#[verifier::external_body]
pub struct ExGitError(git2::Error);

#[verifier::external_type_specification]
#[verifier::external_body]
pub struct ExBranch<'a>(git2::Branch<'a>);

#[verifier::external_type_specification]
#[verifier::external_body]
pub struct ExBranchType(git2::BranchType);

#[verifier::external_type_specification]
#[verifier::external_body]
pub struct ExStatus(git2::Status);

#[verifier::external_type_specification]
#[verifier::external_body]
pub struct ExStatusEntry<'a>(git2::StatusEntry<'a>);

#[verifier::external_type_specification]
#[verifier::external_body]
pub struct ExIndexEntry(git2::IndexEntry);

#[verifier::external_type_specification]
#[verifier::external_body]
pub struct ExObjectType(git2::ObjectType);

#[verifier::external_type_specification]
#[verifier::external_body]
pub struct ExStringArray(git2::string_array::StringArray);

#[verifier::external_type_specification]
#[verifier::external_body]
pub struct ExTag<'a>(git2::Tag<'a>);

#[verifier::external_type_specification]
#[verifier::external_body]
pub struct ExSubmoduleStatus(git2::SubmoduleStatus);

/// Turns a `git2::Error` into the library's error: its code (as far as the
/// library tells codes apart) and its `Display` text. Nothing is claimed.
#[verifier::external_body]
fn convert_error(e: git2::Error) -> GitError {
    let code = match e.code() {
        ErrorCode::NotFound => GitErrorCode::NotFound,
        ErrorCode::UnbornBranch => GitErrorCode::UnbornBranch,
        _ => GitErrorCode::Other,
    };
    GitError { code, message: e.to_string() }
}

/// Calls `Repository::discover` on `path`.
#[verifier::external_body]
pub(crate) fn discover(path: &str) -> (r: Result<Repository, GitError>) {
    Repository::discover(path).map_err(convert_error)
}

/// Calls `Repository::workdir`: the working tree, for a non-bare repository.
#[verifier::external_body]
pub(crate) fn workdir(repo: &Repository) -> (r: Option<String>) {
    repo.workdir().map(|p| p.to_string_lossy().into_owned())
}

/// Calls `Repository::path`: the Git directory.
#[verifier::external_body]
pub(crate) fn git_dir(repo: &Repository) -> (r: String) {
    repo.path().to_string_lossy().into_owned()
}

/// Calls `Repository::commondir`: the directory shared by all worktrees.
#[verifier::external_body]
pub(crate) fn common_dir(repo: &Repository) -> (r: String) {
    repo.commondir().to_string_lossy().into_owned()
}

/// Calls `Repository::namespace`.
#[verifier::external_body]
pub(crate) fn namespace(repo: &Repository) -> (r: Option<String>) {
    repo.namespace().ok().flatten().map(|n| n.to_string())
}

/// Calls `Repository::is_bare`.
#[verifier::external_body]
pub(crate) fn is_bare(repo: &Repository) -> (r: bool) {
    repo.is_bare()
}

/// Calls `Repository::is_shallow`.
#[verifier::external_body]
pub(crate) fn is_shallow(repo: &Repository) -> (r: bool) {
    repo.is_shallow()
}

/// What HEAD resolves to.
pub struct HeadRef {
    pub is_branch: bool,
    pub name: Option<String>,
    pub shorthand: Option<String>,
    pub target: Option<String>,
}

/// Calls `Repository::head` and reads the reference it returns.
#[verifier::external_body]
pub(crate) fn head(repo: &Repository) -> (r: Result<HeadRef, GitError>) {
    match repo.head() {
        Ok(h) => Ok(HeadRef {
            is_branch: h.is_branch(),
            name: h.name().ok().map(|s| s.to_string()),
            shorthand: h.shorthand().ok().map(|s| s.to_string()),
            target: h.target().map(|o| o.to_string()),
        }),
        Err(e) => Err(convert_error(e)),
    }
}

/// Calls `Repository::references` and takes the first item: `Ok(false)` when
/// there is none, `Ok(true)` when it is a reference.
#[verifier::external_body]
pub(crate) fn has_references(repo: &Repository) -> (r: Result<bool, GitError>) {
    match repo.references() {
        Ok(mut refs) => match refs.next() {
            None => Ok(false),
            Some(Ok(_)) => Ok(true),
            Some(Err(e)) => Err(convert_error(e)),
        },
        Err(e) => Err(convert_error(e)),
    }
}

/// Calls `Repository::find_commit` on the object id `oid` and reads the commit
/// (`None` when the id does not parse or no such commit can be read).
#[verifier::external_body]
pub(crate) fn find_commit(repo: &Repository, oid: &str) -> (r: Option<CommitSummary>) {
    let commit = repo.find_commit(Oid::from_str(oid).ok()?).ok()?;
    let author = commit.author();
    Some(CommitSummary {
        oid: commit.id().to_string(),
        parent_oids: commit.parent_ids().map(|p| p.to_string()).collect(),
        summary: commit.summary().ok().flatten().map(|s| s.to_string()),
        author_name: author.name().ok().map(|s| s.to_string()),
        author_email: author.email().ok().map(|s| s.to_string()),
        time_seconds: commit.time().seconds(),
    })
}

/// The upstream of a branch.
pub struct UpstreamRef {
    pub name: Result<Option<String>, GitError>,
    pub target: Option<String>,
}

/// A branch as libgit2 reads it.
pub struct BranchRef {
    pub name: Result<Option<String>, GitError>,
    pub kind: BranchKind,
    pub is_head: bool,
    pub target: Option<String>,
    pub upstream: Result<UpstreamRef, GitError>,
}

/// Reads a branch: name, kind, whether HEAD points at it, target, and upstream.
#[verifier::external_body]
fn convert_branch(b: &git2::Branch<'_>, kind: BranchType) -> BranchRef {
    BranchRef {
        name: b.name().map(|n| n.map(|s| s.to_string())).map_err(convert_error),
        kind: match kind {
            BranchType::Local => BranchKind::Local,
            BranchType::Remote => BranchKind::Remote,
        },
        is_head: b.is_head(),
        target: b.get().target().map(|o| o.to_string()),
        upstream: b.upstream().map(|u| UpstreamRef {
            name: u.name().map(|n| n.map(|s| s.to_string())).map_err(convert_error),
            target: u.get().target().map(|o| o.to_string()),
        }).map_err(convert_error),
    }
}

/// Calls `Repository::find_branch` for the local branch `name`.
#[verifier::external_body]
pub(crate) fn find_local_branch(repo: &Repository, name: &str) -> (r: Result<BranchRef, GitError>) {
    match repo.find_branch(name, BranchType::Local) {
        Ok(b) => Ok(convert_branch(&b, BranchType::Local)),
        Err(e) => Err(convert_error(e)),
    }
}

/// Calls `Repository::branches` for all branches, reading each one.
#[verifier::external_body]
pub(crate) fn branches(repo: &Repository) -> (r: Result<Vec<Result<BranchRef, GitError>>, GitError>) {
    match repo.branches(None) {
        Ok(it) => Ok(it.map(|b| match b {
            Ok((b, kind)) => Ok(convert_branch(&b, kind)),
            Err(e) => Err(convert_error(e)),
        }).collect()),
        Err(e) => Err(convert_error(e)),
    }
}

/// Calls `Repository::graph_ahead_behind` on two object ids (an error when an
/// id does not parse).
#[verifier::external_body]
pub(crate) fn ahead_behind(repo: &Repository, local: &str, upstream: &str) -> (r: Result<(usize, usize), GitError>) {
    let local = Oid::from_str(local).map_err(convert_error)?;
    let upstream = Oid::from_str(upstream).map_err(convert_error)?;
    repo.graph_ahead_behind(local, upstream).map_err(convert_error)
}

/// One status entry: its path (`None` when it cannot be read), its status
/// flags, and the old and new paths of its index and working-tree changes.
pub struct StatusItem {
    pub path: Option<String>,
    /// Index new, modified, deleted, renamed, type-changed.
    pub index: (bool, bool, bool, bool, bool),
    /// Working tree new, modified, deleted, type-changed, renamed, unreadable.
    pub workdir: (bool, bool, bool, bool, bool, bool),
    /// Ignored, conflicted.
    pub other: (bool, bool),
    pub staged_old_path: Option<String>,
    pub staged_new_path: Option<String>,
    pub workdir_old_path: Option<String>,
    pub workdir_new_path: Option<String>,
}

/// Reads the index-side flags of a status.
#[verifier::external_body]
fn index_status_flags(s: Status) -> (bool, bool, bool, bool, bool) {
    (s.contains(Status::INDEX_NEW), s.contains(Status::INDEX_MODIFIED),
        s.contains(Status::INDEX_DELETED), s.contains(Status::INDEX_RENAMED),
        s.contains(Status::INDEX_TYPECHANGE))
}

/// Reads the working-tree-side flags of a status.
#[verifier::external_body]
fn workdir_status_flags(s: Status) -> (bool, bool, bool, bool, bool, bool) {
    (s.contains(Status::WT_NEW), s.contains(Status::WT_MODIFIED), s.contains(Status::WT_DELETED),
        s.contains(Status::WT_TYPECHANGE), s.contains(Status::WT_RENAMED),
        s.contains(Status::WT_UNREADABLE))
}

/// Reads the ignored and conflicted flags of a status.
#[verifier::external_body]
fn other_status_flags(s: Status) -> (bool, bool) {
    (s.contains(Status::IGNORED), s.contains(Status::CONFLICTED))
}

/// Reads the old and new paths of a status entry's index change and of its
/// working-tree change.
#[verifier::external_body]
fn change_paths(e: &git2::StatusEntry<'_>) -> (Option<String>, Option<String>, Option<String>, Option<String>) {
    let text = |p: Option<&std::path::Path>| p.map(|p| p.to_string_lossy().into_owned());
    let (staged, workdir) = (e.head_to_index(), e.index_to_workdir());
    (staged.as_ref().and_then(|d| text(d.old_file().path())), staged.as_ref().and_then(|d| text(d.new_file().path())),
        workdir.as_ref().and_then(|d| text(d.old_file().path())), workdir.as_ref().and_then(|d| text(d.new_file().path())))
}

/// Reads one status entry: its path, status flags, and the old and new paths
/// of its index and working-tree changes.
#[verifier::external_body]
fn convert_status_entry(e: &git2::StatusEntry<'_>) -> StatusItem {
    let (staged_old_path, staged_new_path, workdir_old_path, workdir_new_path) = change_paths(e);
    StatusItem {
        path: e.path().ok().map(|s| s.to_string()),
        index: index_status_flags(e.status()),
        workdir: workdir_status_flags(e.status()),
        other: other_status_flags(e.status()),
        staged_old_path, staged_new_path, workdir_old_path, workdir_new_path,
    }
}

/// What a status listing compares, as `StatusShow` tells it.
#[derive(Debug, Clone, Copy, PartialEq, Eq, Structural)]
pub enum StatusScope {
    IndexAndWorkdir,
    Index,
    Workdir,
}

/// The options of a status listing, one for each `StatusOptions` setter.
#[derive(Debug, Clone, Copy, PartialEq, Eq, Structural)]
pub struct StatusRequest {
    pub scope: StatusScope,
    pub include_untracked: bool,
    pub recurse_untracked_dirs: bool,
    pub include_ignored: bool,
    pub renames_head_to_index: bool,
    pub renames_index_to_workdir: bool,
}

/// Calls `Repository::statuses` with `StatusOptions` set from `request`, and
/// reads each entry. Claims what libgit2's
/// `GIT_STATUS_OPT_INCLUDE_IGNORED` documents: without it, no entry comes
/// back ignored.
#[verifier::external_body]
pub(crate) fn statuses(repo: &Repository, request: StatusRequest) -> (r: Result<Vec<StatusItem>, GitError>)
    ensures
        !request.include_ignored ==> (r matches Ok(items) ==> forall|i: int|
            0 <= i < items@.len() ==> !(#[trigger] items@[i]).other.0),
{
    let mut opts = git2::StatusOptions::new();
    let show = match request.scope {
        StatusScope::IndexAndWorkdir => git2::StatusShow::IndexAndWorkdir,
        StatusScope::Index => git2::StatusShow::Index,
        StatusScope::Workdir => git2::StatusShow::Workdir,
    };
    opts.show(show).include_untracked(request.include_untracked)
        .recurse_untracked_dirs(request.recurse_untracked_dirs).include_ignored(request.include_ignored)
        .renames_head_to_index(request.renames_head_to_index).renames_index_to_workdir(request.renames_index_to_workdir);
    let statuses = repo.statuses(Some(&mut opts)).map_err(convert_error)?;
    Ok(statuses.iter().map(|e| convert_status_entry(&e)).collect())
}

/// A status listing, kept together with the options it was asked with. Only
/// `status_listing` makes one.
pub struct StatusListing {
    request: StatusRequest,
    items: Vec<StatusItem>,
}

impl StatusListing {
    /// The options the listing was asked with.
    pub closed spec fn asked(&self) -> StatusRequest {
        self.request
    }

    /// The entries of the listing, in the order they came.
    pub closed spec fn entries(&self) -> Seq<StatusItem> {
        self.items@
    }

    /// The entries of the listing.
    pub fn items(&self) -> (r: &Vec<StatusItem>)
        ensures
            r@ == self.entries(),
    {
        &self.items
    }
}

/// Lists the status of the repository with the options `request`
/// (`Repository::statuses`), keeping the options with the entries: without
/// ignored files asked for, no entry comes back ignored.
pub fn status_listing(repo: &Repository, request: StatusRequest) -> (r: Result<StatusListing, GitError>)
    ensures
        r matches Ok(l) ==> l.asked() == request,
        !request.include_ignored ==> (r matches Ok(l) ==> forall|i: int|
            0 <= i < l.entries().len() ==> !(#[trigger] l.entries()[i]).other.0),
{
    match statuses(repo, request) {
        Ok(items) => Ok(StatusListing { request, items }),
        Err(e) => Err(e),
    }
}

/// The stages of one conflicted index entry.
pub struct IndexConflictInfo {
    pub ancestor: Option<ConflictSide>,
    pub ours: Option<ConflictSide>,
    pub theirs: Option<ConflictSide>,
}

/// Reads an index entry's path, id and mode.
#[verifier::external_body]
fn convert_side(e: git2::IndexEntry) -> ConflictSide {
    ConflictSide { path: String::from_utf8_lossy(&e.path).into_owned(), oid: e.id.to_string(), mode: e.mode }
}

/// Calls `Index::conflicts` on the repository's index and reads each conflict.
#[verifier::external_body]
pub(crate) fn index_conflicts(repo: &Repository) -> (r: Result<Vec<Result<IndexConflictInfo, GitError>>, GitError>) {
    let index = repo.index().map_err(convert_error)?;
    let conflicts = index.conflicts().map_err(convert_error)?;
    Ok(conflicts.map(|c| c.map(|c| IndexConflictInfo {
        ancestor: c.ancestor.map(convert_side),
        ours: c.our.map(convert_side),
        theirs: c.their.map(convert_side),
    }).map_err(convert_error)).collect())
}

/// The assume-unchanged and skip-worktree flags of one index entry.
pub struct IndexFlags {
    pub path: String,
    pub assume_unchanged: bool,
    pub skip_worktree: bool,
}

/// Calls `Index::iter` on the repository's index and reads each entry's flags.
#[verifier::external_body]
pub(crate) fn index_flags(repo: &Repository) -> (r: Result<Vec<IndexFlags>, GitError>) {
    let index = repo.index().map_err(convert_error)?;
    Ok(index.iter().map(|e| IndexFlags {
        path: String::from_utf8_lossy(&e.path).into_owned(),
        assume_unchanged: git2::IndexEntryFlag::from_bits_truncate(e.flags).is_valid(),
        skip_worktree: git2::IndexEntryExtendedFlag::from_bits_truncate(e.flags_extended).is_skip_worktree(),
    }).collect())
}

/// Calls `Repository::state`.
#[verifier::external_body]
pub(crate) fn state(repo: &Repository) -> (r: OperationKind) {
    match repo.state() {
        RepositoryState::Clean => OperationKind::Clean,
        RepositoryState::Merge => OperationKind::Merge,
        RepositoryState::Revert => OperationKind::Revert,
        RepositoryState::RevertSequence => OperationKind::RevertSequence,
        RepositoryState::CherryPick => OperationKind::CherryPick,
        RepositoryState::CherryPickSequence => OperationKind::CherryPickSequence,
        RepositoryState::Bisect => OperationKind::Bisect,
        RepositoryState::Rebase => OperationKind::Rebase,
        RepositoryState::RebaseInteractive => OperationKind::RebaseInteractive,
        RepositoryState::RebaseMerge => OperationKind::RebaseMerge,
        RepositoryState::ApplyMailbox => OperationKind::ApplyMailbox,
        RepositoryState::ApplyMailboxOrRebase => OperationKind::ApplyMailboxOrRebase,
    }
}

/// Reads the file at `path` as bytes (`None` when it is missing, a
/// directory, or cannot be read). The bytes are read by
/// `Repository::blob_path` on a repository made from an empty object
/// database with only an in-memory (mempack) backend, and given back by
/// `Repository::find_blob`: nothing is written to disk, and without a
/// working tree libgit2 applies no filter. Nothing is claimed: the bytes are
/// whatever is on disk.
#[verifier::external_body]
pub(crate) fn file_bytes(path: &str) -> (r: Option<Vec<u8>>) {
    let odb = git2::Odb::new().ok()?;
    odb.add_new_mempack_backend(1).ok()?;
    let scratch = Repository::from_odb(odb).ok()?;
    let blob = scratch.find_blob(scratch.blob_path(std::path::Path::new(path)).ok()?).ok()?;
    Some(blob.content().to_vec())
}

/// Calls `String::from_utf8_lossy`: the bytes as text, each invalid
/// sequence replaced by U+FFFD. Nothing is claimed.
#[verifier::external_body]
pub(crate) fn lossy_text(bytes: &Vec<u8>) -> (r: String) {
    String::from_utf8_lossy(bytes).into_owned()
}

/// Calls `String::from_utf8`: the bytes as text when they are UTF-8
/// (`None` otherwise). Nothing is claimed.
#[verifier::external_body]
pub(crate) fn utf8_text(bytes: Vec<u8>) -> (r: Option<String>) {
    String::from_utf8(bytes).ok()
}

/// Whether `c` is a hexadecimal digit, in either case.
pub open spec fn is_hex_digit(c: char) -> bool {
    ('0' <= c && c <= '9') || ('a' <= c && c <= 'f') || ('A' <= c && c <= 'F')
}

/// Whether `text` parses as an object id, as `Oid::from_str` documents it:
/// not empty, at most 40 characters, all hexadecimal digits.
pub open spec fn oid_text_valid(text: Seq<char>) -> bool {
    &&& 0 < text.len() <= 40
    &&& forall|i: int| 0 <= i < text.len() ==> is_hex_digit(#[trigger] text[i])
}

/// Calls `Oid::from_str`. Claims what its documentation lists: it fails
/// exactly on an empty text, one longer than 40 hexadecimal digits, or one
/// with a character that is not a hexadecimal digit.
#[verifier::external_body]
pub(crate) fn oid_parses(text: &str) -> (r: bool)
    ensures
        r == oid_text_valid(text@),
{
    Oid::from_str(text).is_ok()
}

/// Calls `Iterator::collect` into a `String`: the characters in order.
#[verifier::external_body]
pub(crate) fn text_of_chars(chars: &Vec<char>) -> (r: String)
    ensures
        r@ == chars@,
{
    chars.iter().collect()
}

/// Calls `Repository::find_reference` and reads the reference's target id
/// (`None` when there is no such reference or it is symbolic).
#[verifier::external_body]
pub(crate) fn reference_target(repo: &Repository, name: &str) -> (r: Option<String>) {
    repo.find_reference(name).ok()?.target().map(|o| o.to_string())
}

/// Calls `Repository::find_reference` and reads the reference's symbolic
/// target (`None` when there is no such reference or it is direct).
#[verifier::external_body]
pub(crate) fn reference_symbolic_target(repo: &Repository, name: &str) -> (r: Option<String>) {
    repo.find_reference(name).ok()?.symbolic_target().ok().flatten().map(|s| s.to_string())
}

/// A reference: its name (`None` when it cannot be read) and target id.
pub struct RefInfo {
    pub name: Option<String>,
    pub target: Option<String>,
}

/// Calls `Repository::references` and reads each reference (`None` for items
/// that cannot be read, and for the whole list on error).
#[verifier::external_body]
pub(crate) fn references(repo: &Repository) -> (r: Option<Vec<Option<RefInfo>>>) {
    let refs = repo.references().ok()?;
    Some(refs.map(|r| r.ok().map(|r| RefInfo {
        name: r.name().ok().map(|s| s.to_string()),
        target: r.target().map(|o| o.to_string()),
    })).collect())
}

/// Calls `Repository::remotes`; names that cannot be read come back as `None`.
#[verifier::external_body]
pub(crate) fn remote_names(repo: &Repository) -> (r: Result<Vec<Option<String>>, GitError>) {
    let names = repo.remotes().map_err(convert_error)?;
    Ok(names.iter().map(|n| n.ok().flatten().map(|s| s.to_string())).collect())
}

/// A configured remote as libgit2 reads it; refspecs that cannot be read
/// come back as `None`.
pub struct RemoteInfo {
    pub url: Option<String>,
    pub push_url: Option<String>,
    pub fetch_refspecs: Vec<Option<String>>,
    pub push_refspecs: Vec<Option<String>>,
}

/// Reads the items of a string array (`None` for those that are not text).
#[verifier::external_body]
fn convert_strings(a: StringArray) -> Vec<Option<String>> {
    a.iter().map(|s| s.ok().flatten().map(|s| s.to_string())).collect()
}

/// Calls `Repository::find_remote` and reads the remote: its URLs and its
/// fetch and push refspecs (an error when any of these lookups fails).
#[verifier::external_body]
pub(crate) fn find_remote(repo: &Repository, name: &str) -> (r: Result<RemoteInfo, GitError>) {
    let remote = repo.find_remote(name).map_err(convert_error)?;
    Ok(RemoteInfo {
        url: remote.url().ok().map(|s| s.to_string()),
        push_url: remote.pushurl().ok().flatten().map(|s| s.to_string()),
        fetch_refspecs: convert_strings(remote.fetch_refspecs().map_err(convert_error)?),
        push_refspecs: convert_strings(remote.push_refspecs().map_err(convert_error)?),
    })
}

/// Calls `Repository::tag_names`; names that cannot be read come back as `None`.
#[verifier::external_body]
pub(crate) fn tag_names(repo: &Repository) -> (r: Result<Vec<Option<String>>, GitError>) {
    let names = repo.tag_names(None).map_err(convert_error)?;
    Ok(names.iter().map(|n| n.ok().flatten().map(|s| s.to_string())).collect())
}

/// Who made a tag, and when.
pub struct TaggerInfo {
    pub name: Option<String>,
    pub email: Option<String>,
    pub time_seconds: i64,
}

/// What a tag name resolves to.
pub enum TagObject {
    Annotated {
        oid: String,
        target_oid: String,
        target_kind: Option<GitObjectKind>,
        tagger: Option<TaggerInfo>,
        message: Option<String>,
    },
    Plain { oid: String, kind: Option<GitObjectKind> },
}

/// Tells the object types apart (`None` for `Any` and for no type).
#[verifier::external_body]
fn convert_kind(kind: Option<ObjectType>) -> Option<GitObjectKind> {
    match kind? {
        ObjectType::Commit => Some(GitObjectKind::Commit),
        ObjectType::Tree => Some(GitObjectKind::Tree),
        ObjectType::Blob => Some(GitObjectKind::Blob),
        ObjectType::Tag => Some(GitObjectKind::Tag),
        ObjectType::Any => None,
    }
}

/// Reads an annotated tag: its id, target, tagger and message.
#[verifier::external_body]
fn convert_tag(tag: &git2::Tag<'_>) -> TagObject {
    TagObject::Annotated {
        oid: tag.id().to_string(),
        target_oid: tag.target_id().to_string(),
        target_kind: convert_kind(tag.target_type()),
        tagger: tag.tagger().map(|t| TaggerInfo {
            name: t.name().ok().map(|s| s.to_string()),
            email: t.email().ok().map(|s| s.to_string()),
            time_seconds: t.when().seconds(),
        }),
        message: tag.message().ok().flatten().map(|s| s.to_string()),
    }
}

/// Calls `Repository::revparse_single` on the reference `refname` and reads
/// the object.
#[verifier::external_body]
pub(crate) fn resolve_tag(repo: &Repository, refname: &str) -> (r: Result<TagObject, GitError>) {
    let object = repo.revparse_single(refname).map_err(convert_error)?;
    Ok(match object.as_tag() {
        Some(tag) => convert_tag(tag),
        None => TagObject::Plain { oid: object.id().to_string(), kind: convert_kind(object.kind()) },
    })
}

/// Calls `Repository::reflog` on `refs/stash`, the log that
/// `Repository::stash_foreach` walks for the stash list (newest first), and
/// reads every entry: its position, message and new commit id. Messages are
/// read as bytes and converted lossily, so a message that is not UTF-8
/// cannot panic as it does in `stash_foreach`'s callback.
#[verifier::external_body]
pub(crate) fn stashes(repo: &Repository) -> (r: Result<Vec<StashSummary>, GitError>) {
    let reflog = repo.reflog("refs/stash").map_err(convert_error)?;
    Ok(reflog.iter().enumerate().map(|(index, e)| StashSummary {
        index,
        message: String::from_utf8_lossy(e.message_bytes().unwrap_or_default()).into_owned(),
        oid: e.id_new().to_string(),
    }).collect())
}

/// Calls `Repository::worktrees`; names that cannot be read come back as `None`.
#[verifier::external_body]
pub(crate) fn worktree_names(repo: &Repository) -> (r: Result<Vec<Option<String>>, GitError>) {
    let names = repo.worktrees().map_err(convert_error)?;
    Ok(names.iter().map(|n| n.ok().flatten().map(|s| s.to_string())).collect())
}

/// A linked worktree: its path and lock state (`Some(reason)` when locked).
pub struct WorktreeInfo {
    pub path: String,
    pub lock: Result<Option<Option<String>>, GitError>,
}

/// Calls `Repository::find_worktree` and reads the worktree's path.
#[verifier::external_body]
pub(crate) fn find_worktree(repo: &Repository, name: &str) -> (r: Result<String, GitError>) {
    let worktree = repo.find_worktree(name).map_err(convert_error)?;
    Ok(worktree.path().to_string_lossy().into_owned())
}

/// A submodule as libgit2 reads it.
pub struct SubmoduleInfo {
    pub name: Option<String>,
    pub path: String,
    pub url: Option<String>,
    pub branch: Option<String>,
    pub head_oid: Option<String>,
    pub index_oid: Option<String>,
    pub workdir_oid: Option<String>,
}

/// Calls `Repository::submodules` and reads each submodule.
#[verifier::external_body]
pub(crate) fn submodules(repo: &Repository) -> (r: Result<Vec<SubmoduleInfo>, GitError>) {
    let subs = repo.submodules().map_err(convert_error)?;
    Ok(subs.iter().map(|s| SubmoduleInfo {
        name: s.name().ok().map(|n| n.to_string()),
        path: s.path().to_string_lossy().into_owned(),
        url: s.url().ok().flatten().map(|u| u.to_string()),
        branch: s.branch().ok().flatten().map(|b| b.to_string()),
        head_oid: s.head_id().map(|o| o.to_string()),
        index_oid: s.index_id().map(|o| o.to_string()),
        workdir_oid: s.workdir_id().map(|o| o.to_string()),
    }).collect())
}

/// Reads the flags of a submodule status.
#[verifier::external_body]
fn convert_submodule_status(s: git2::SubmoduleStatus) -> SubmoduleState {
    SubmoduleState {
        in_head: s.is_in_head(),
        in_index: s.is_in_index(),
        in_config: s.is_in_config(),
        in_workdir: s.is_in_wd(),
        index_added: s.is_index_added(),
        index_deleted: s.is_index_deleted(),
        index_modified: s.is_index_modified(),
        workdir_uninitialized: s.is_wd_uninitialized(),
        workdir_added: s.is_wd_added(),
        workdir_deleted: s.is_wd_deleted(),
        workdir_modified: s.is_wd_modified(),
        workdir_worktree_modified: s.is_wd_wd_modified(),
        workdir_untracked: s.is_wd_untracked(),
    }
}

/// Calls `Repository::submodule_status` for `name`, with the configured ignore rule.
#[verifier::external_body]
pub(crate) fn submodule_status(repo: &Repository, name: &str) -> (r: Result<SubmoduleState, GitError>) {
    let status = repo.submodule_status(name, git2::SubmoduleIgnore::Unspecified).map_err(convert_error)?;
    Ok(convert_submodule_status(status))
}

/// Calls `Config::get_string` on the repository's configuration (`None` on error).
#[verifier::external_body]
pub(crate) fn config_string(repo: &Repository, key: &str) -> (r: Option<String>) {
    repo.config().ok()?.get_string(key).ok()
}

/// Calls `Repository::status_should_ignore` on a path relative to the working
/// tree (`false` on error).
#[verifier::external_body]
pub(crate) fn should_ignore(repo: &Repository, path: &str) -> (r: bool) {
    repo.status_should_ignore(std::path::Path::new(path)).unwrap_or(false)
}

/// Whether `c` has the Unicode `White_Space` property: tab to carriage
/// return, space, next line, no-break space, Ogham space mark, en quad to
/// hair space, line and paragraph separators, narrow no-break space, medium
/// mathematical space and ideographic space.
pub open spec fn is_white_space(c: char) -> bool {
    let n = c as u32;
    ||| 0x9 <= n <= 0xd
    ||| n == 0x20
    ||| n == 0x85
    ||| n == 0xa0
    ||| n == 0x1680
    ||| 0x2000 <= n <= 0x200a
    ||| n == 0x2028
    ||| n == 0x2029
    ||| n == 0x202f
    ||| n == 0x205f
    ||| n == 0x3000
}

/// What `str::trim_end` leaves of a text: the text without its trailing
/// white space.
pub open spec fn trimmed_end(text: Seq<char>) -> Seq<char>
    decreases text.len(),
{
    if text.len() > 0 && is_white_space(text.last()) {
        trimmed_end(text.drop_last())
    } else {
        text
    }
}

/// Calls `str::trim_end`, which its documentation describes as removing the
/// trailing characters with the `White_Space` property.
#[verifier::external_body]
pub(crate) fn trim_end(text: &str) -> (r: String)
    ensures
        r@ == trimmed_end(text@),
{
    text.trim_end().to_string()
}

} // verus!

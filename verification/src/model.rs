//! The data that a snapshot holds, and value equality on it.
use vstd::prelude::*;

verus! {

/// Equality of values, field by field, as a spec relation and as a check.
pub trait Same: Sized {
    /// The two values hold the same data.
    spec fn same(&self, other: &Self) -> bool;

    /// Checks whether the two values hold the same data.
    fn is_same(&self, other: &Self) -> (r: bool)
        ensures
            r == self.same(other),
    ;

    /// A copy holding the same data.
    fn duplicate(&self) -> (r: Self)
        ensures
            r.same(self),
    ;

    /// Every value is the same as itself.
    proof fn lemma_same_refl(&self)
        ensures
            self.same(self),
    ;

    /// Holding the same data is transitive.
    proof fn lemma_same_trans(&self, b: &Self, c: &Self)
        requires
            self.same(b),
            b.same(c),
        ensures
            self.same(c),
    ;
}

impl Same for String {
    open spec fn same(&self, other: &Self) -> bool {
        self@ == other@
    }

    fn is_same(&self, other: &Self) -> (r: bool) {
        *self == *other
    }

    fn duplicate(&self) -> (r: Self) {
        self.clone()
    }

    proof fn lemma_same_refl(&self) {
    }

    proof fn lemma_same_trans(&self, b: &Self, c: &Self) {
    }
}

impl Same for bool {
    open spec fn same(&self, other: &Self) -> bool {
        *self == *other
    }

    fn is_same(&self, other: &Self) -> (r: bool) {
        *self == *other
    }

    fn duplicate(&self) -> (r: Self) {
        *self
    }

    proof fn lemma_same_refl(&self) {
    }

    proof fn lemma_same_trans(&self, b: &Self, c: &Self) {
    }
}

impl Same for u32 {
    open spec fn same(&self, other: &Self) -> bool {
        *self == *other
    }

    fn is_same(&self, other: &Self) -> (r: bool) {
        *self == *other
    }

    fn duplicate(&self) -> (r: Self) {
        *self
    }

    proof fn lemma_same_refl(&self) {
    }

    proof fn lemma_same_trans(&self, b: &Self, c: &Self) {
    }
}

impl Same for usize {
    open spec fn same(&self, other: &Self) -> bool {
        *self == *other
    }

    fn is_same(&self, other: &Self) -> (r: bool) {
        *self == *other
    }

    fn duplicate(&self) -> (r: Self) {
        *self
    }

    proof fn lemma_same_refl(&self) {
    }

    proof fn lemma_same_trans(&self, b: &Self, c: &Self) {
    }
}

impl Same for i64 {
    open spec fn same(&self, other: &Self) -> bool {
        *self == *other
    }

    fn is_same(&self, other: &Self) -> (r: bool) {
        *self == *other
    }

    fn duplicate(&self) -> (r: Self) {
        *self
    }

    proof fn lemma_same_refl(&self) {
    }

    proof fn lemma_same_trans(&self, b: &Self, c: &Self) {
    }
}

impl<T: Same> Same for Option<T> {
    open spec fn same(&self, other: &Self) -> bool {
        match (self, other) {
            (Some(a), Some(b)) => a.same(b),
            (None, None) => true,
            _ => false,
        }
    }

    fn is_same(&self, other: &Self) -> (r: bool) {
        match (self, other) {
            (Some(a), Some(b)) => a.is_same(b),
            (None, None) => true,
            _ => false,
        }
    }

    fn duplicate(&self) -> (r: Self) {
        match self {
            Some(a) => Some(a.duplicate()),
            None => None,
        }
    }

    proof fn lemma_same_refl(&self) {
        match self {
            Some(a) => a.lemma_same_refl(),
            None => {},
        }
    }

    proof fn lemma_same_trans(&self, b: &Self, c: &Self) {
        match (self, b, c) {
            (Some(x), Some(y), Some(z)) => x.lemma_same_trans(y, z),
            _ => {},
        }
    }
}

impl<T: Same> Same for Vec<T> {
    open spec fn same(&self, other: &Self) -> bool {
        &&& self@.len() == other@.len()
        &&& forall|i: int| 0 <= i < self@.len() ==> (#[trigger] self@[i]).same(&other@[i])
    }

    fn is_same(&self, other: &Self) -> (r: bool) {
        if self.len() != other.len() {
            return false;
        }
        let mut i: usize = 0;
        while i < self.len()
            invariant
                self@.len() == other@.len(),
                i <= self@.len(),
                forall|j: int| 0 <= j < i ==> (#[trigger] self@[j]).same(&other@[j]),
            decreases self.len() - i,
        {
            if !self[i].is_same(&other[i]) {
                return false;
            }
            i = i + 1;
        }
        true
    }

    fn duplicate(&self) -> (r: Self) {
        let mut r: Vec<T> = Vec::new();
        let mut i: usize = 0;
        while i < self.len()
            invariant
                i <= self@.len(),
                r@.len() == i,
                forall|j: int| 0 <= j < i ==> (#[trigger] r@[j]).same(&self@[j]),
            decreases self.len() - i,
        {
            r.push(self[i].duplicate());
            i = i + 1;
        }
        r
    }

    proof fn lemma_same_refl(&self) {
        assert forall|i: int| 0 <= i < self@.len() implies (#[trigger] self@[i]).same(&self@[i]) by {
            self@[i].lemma_same_refl();
        }
    }

    proof fn lemma_same_trans(&self, b: &Self, c: &Self) {
        assert forall|i: int| 0 <= i < self@.len() implies (#[trigger] self@[i]).same(&c@[i]) by {
            self@[i].lemma_same_trans(&b@[i], &c@[i]);
        }
    }
}

/// How HEAD points into the repository.
#[derive(Debug, Clone, Copy, PartialEq, Eq, Structural, PartialOrd, Ord, Hash)]
pub enum HeadKind {
    Attached,
    Detached,
    Unborn,
    Missing,
}

impl Same for HeadKind {
    open spec fn same(&self, other: &Self) -> bool {
        *self == *other
    }

    fn is_same(&self, other: &Self) -> (r: bool) {
        *self == *other
    }

    fn duplicate(&self) -> (r: Self) {
        *self
    }

    proof fn lemma_same_refl(&self) {
    }

    proof fn lemma_same_trans(&self, b: &Self, c: &Self) {
    }
}

/// Which in-progress operation recorded an operation head.
#[derive(Debug, Clone, Copy, PartialEq, Eq, Structural, PartialOrd, Ord, Hash)]
pub enum OperationHeadRole {
    Merge,
    Rebase,
    CherryPick,
    Revert,
}

impl Same for OperationHeadRole {
    open spec fn same(&self, other: &Self) -> bool {
        *self == *other
    }

    fn is_same(&self, other: &Self) -> (r: bool) {
        *self == *other
    }

    fn duplicate(&self) -> (r: Self) {
        *self
    }

    proof fn lemma_same_refl(&self) {
    }

    proof fn lemma_same_trans(&self, b: &Self, c: &Self) {
    }
}

/// The multi-step operation that is in progress, if any.
#[derive(Debug, Clone, Copy, PartialEq, Eq, Structural, PartialOrd, Ord, Hash)]
pub enum OperationKind {
    Clean,
    Merge,
    Revert,
    RevertSequence,
    CherryPick,
    CherryPickSequence,
    Bisect,
    Rebase,
    RebaseInteractive,
    RebaseMerge,
    ApplyMailbox,
    ApplyMailboxOrRebase,
}

impl Same for OperationKind {
    open spec fn same(&self, other: &Self) -> bool {
        *self == *other
    }

    fn is_same(&self, other: &Self) -> (r: bool) {
        *self == *other
    }

    fn duplicate(&self) -> (r: Self) {
        *self
    }

    proof fn lemma_same_refl(&self) {
    }

    proof fn lemma_same_trans(&self, b: &Self, c: &Self) {
    }
}

/// Whether a branch is local or remote-tracking.
#[derive(Debug, Clone, Copy, PartialEq, Eq, Structural, PartialOrd, Ord, Hash)]
pub enum BranchKind {
    Local,
    Remote,
}

impl Same for BranchKind {
    open spec fn same(&self, other: &Self) -> bool {
        *self == *other
    }

    fn is_same(&self, other: &Self) -> (r: bool) {
        *self == *other
    }

    fn duplicate(&self) -> (r: Self) {
        *self
    }

    proof fn lemma_same_refl(&self) {
    }

    proof fn lemma_same_trans(&self, b: &Self, c: &Self) {
    }
}

/// Whether a tag is a plain reference or a tag object.
#[derive(Debug, Clone, Copy, PartialEq, Eq, Structural, PartialOrd, Ord, Hash)]
pub enum TagKind {
    Lightweight,
    Annotated,
}

impl Same for TagKind {
    open spec fn same(&self, other: &Self) -> bool {
        *self == *other
    }

    fn is_same(&self, other: &Self) -> (r: bool) {
        *self == *other
    }

    fn duplicate(&self) -> (r: Self) {
        *self
    }

    proof fn lemma_same_refl(&self) {
    }

    proof fn lemma_same_trans(&self, b: &Self, c: &Self) {
    }
}

/// The type of a Git object.
#[derive(Debug, Clone, Copy, PartialEq, Eq, Structural, PartialOrd, Ord, Hash)]
pub enum GitObjectKind {
    Commit,
    Tree,
    Blob,
    Tag,
}

impl Same for GitObjectKind {
    open spec fn same(&self, other: &Self) -> bool {
        *self == *other
    }

    fn is_same(&self, other: &Self) -> (r: bool) {
        *self == *other
    }

    fn duplicate(&self) -> (r: Self) {
        *self
    }

    proof fn lemma_same_refl(&self) {
    }

    proof fn lemma_same_trans(&self, b: &Self, c: &Self) {
    }
}

/// Status flags of one path, as Git reports them.
#[derive(Debug, Clone, Copy, PartialEq, Eq, Structural, Hash, Default)]
pub struct PathEntryStatus {
    pub index_new: bool,
    pub index_modified: bool,
    pub index_deleted: bool,
    pub index_renamed: bool,
    pub index_typechange: bool,
    pub workdir_new: bool,
    pub workdir_modified: bool,
    pub workdir_deleted: bool,
    pub workdir_typechange: bool,
    pub workdir_renamed: bool,
    pub workdir_unreadable: bool,
    pub ignored: bool,
    pub conflicted: bool,
    pub assume_unchanged: bool,
    pub skip_worktree: bool,
}

impl Same for PathEntryStatus {
    open spec fn same(&self, other: &Self) -> bool {
        *self == *other
    }

    fn is_same(&self, other: &Self) -> (r: bool) {
        *self == *other
    }

    fn duplicate(&self) -> (r: Self) {
        *self
    }

    proof fn lemma_same_refl(&self) {
    }

    proof fn lemma_same_trans(&self, b: &Self, c: &Self) {
    }
}

/// Status flags of one submodule.
#[derive(Debug, Clone, Copy, PartialEq, Eq, Structural, Hash)]
pub struct SubmoduleState {
    pub in_head: bool,
    pub in_index: bool,
    pub in_config: bool,
    pub in_workdir: bool,
    pub index_added: bool,
    pub index_deleted: bool,
    pub index_modified: bool,
    pub workdir_uninitialized: bool,
    pub workdir_added: bool,
    pub workdir_deleted: bool,
    pub workdir_modified: bool,
    pub workdir_worktree_modified: bool,
    pub workdir_untracked: bool,
}

impl Same for SubmoduleState {
    open spec fn same(&self, other: &Self) -> bool {
        *self == *other
    }

    fn is_same(&self, other: &Self) -> (r: bool) {
        *self == *other
    }

    fn duplicate(&self) -> (r: Self) {
        *self
    }

    proof fn lemma_same_refl(&self) {
    }

    proof fn lemma_same_trans(&self, b: &Self, c: &Self) {
    }
}

/// Options for reading a snapshot.
#[derive(Debug, Clone, Copy, PartialEq, Eq, Structural, Hash, Default)]
pub struct SnapshotOptions {
    pub include_ignored: bool,
}

impl Same for SnapshotOptions {
    open spec fn same(&self, other: &Self) -> bool {
        *self == *other
    }

    fn is_same(&self, other: &Self) -> (r: bool) {
        *self == *other
    }

    fn duplicate(&self) -> (r: Self) {
        *self
    }

    proof fn lemma_same_refl(&self) {
    }

    proof fn lemma_same_trans(&self, b: &Self, c: &Self) {
    }
}

/// Where the repository lives and what kind of repository it is.
#[derive(Debug, Clone, PartialEq, Eq)]
pub struct RepositoryIdentity {
    pub id: String,
    pub worktree_root: Option<String>,
    pub git_dir: String,
    pub common_dir: String,
    pub namespace: Option<String>,
    pub is_bare: bool,
    pub is_empty: bool,
    pub is_shallow: bool,
    pub is_linked_worktree: bool,
}

impl Same for RepositoryIdentity {
    open spec fn same(&self, other: &Self) -> bool {
        &&& self.id.same(&other.id)
        &&& self.worktree_root.same(&other.worktree_root)
        &&& self.git_dir.same(&other.git_dir)
        &&& self.common_dir.same(&other.common_dir)
        &&& self.namespace.same(&other.namespace)
        &&& self.is_bare.same(&other.is_bare)
        &&& self.is_empty.same(&other.is_empty)
        &&& self.is_shallow.same(&other.is_shallow)
        &&& self.is_linked_worktree.same(&other.is_linked_worktree)
    }

    fn is_same(&self, other: &Self) -> (r: bool) {
        self.id.is_same(&other.id)
            && self.worktree_root.is_same(&other.worktree_root)
            && self.git_dir.is_same(&other.git_dir)
            && self.common_dir.is_same(&other.common_dir)
            && self.namespace.is_same(&other.namespace)
            && self.is_bare.is_same(&other.is_bare)
            && self.is_empty.is_same(&other.is_empty)
            && self.is_shallow.is_same(&other.is_shallow)
            && self.is_linked_worktree.is_same(&other.is_linked_worktree)
    }

    fn duplicate(&self) -> (r: Self) {
        RepositoryIdentity {
            id: self.id.duplicate(),
            worktree_root: self.worktree_root.duplicate(),
            git_dir: self.git_dir.duplicate(),
            common_dir: self.common_dir.duplicate(),
            namespace: self.namespace.duplicate(),
            is_bare: self.is_bare.duplicate(),
            is_empty: self.is_empty.duplicate(),
            is_shallow: self.is_shallow.duplicate(),
            is_linked_worktree: self.is_linked_worktree.duplicate(),
        }
    }

    proof fn lemma_same_refl(&self) {
        self.id.lemma_same_refl();
        self.worktree_root.lemma_same_refl();
        self.git_dir.lemma_same_refl();
        self.common_dir.lemma_same_refl();
        self.namespace.lemma_same_refl();
        self.is_bare.lemma_same_refl();
        self.is_empty.lemma_same_refl();
        self.is_shallow.lemma_same_refl();
        self.is_linked_worktree.lemma_same_refl();
    }

    proof fn lemma_same_trans(&self, b: &Self, c: &Self) {
        self.id.lemma_same_trans(&b.id, &c.id);
        self.worktree_root.lemma_same_trans(&b.worktree_root, &c.worktree_root);
        self.git_dir.lemma_same_trans(&b.git_dir, &c.git_dir);
        self.common_dir.lemma_same_trans(&b.common_dir, &c.common_dir);
        self.namespace.lemma_same_trans(&b.namespace, &c.namespace);
        self.is_bare.lemma_same_trans(&b.is_bare, &c.is_bare);
        self.is_empty.lemma_same_trans(&b.is_empty, &c.is_empty);
        self.is_shallow.lemma_same_trans(&b.is_shallow, &c.is_shallow);
        self.is_linked_worktree.lemma_same_trans(&b.is_linked_worktree, &c.is_linked_worktree);
    }
}

/// What HEAD refers to.
#[derive(Debug, Clone, PartialEq, Eq)]
pub struct HeadState {
    pub kind: HeadKind,
    pub name: Option<String>,
    pub branch: Option<String>,
    pub oid: Option<String>,
}

impl Same for HeadState {
    open spec fn same(&self, other: &Self) -> bool {
        &&& self.kind.same(&other.kind)
        &&& self.name.same(&other.name)
        &&& self.branch.same(&other.branch)
        &&& self.oid.same(&other.oid)
    }

    fn is_same(&self, other: &Self) -> (r: bool) {
        self.kind.is_same(&other.kind)
            && self.name.is_same(&other.name)
            && self.branch.is_same(&other.branch)
            && self.oid.is_same(&other.oid)
    }

    fn duplicate(&self) -> (r: Self) {
        HeadState {
            kind: self.kind.duplicate(),
            name: self.name.duplicate(),
            branch: self.branch.duplicate(),
            oid: self.oid.duplicate(),
        }
    }

    proof fn lemma_same_refl(&self) {
        self.kind.lemma_same_refl();
        self.name.lemma_same_refl();
        self.branch.lemma_same_refl();
        self.oid.lemma_same_refl();
    }

    proof fn lemma_same_trans(&self, b: &Self, c: &Self) {
        self.kind.lemma_same_trans(&b.kind, &c.kind);
        self.name.lemma_same_trans(&b.name, &c.name);
        self.branch.lemma_same_trans(&b.branch, &c.branch);
        self.oid.lemma_same_trans(&b.oid, &c.oid);
    }
}

/// Summary of one commit.
#[derive(Debug, Clone, PartialEq, Eq)]
pub struct CommitSummary {
    pub oid: String,
    pub parent_oids: Vec<String>,
    pub summary: Option<String>,
    pub author_name: Option<String>,
    pub author_email: Option<String>,
    pub time_seconds: i64,
}

impl Same for CommitSummary {
    open spec fn same(&self, other: &Self) -> bool {
        &&& self.oid.same(&other.oid)
        &&& self.parent_oids.same(&other.parent_oids)
        &&& self.summary.same(&other.summary)
        &&& self.author_name.same(&other.author_name)
        &&& self.author_email.same(&other.author_email)
        &&& self.time_seconds.same(&other.time_seconds)
    }

    fn is_same(&self, other: &Self) -> (r: bool) {
        self.oid.is_same(&other.oid)
            && self.parent_oids.is_same(&other.parent_oids)
            && self.summary.is_same(&other.summary)
            && self.author_name.is_same(&other.author_name)
            && self.author_email.is_same(&other.author_email)
            && self.time_seconds.is_same(&other.time_seconds)
    }

    fn duplicate(&self) -> (r: Self) {
        CommitSummary {
            oid: self.oid.duplicate(),
            parent_oids: self.parent_oids.duplicate(),
            summary: self.summary.duplicate(),
            author_name: self.author_name.duplicate(),
            author_email: self.author_email.duplicate(),
            time_seconds: self.time_seconds.duplicate(),
        }
    }

    proof fn lemma_same_refl(&self) {
        self.oid.lemma_same_refl();
        self.parent_oids.lemma_same_refl();
        self.summary.lemma_same_refl();
        self.author_name.lemma_same_refl();
        self.author_email.lemma_same_refl();
        self.time_seconds.lemma_same_refl();
    }

    proof fn lemma_same_trans(&self, b: &Self, c: &Self) {
        self.oid.lemma_same_trans(&b.oid, &c.oid);
        self.parent_oids.lemma_same_trans(&b.parent_oids, &c.parent_oids);
        self.summary.lemma_same_trans(&b.summary, &c.summary);
        self.author_name.lemma_same_trans(&b.author_name, &c.author_name);
        self.author_email.lemma_same_trans(&b.author_email, &c.author_email);
        self.time_seconds.lemma_same_trans(&b.time_seconds, &c.time_seconds);
    }
}

/// The upstream of the checked-out branch and the distance to it.
#[derive(Debug, Clone, PartialEq, Eq)]
pub struct UpstreamState {
    pub name: String,
    pub oid: Option<String>,
    pub ahead: usize,
    pub behind: usize,
}

impl Same for UpstreamState {
    open spec fn same(&self, other: &Self) -> bool {
        &&& self.name.same(&other.name)
        &&& self.oid.same(&other.oid)
        &&& self.ahead.same(&other.ahead)
        &&& self.behind.same(&other.behind)
    }

    fn is_same(&self, other: &Self) -> (r: bool) {
        self.name.is_same(&other.name)
            && self.oid.is_same(&other.oid)
            && self.ahead.is_same(&other.ahead)
            && self.behind.is_same(&other.behind)
    }

    fn duplicate(&self) -> (r: Self) {
        UpstreamState {
            name: self.name.duplicate(),
            oid: self.oid.duplicate(),
            ahead: self.ahead.duplicate(),
            behind: self.behind.duplicate(),
        }
    }

    proof fn lemma_same_refl(&self) {
        self.name.lemma_same_refl();
        self.oid.lemma_same_refl();
        self.ahead.lemma_same_refl();
        self.behind.lemma_same_refl();
    }

    proof fn lemma_same_trans(&self, b: &Self, c: &Self) {
        self.name.lemma_same_trans(&b.name, &c.name);
        self.oid.lemma_same_trans(&b.oid, &c.oid);
        self.ahead.lemma_same_trans(&b.ahead, &c.ahead);
        self.behind.lemma_same_trans(&b.behind, &c.behind);
    }
}

/// One stage of a conflicted index entry.
#[derive(Debug, Clone, PartialEq, Eq)]
pub struct ConflictSide {
    pub path: String,
    pub oid: String,
    pub mode: u32,
}

impl Same for ConflictSide {
    open spec fn same(&self, other: &Self) -> bool {
        &&& self.path.same(&other.path)
        &&& self.oid.same(&other.oid)
        &&& self.mode.same(&other.mode)
    }

    fn is_same(&self, other: &Self) -> (r: bool) {
        self.path.is_same(&other.path)
            && self.oid.is_same(&other.oid)
            && self.mode.is_same(&other.mode)
    }

    fn duplicate(&self) -> (r: Self) {
        ConflictSide {
            path: self.path.duplicate(),
            oid: self.oid.duplicate(),
            mode: self.mode.duplicate(),
        }
    }

    proof fn lemma_same_refl(&self) {
        self.path.lemma_same_refl();
        self.oid.lemma_same_refl();
        self.mode.lemma_same_refl();
    }

    proof fn lemma_same_trans(&self, b: &Self, c: &Self) {
        self.path.lemma_same_trans(&b.path, &c.path);
        self.oid.lemma_same_trans(&b.oid, &c.oid);
        self.mode.lemma_same_trans(&b.mode, &c.mode);
    }
}

/// The stages of one conflicted path.
#[derive(Debug, Clone, PartialEq, Eq)]
pub struct ConflictSummary {
    pub path: String,
    pub ancestor: Option<ConflictSide>,
    pub ours: Option<ConflictSide>,
    pub theirs: Option<ConflictSide>,
}

impl Same for ConflictSummary {
    open spec fn same(&self, other: &Self) -> bool {
        &&& self.path.same(&other.path)
        &&& self.ancestor.same(&other.ancestor)
        &&& self.ours.same(&other.ours)
        &&& self.theirs.same(&other.theirs)
    }

    fn is_same(&self, other: &Self) -> (r: bool) {
        self.path.is_same(&other.path)
            && self.ancestor.is_same(&other.ancestor)
            && self.ours.is_same(&other.ours)
            && self.theirs.is_same(&other.theirs)
    }

    fn duplicate(&self) -> (r: Self) {
        ConflictSummary {
            path: self.path.duplicate(),
            ancestor: self.ancestor.duplicate(),
            ours: self.ours.duplicate(),
            theirs: self.theirs.duplicate(),
        }
    }

    proof fn lemma_same_refl(&self) {
        self.path.lemma_same_refl();
        self.ancestor.lemma_same_refl();
        self.ours.lemma_same_refl();
        self.theirs.lemma_same_refl();
    }

    proof fn lemma_same_trans(&self, b: &Self, c: &Self) {
        self.path.lemma_same_trans(&b.path, &c.path);
        self.ancestor.lemma_same_trans(&b.ancestor, &c.ancestor);
        self.ours.lemma_same_trans(&b.ours, &c.ours);
        self.theirs.lemma_same_trans(&b.theirs, &c.theirs);
    }
}

/// Status of one path with its rename sources and targets.
#[derive(Debug, Clone, PartialEq, Eq)]
pub struct PathEntry {
    pub path: String,
    pub staged_old_path: Option<String>,
    pub staged_new_path: Option<String>,
    pub workdir_old_path: Option<String>,
    pub workdir_new_path: Option<String>,
    pub status: PathEntryStatus,
}

impl Same for PathEntry {
    open spec fn same(&self, other: &Self) -> bool {
        &&& self.path.same(&other.path)
        &&& self.staged_old_path.same(&other.staged_old_path)
        &&& self.staged_new_path.same(&other.staged_new_path)
        &&& self.workdir_old_path.same(&other.workdir_old_path)
        &&& self.workdir_new_path.same(&other.workdir_new_path)
        &&& self.status.same(&other.status)
    }

    fn is_same(&self, other: &Self) -> (r: bool) {
        self.path.is_same(&other.path)
            && self.staged_old_path.is_same(&other.staged_old_path)
            && self.staged_new_path.is_same(&other.staged_new_path)
            && self.workdir_old_path.is_same(&other.workdir_old_path)
            && self.workdir_new_path.is_same(&other.workdir_new_path)
            && self.status.is_same(&other.status)
    }

    fn duplicate(&self) -> (r: Self) {
        PathEntry {
            path: self.path.duplicate(),
            staged_old_path: self.staged_old_path.duplicate(),
            staged_new_path: self.staged_new_path.duplicate(),
            workdir_old_path: self.workdir_old_path.duplicate(),
            workdir_new_path: self.workdir_new_path.duplicate(),
            status: self.status.duplicate(),
        }
    }

    proof fn lemma_same_refl(&self) {
        self.path.lemma_same_refl();
        self.staged_old_path.lemma_same_refl();
        self.staged_new_path.lemma_same_refl();
        self.workdir_old_path.lemma_same_refl();
        self.workdir_new_path.lemma_same_refl();
        self.status.lemma_same_refl();
    }

    proof fn lemma_same_trans(&self, b: &Self, c: &Self) {
        self.path.lemma_same_trans(&b.path, &c.path);
        self.staged_old_path.lemma_same_trans(&b.staged_old_path, &c.staged_old_path);
        self.staged_new_path.lemma_same_trans(&b.staged_new_path, &c.staged_new_path);
        self.workdir_old_path.lemma_same_trans(&b.workdir_old_path, &c.workdir_old_path);
        self.workdir_new_path.lemma_same_trans(&b.workdir_new_path, &c.workdir_new_path);
        self.status.lemma_same_trans(&b.status, &c.status);
    }
}

/// Path status sets of the working tree and index.
#[derive(Debug, Clone, PartialEq, Eq, Default)]
pub struct PathState {
    pub staged: Vec<String>,
    pub unstaged: Vec<String>,
    pub untracked: Vec<String>,
    pub ignored: Vec<String>,
    pub conflicted: Vec<String>,
    pub conflicts: Vec<ConflictSummary>,
    pub entries: Vec<PathEntry>,
}

impl Same for PathState {
    open spec fn same(&self, other: &Self) -> bool {
        &&& self.staged.same(&other.staged)
        &&& self.unstaged.same(&other.unstaged)
        &&& self.untracked.same(&other.untracked)
        &&& self.ignored.same(&other.ignored)
        &&& self.conflicted.same(&other.conflicted)
        &&& self.conflicts.same(&other.conflicts)
        &&& self.entries.same(&other.entries)
    }

    fn is_same(&self, other: &Self) -> (r: bool) {
        self.staged.is_same(&other.staged)
            && self.unstaged.is_same(&other.unstaged)
            && self.untracked.is_same(&other.untracked)
            && self.ignored.is_same(&other.ignored)
            && self.conflicted.is_same(&other.conflicted)
            && self.conflicts.is_same(&other.conflicts)
            && self.entries.is_same(&other.entries)
    }

    fn duplicate(&self) -> (r: Self) {
        PathState {
            staged: self.staged.duplicate(),
            unstaged: self.unstaged.duplicate(),
            untracked: self.untracked.duplicate(),
            ignored: self.ignored.duplicate(),
            conflicted: self.conflicted.duplicate(),
            conflicts: self.conflicts.duplicate(),
            entries: self.entries.duplicate(),
        }
    }

    proof fn lemma_same_refl(&self) {
        self.staged.lemma_same_refl();
        self.unstaged.lemma_same_refl();
        self.untracked.lemma_same_refl();
        self.ignored.lemma_same_refl();
        self.conflicted.lemma_same_refl();
        self.conflicts.lemma_same_refl();
        self.entries.lemma_same_refl();
    }

    proof fn lemma_same_trans(&self, b: &Self, c: &Self) {
        self.staged.lemma_same_trans(&b.staged, &c.staged);
        self.unstaged.lemma_same_trans(&b.unstaged, &c.unstaged);
        self.untracked.lemma_same_trans(&b.untracked, &c.untracked);
        self.ignored.lemma_same_trans(&b.ignored, &c.ignored);
        self.conflicted.lemma_same_trans(&b.conflicted, &c.conflicted);
        self.conflicts.lemma_same_trans(&b.conflicts, &c.conflicts);
        self.entries.lemma_same_trans(&b.entries, &c.entries);
    }
}

/// A commit named by an in-progress operation.
#[derive(Debug, Clone, PartialEq, Eq)]
pub struct OperationHead {
    pub role: OperationHeadRole,
    pub oid: String,
}

impl Same for OperationHead {
    open spec fn same(&self, other: &Self) -> bool {
        &&& self.role.same(&other.role)
        &&& self.oid.same(&other.oid)
    }

    fn is_same(&self, other: &Self) -> (r: bool) {
        self.role.is_same(&other.role)
            && self.oid.is_same(&other.oid)
    }

    fn duplicate(&self) -> (r: Self) {
        OperationHead {
            role: self.role.duplicate(),
            oid: self.oid.duplicate(),
        }
    }

    proof fn lemma_same_refl(&self) {
        self.role.lemma_same_refl();
        self.oid.lemma_same_refl();
    }

    proof fn lemma_same_trans(&self, b: &Self, c: &Self) {
        self.role.lemma_same_trans(&b.role, &c.role);
        self.oid.lemma_same_trans(&b.oid, &c.oid);
    }
}

/// The commits a bisect session has marked.
#[derive(Debug, Clone, PartialEq, Eq)]
pub struct BisectState {
    pub start_oid: Option<String>,
    pub good_oids: Vec<String>,
    pub bad_oids: Vec<String>,
    pub skipped_oids: Vec<String>,
}

impl Same for BisectState {
    open spec fn same(&self, other: &Self) -> bool {
        &&& self.start_oid.same(&other.start_oid)
        &&& self.good_oids.same(&other.good_oids)
        &&& self.bad_oids.same(&other.bad_oids)
        &&& self.skipped_oids.same(&other.skipped_oids)
    }

    fn is_same(&self, other: &Self) -> (r: bool) {
        self.start_oid.is_same(&other.start_oid)
            && self.good_oids.is_same(&other.good_oids)
            && self.bad_oids.is_same(&other.bad_oids)
            && self.skipped_oids.is_same(&other.skipped_oids)
    }

    fn duplicate(&self) -> (r: Self) {
        BisectState {
            start_oid: self.start_oid.duplicate(),
            good_oids: self.good_oids.duplicate(),
            bad_oids: self.bad_oids.duplicate(),
            skipped_oids: self.skipped_oids.duplicate(),
        }
    }

    proof fn lemma_same_refl(&self) {
        self.start_oid.lemma_same_refl();
        self.good_oids.lemma_same_refl();
        self.bad_oids.lemma_same_refl();
        self.skipped_oids.lemma_same_refl();
    }

    proof fn lemma_same_trans(&self, b: &Self, c: &Self) {
        self.start_oid.lemma_same_trans(&b.start_oid, &c.start_oid);
        self.good_oids.lemma_same_trans(&b.good_oids, &c.good_oids);
        self.bad_oids.lemma_same_trans(&b.bad_oids, &c.bad_oids);
        self.skipped_oids.lemma_same_trans(&b.skipped_oids, &c.skipped_oids);
    }
}

/// The operation in progress and its recorded heads.
#[derive(Debug, Clone, PartialEq, Eq)]
pub struct OperationState {
    pub kind: OperationKind,
    pub message: Option<String>,
    pub heads: Vec<OperationHead>,
    pub bisect: Option<BisectState>,
}

impl Same for OperationState {
    open spec fn same(&self, other: &Self) -> bool {
        &&& self.kind.same(&other.kind)
        &&& self.message.same(&other.message)
        &&& self.heads.same(&other.heads)
        &&& self.bisect.same(&other.bisect)
    }

    fn is_same(&self, other: &Self) -> (r: bool) {
        self.kind.is_same(&other.kind)
            && self.message.is_same(&other.message)
            && self.heads.is_same(&other.heads)
            && self.bisect.is_same(&other.bisect)
    }

    fn duplicate(&self) -> (r: Self) {
        OperationState {
            kind: self.kind.duplicate(),
            message: self.message.duplicate(),
            heads: self.heads.duplicate(),
            bisect: self.bisect.duplicate(),
        }
    }

    proof fn lemma_same_refl(&self) {
        self.kind.lemma_same_refl();
        self.message.lemma_same_refl();
        self.heads.lemma_same_refl();
        self.bisect.lemma_same_refl();
    }

    proof fn lemma_same_trans(&self, b: &Self, c: &Self) {
        self.kind.lemma_same_trans(&b.kind, &c.kind);
        self.message.lemma_same_trans(&b.message, &c.message);
        self.heads.lemma_same_trans(&b.heads, &c.heads);
        self.bisect.lemma_same_trans(&b.bisect, &c.bisect);
    }
}

/// A configured remote.
#[derive(Debug, Clone, PartialEq, Eq)]
pub struct RemoteSummary {
    pub name: String,
    pub url: Option<String>,
    pub push_url: Option<String>,
    pub default_branch: Option<String>,
    pub fetch_refspecs: Vec<String>,
    pub push_refspecs: Vec<String>,
}

impl Same for RemoteSummary {
    open spec fn same(&self, other: &Self) -> bool {
        &&& self.name.same(&other.name)
        &&& self.url.same(&other.url)
        &&& self.push_url.same(&other.push_url)
        &&& self.default_branch.same(&other.default_branch)
        &&& self.fetch_refspecs.same(&other.fetch_refspecs)
        &&& self.push_refspecs.same(&other.push_refspecs)
    }

    fn is_same(&self, other: &Self) -> (r: bool) {
        self.name.is_same(&other.name)
            && self.url.is_same(&other.url)
            && self.push_url.is_same(&other.push_url)
            && self.default_branch.is_same(&other.default_branch)
            && self.fetch_refspecs.is_same(&other.fetch_refspecs)
            && self.push_refspecs.is_same(&other.push_refspecs)
    }

    fn duplicate(&self) -> (r: Self) {
        RemoteSummary {
            name: self.name.duplicate(),
            url: self.url.duplicate(),
            push_url: self.push_url.duplicate(),
            default_branch: self.default_branch.duplicate(),
            fetch_refspecs: self.fetch_refspecs.duplicate(),
            push_refspecs: self.push_refspecs.duplicate(),
        }
    }

    proof fn lemma_same_refl(&self) {
        self.name.lemma_same_refl();
        self.url.lemma_same_refl();
        self.push_url.lemma_same_refl();
        self.default_branch.lemma_same_refl();
        self.fetch_refspecs.lemma_same_refl();
        self.push_refspecs.lemma_same_refl();
    }

    proof fn lemma_same_trans(&self, b: &Self, c: &Self) {
        self.name.lemma_same_trans(&b.name, &c.name);
        self.url.lemma_same_trans(&b.url, &c.url);
        self.push_url.lemma_same_trans(&b.push_url, &c.push_url);
        self.default_branch.lemma_same_trans(&b.default_branch, &c.default_branch);
        self.fetch_refspecs.lemma_same_trans(&b.fetch_refspecs, &c.fetch_refspecs);
        self.push_refspecs.lemma_same_trans(&b.push_refspecs, &c.push_refspecs);
    }
}

/// A local or remote-tracking branch.
#[derive(Debug, Clone, PartialEq, Eq)]
pub struct BranchSummary {
    pub name: String,
    pub kind: BranchKind,
    pub is_head: bool,
    pub oid: Option<String>,
    pub tip_commit: Option<CommitSummary>,
    pub upstream: Option<String>,
    pub upstream_ahead: Option<usize>,
    pub upstream_behind: Option<usize>,
}

impl Same for BranchSummary {
    open spec fn same(&self, other: &Self) -> bool {
        &&& self.name.same(&other.name)
        &&& self.kind.same(&other.kind)
        &&& self.is_head.same(&other.is_head)
        &&& self.oid.same(&other.oid)
        &&& self.tip_commit.same(&other.tip_commit)
        &&& self.upstream.same(&other.upstream)
        &&& self.upstream_ahead.same(&other.upstream_ahead)
        &&& self.upstream_behind.same(&other.upstream_behind)
    }

    fn is_same(&self, other: &Self) -> (r: bool) {
        self.name.is_same(&other.name)
            && self.kind.is_same(&other.kind)
            && self.is_head.is_same(&other.is_head)
            && self.oid.is_same(&other.oid)
            && self.tip_commit.is_same(&other.tip_commit)
            && self.upstream.is_same(&other.upstream)
            && self.upstream_ahead.is_same(&other.upstream_ahead)
            && self.upstream_behind.is_same(&other.upstream_behind)
    }

    fn duplicate(&self) -> (r: Self) {
        BranchSummary {
            name: self.name.duplicate(),
            kind: self.kind.duplicate(),
            is_head: self.is_head.duplicate(),
            oid: self.oid.duplicate(),
            tip_commit: self.tip_commit.duplicate(),
            upstream: self.upstream.duplicate(),
            upstream_ahead: self.upstream_ahead.duplicate(),
            upstream_behind: self.upstream_behind.duplicate(),
        }
    }

    proof fn lemma_same_refl(&self) {
        self.name.lemma_same_refl();
        self.kind.lemma_same_refl();
        self.is_head.lemma_same_refl();
        self.oid.lemma_same_refl();
        self.tip_commit.lemma_same_refl();
        self.upstream.lemma_same_refl();
        self.upstream_ahead.lemma_same_refl();
        self.upstream_behind.lemma_same_refl();
    }

    proof fn lemma_same_trans(&self, b: &Self, c: &Self) {
        self.name.lemma_same_trans(&b.name, &c.name);
        self.kind.lemma_same_trans(&b.kind, &c.kind);
        self.is_head.lemma_same_trans(&b.is_head, &c.is_head);
        self.oid.lemma_same_trans(&b.oid, &c.oid);
        self.tip_commit.lemma_same_trans(&b.tip_commit, &c.tip_commit);
        self.upstream.lemma_same_trans(&b.upstream, &c.upstream);
        self.upstream_ahead.lemma_same_trans(&b.upstream_ahead, &c.upstream_ahead);
        self.upstream_behind.lemma_same_trans(&b.upstream_behind, &c.upstream_behind);
    }
}

/// A tag and what it points at.
#[derive(Debug, Clone, PartialEq, Eq)]
pub struct TagSummary {
    pub name: String,
    pub oid: String,
    pub kind: TagKind,
    pub target_oid: String,
    pub target_kind: Option<GitObjectKind>,
    pub tagger_name: Option<String>,
    pub tagger_email: Option<String>,
    pub tagger_time_seconds: Option<i64>,
    pub message: Option<String>,
}

impl Same for TagSummary {
    open spec fn same(&self, other: &Self) -> bool {
        &&& self.name.same(&other.name)
        &&& self.oid.same(&other.oid)
        &&& self.kind.same(&other.kind)
        &&& self.target_oid.same(&other.target_oid)
        &&& self.target_kind.same(&other.target_kind)
        &&& self.tagger_name.same(&other.tagger_name)
        &&& self.tagger_email.same(&other.tagger_email)
        &&& self.tagger_time_seconds.same(&other.tagger_time_seconds)
        &&& self.message.same(&other.message)
    }

    fn is_same(&self, other: &Self) -> (r: bool) {
        self.name.is_same(&other.name)
            && self.oid.is_same(&other.oid)
            && self.kind.is_same(&other.kind)
            && self.target_oid.is_same(&other.target_oid)
            && self.target_kind.is_same(&other.target_kind)
            && self.tagger_name.is_same(&other.tagger_name)
            && self.tagger_email.is_same(&other.tagger_email)
            && self.tagger_time_seconds.is_same(&other.tagger_time_seconds)
            && self.message.is_same(&other.message)
    }

    fn duplicate(&self) -> (r: Self) {
        TagSummary {
            name: self.name.duplicate(),
            oid: self.oid.duplicate(),
            kind: self.kind.duplicate(),
            target_oid: self.target_oid.duplicate(),
            target_kind: self.target_kind.duplicate(),
            tagger_name: self.tagger_name.duplicate(),
            tagger_email: self.tagger_email.duplicate(),
            tagger_time_seconds: self.tagger_time_seconds.duplicate(),
            message: self.message.duplicate(),
        }
    }

    proof fn lemma_same_refl(&self) {
        self.name.lemma_same_refl();
        self.oid.lemma_same_refl();
        self.kind.lemma_same_refl();
        self.target_oid.lemma_same_refl();
        self.target_kind.lemma_same_refl();
        self.tagger_name.lemma_same_refl();
        self.tagger_email.lemma_same_refl();
        self.tagger_time_seconds.lemma_same_refl();
        self.message.lemma_same_refl();
    }

    proof fn lemma_same_trans(&self, b: &Self, c: &Self) {
        self.name.lemma_same_trans(&b.name, &c.name);
        self.oid.lemma_same_trans(&b.oid, &c.oid);
        self.kind.lemma_same_trans(&b.kind, &c.kind);
        self.target_oid.lemma_same_trans(&b.target_oid, &c.target_oid);
        self.target_kind.lemma_same_trans(&b.target_kind, &c.target_kind);
        self.tagger_name.lemma_same_trans(&b.tagger_name, &c.tagger_name);
        self.tagger_email.lemma_same_trans(&b.tagger_email, &c.tagger_email);
        self.tagger_time_seconds.lemma_same_trans(&b.tagger_time_seconds, &c.tagger_time_seconds);
        self.message.lemma_same_trans(&b.message, &c.message);
    }
}

/// One stash entry.
#[derive(Debug, Clone, PartialEq, Eq)]
pub struct StashSummary {
    pub index: usize,
    pub message: String,
    pub oid: String,
}

impl Same for StashSummary {
    open spec fn same(&self, other: &Self) -> bool {
        &&& self.index.same(&other.index)
        &&& self.message.same(&other.message)
        &&& self.oid.same(&other.oid)
    }

    fn is_same(&self, other: &Self) -> (r: bool) {
        self.index.is_same(&other.index)
            && self.message.is_same(&other.message)
            && self.oid.is_same(&other.oid)
    }

    fn duplicate(&self) -> (r: Self) {
        StashSummary {
            index: self.index.duplicate(),
            message: self.message.duplicate(),
            oid: self.oid.duplicate(),
        }
    }

    proof fn lemma_same_refl(&self) {
        self.index.lemma_same_refl();
        self.message.lemma_same_refl();
        self.oid.lemma_same_refl();
    }

    proof fn lemma_same_trans(&self, b: &Self, c: &Self) {
        self.index.lemma_same_trans(&b.index, &c.index);
        self.message.lemma_same_trans(&b.message, &c.message);
        self.oid.lemma_same_trans(&b.oid, &c.oid);
    }
}

/// A linked worktree.
#[derive(Debug, Clone, PartialEq, Eq)]
pub struct WorktreeSummary {
    pub name: String,
    pub path: String,
    pub locked: bool,
    pub lock_reason: Option<String>,
}

impl Same for WorktreeSummary {
    open spec fn same(&self, other: &Self) -> bool {
        &&& self.name.same(&other.name)
        &&& self.path.same(&other.path)
        &&& self.locked.same(&other.locked)
        &&& self.lock_reason.same(&other.lock_reason)
    }

    fn is_same(&self, other: &Self) -> (r: bool) {
        self.name.is_same(&other.name)
            && self.path.is_same(&other.path)
            && self.locked.is_same(&other.locked)
            && self.lock_reason.is_same(&other.lock_reason)
    }

    fn duplicate(&self) -> (r: Self) {
        WorktreeSummary {
            name: self.name.duplicate(),
            path: self.path.duplicate(),
            locked: self.locked.duplicate(),
            lock_reason: self.lock_reason.duplicate(),
        }
    }

    proof fn lemma_same_refl(&self) {
        self.name.lemma_same_refl();
        self.path.lemma_same_refl();
        self.locked.lemma_same_refl();
        self.lock_reason.lemma_same_refl();
    }

    proof fn lemma_same_trans(&self, b: &Self, c: &Self) {
        self.name.lemma_same_trans(&b.name, &c.name);
        self.path.lemma_same_trans(&b.path, &c.path);
        self.locked.lemma_same_trans(&b.locked, &c.locked);
        self.lock_reason.lemma_same_trans(&b.lock_reason, &c.lock_reason);
    }
}

/// A submodule and its status.
#[derive(Debug, Clone, PartialEq, Eq)]
pub struct SubmoduleSummary {
    pub name: String,
    pub path: String,
    pub url: Option<String>,
    pub branch: Option<String>,
    pub head_oid: Option<String>,
    pub index_oid: Option<String>,
    pub workdir_oid: Option<String>,
    pub status: SubmoduleState,
}

impl Same for SubmoduleSummary {
    open spec fn same(&self, other: &Self) -> bool {
        &&& self.name.same(&other.name)
        &&& self.path.same(&other.path)
        &&& self.url.same(&other.url)
        &&& self.branch.same(&other.branch)
        &&& self.head_oid.same(&other.head_oid)
        &&& self.index_oid.same(&other.index_oid)
        &&& self.workdir_oid.same(&other.workdir_oid)
        &&& self.status.same(&other.status)
    }

    fn is_same(&self, other: &Self) -> (r: bool) {
        self.name.is_same(&other.name)
            && self.path.is_same(&other.path)
            && self.url.is_same(&other.url)
            && self.branch.is_same(&other.branch)
            && self.head_oid.is_same(&other.head_oid)
            && self.index_oid.is_same(&other.index_oid)
            && self.workdir_oid.is_same(&other.workdir_oid)
            && self.status.is_same(&other.status)
    }

    fn duplicate(&self) -> (r: Self) {
        SubmoduleSummary {
            name: self.name.duplicate(),
            path: self.path.duplicate(),
            url: self.url.duplicate(),
            branch: self.branch.duplicate(),
            head_oid: self.head_oid.duplicate(),
            index_oid: self.index_oid.duplicate(),
            workdir_oid: self.workdir_oid.duplicate(),
            status: self.status.duplicate(),
        }
    }

    proof fn lemma_same_refl(&self) {
        self.name.lemma_same_refl();
        self.path.lemma_same_refl();
        self.url.lemma_same_refl();
        self.branch.lemma_same_refl();
        self.head_oid.lemma_same_refl();
        self.index_oid.lemma_same_refl();
        self.workdir_oid.lemma_same_refl();
        self.status.lemma_same_refl();
    }

    proof fn lemma_same_trans(&self, b: &Self, c: &Self) {
        self.name.lemma_same_trans(&b.name, &c.name);
        self.path.lemma_same_trans(&b.path, &c.path);
        self.url.lemma_same_trans(&b.url, &c.url);
        self.branch.lemma_same_trans(&b.branch, &c.branch);
        self.head_oid.lemma_same_trans(&b.head_oid, &c.head_oid);
        self.index_oid.lemma_same_trans(&b.index_oid, &c.index_oid);
        self.workdir_oid.lemma_same_trans(&b.workdir_oid, &c.workdir_oid);
        self.status.lemma_same_trans(&b.status, &c.status);
    }
}

/// Everything a client sees of one repository at one moment.
#[derive(Debug, Clone, PartialEq, Eq)]
pub struct RepositorySnapshot {
    pub identity: RepositoryIdentity,
    pub head: HeadState,
    pub head_commit: Option<CommitSummary>,
    pub upstream: Option<UpstreamState>,
    pub paths: PathState,
    pub operation: OperationState,
    pub remotes: Vec<RemoteSummary>,
    pub branches: Vec<BranchSummary>,
    pub tags: Vec<TagSummary>,
    pub stashes: Vec<StashSummary>,
    pub worktrees: Vec<WorktreeSummary>,
    pub submodules: Vec<SubmoduleSummary>,
}

impl Same for RepositorySnapshot {
    open spec fn same(&self, other: &Self) -> bool {
        &&& self.identity.same(&other.identity)
        &&& self.head.same(&other.head)
        &&& self.head_commit.same(&other.head_commit)
        &&& self.upstream.same(&other.upstream)
        &&& self.paths.same(&other.paths)
        &&& self.operation.same(&other.operation)
        &&& self.remotes.same(&other.remotes)
        &&& self.branches.same(&other.branches)
        &&& self.tags.same(&other.tags)
        &&& self.stashes.same(&other.stashes)
        &&& self.worktrees.same(&other.worktrees)
        &&& self.submodules.same(&other.submodules)
    }

    fn is_same(&self, other: &Self) -> (r: bool) {
        self.identity.is_same(&other.identity)
            && self.head.is_same(&other.head)
            && self.head_commit.is_same(&other.head_commit)
            && self.upstream.is_same(&other.upstream)
            && self.paths.is_same(&other.paths)
            && self.operation.is_same(&other.operation)
            && self.remotes.is_same(&other.remotes)
            && self.branches.is_same(&other.branches)
            && self.tags.is_same(&other.tags)
            && self.stashes.is_same(&other.stashes)
            && self.worktrees.is_same(&other.worktrees)
            && self.submodules.is_same(&other.submodules)
    }

    fn duplicate(&self) -> (r: Self) {
        RepositorySnapshot {
            identity: self.identity.duplicate(),
            head: self.head.duplicate(),
            head_commit: self.head_commit.duplicate(),
            upstream: self.upstream.duplicate(),
            paths: self.paths.duplicate(),
            operation: self.operation.duplicate(),
            remotes: self.remotes.duplicate(),
            branches: self.branches.duplicate(),
            tags: self.tags.duplicate(),
            stashes: self.stashes.duplicate(),
            worktrees: self.worktrees.duplicate(),
            submodules: self.submodules.duplicate(),
        }
    }

    proof fn lemma_same_refl(&self) {
        self.identity.lemma_same_refl();
        self.head.lemma_same_refl();
        self.head_commit.lemma_same_refl();
        self.upstream.lemma_same_refl();
        self.paths.lemma_same_refl();
        self.operation.lemma_same_refl();
        self.remotes.lemma_same_refl();
        self.branches.lemma_same_refl();
        self.tags.lemma_same_refl();
        self.stashes.lemma_same_refl();
        self.worktrees.lemma_same_refl();
        self.submodules.lemma_same_refl();
    }

    proof fn lemma_same_trans(&self, b: &Self, c: &Self) {
        self.identity.lemma_same_trans(&b.identity, &c.identity);
        self.head.lemma_same_trans(&b.head, &c.head);
        self.head_commit.lemma_same_trans(&b.head_commit, &c.head_commit);
        self.upstream.lemma_same_trans(&b.upstream, &c.upstream);
        self.paths.lemma_same_trans(&b.paths, &c.paths);
        self.operation.lemma_same_trans(&b.operation, &c.operation);
        self.remotes.lemma_same_trans(&b.remotes, &c.remotes);
        self.branches.lemma_same_trans(&b.branches, &c.branches);
        self.tags.lemma_same_trans(&b.tags, &c.tags);
        self.stashes.lemma_same_trans(&b.stashes, &c.stashes);
        self.worktrees.lemma_same_trans(&b.worktrees, &c.worktrees);
        self.submodules.lemma_same_trans(&b.submodules, &c.submodules);
    }
}

/// Paths that entered and left one path set.
#[derive(Debug, Clone, PartialEq, Eq, Default)]
pub struct PathSetDelta {
    pub added: Vec<String>,
    pub removed: Vec<String>,
}

impl Same for PathSetDelta {
    open spec fn same(&self, other: &Self) -> bool {
        &&& self.added.same(&other.added)
        &&& self.removed.same(&other.removed)
    }

    fn is_same(&self, other: &Self) -> (r: bool) {
        self.added.is_same(&other.added)
            && self.removed.is_same(&other.removed)
    }

    fn duplicate(&self) -> (r: Self) {
        PathSetDelta {
            added: self.added.duplicate(),
            removed: self.removed.duplicate(),
        }
    }

    proof fn lemma_same_refl(&self) {
        self.added.lemma_same_refl();
        self.removed.lemma_same_refl();
    }

    proof fn lemma_same_trans(&self, b: &Self, c: &Self) {
        self.added.lemma_same_trans(&b.added, &c.added);
        self.removed.lemma_same_trans(&b.removed, &c.removed);
    }
}

/// How the path sets and path entries changed.
#[derive(Debug, Clone, PartialEq, Eq, Default)]
pub struct PathDelta {
    pub staged: PathSetDelta,
    pub unstaged: PathSetDelta,
    pub untracked: PathSetDelta,
    pub ignored: PathSetDelta,
    pub conflicted: PathSetDelta,
    pub entries_changed: Vec<String>,
}

impl Same for PathDelta {
    open spec fn same(&self, other: &Self) -> bool {
        &&& self.staged.same(&other.staged)
        &&& self.unstaged.same(&other.unstaged)
        &&& self.untracked.same(&other.untracked)
        &&& self.ignored.same(&other.ignored)
        &&& self.conflicted.same(&other.conflicted)
        &&& self.entries_changed.same(&other.entries_changed)
    }

    fn is_same(&self, other: &Self) -> (r: bool) {
        self.staged.is_same(&other.staged)
            && self.unstaged.is_same(&other.unstaged)
            && self.untracked.is_same(&other.untracked)
            && self.ignored.is_same(&other.ignored)
            && self.conflicted.is_same(&other.conflicted)
            && self.entries_changed.is_same(&other.entries_changed)
    }

    fn duplicate(&self) -> (r: Self) {
        PathDelta {
            staged: self.staged.duplicate(),
            unstaged: self.unstaged.duplicate(),
            untracked: self.untracked.duplicate(),
            ignored: self.ignored.duplicate(),
            conflicted: self.conflicted.duplicate(),
            entries_changed: self.entries_changed.duplicate(),
        }
    }

    proof fn lemma_same_refl(&self) {
        self.staged.lemma_same_refl();
        self.unstaged.lemma_same_refl();
        self.untracked.lemma_same_refl();
        self.ignored.lemma_same_refl();
        self.conflicted.lemma_same_refl();
        self.entries_changed.lemma_same_refl();
    }

    proof fn lemma_same_trans(&self, b: &Self, c: &Self) {
        self.staged.lemma_same_trans(&b.staged, &c.staged);
        self.unstaged.lemma_same_trans(&b.unstaged, &c.unstaged);
        self.untracked.lemma_same_trans(&b.untracked, &c.untracked);
        self.ignored.lemma_same_trans(&b.ignored, &c.ignored);
        self.conflicted.lemma_same_trans(&b.conflicted, &c.conflicted);
        self.entries_changed.lemma_same_trans(&b.entries_changed, &c.entries_changed);
    }
}

/// Which sections of a snapshot changed.
#[derive(Debug, Clone, PartialEq, Eq)]
pub struct SnapshotDelta {
    pub repository_id: String,
    pub identity_changed: bool,
    pub head_changed: bool,
    pub upstream_changed: bool,
    pub operation_changed: bool,
    pub paths: PathDelta,
    pub remotes_changed: bool,
    pub branches_changed: bool,
    pub tags_changed: bool,
    pub stashes_changed: bool,
    pub worktrees_changed: bool,
    pub submodules_changed: bool,
}

impl Same for SnapshotDelta {
    open spec fn same(&self, other: &Self) -> bool {
        &&& self.repository_id.same(&other.repository_id)
        &&& self.identity_changed.same(&other.identity_changed)
        &&& self.head_changed.same(&other.head_changed)
        &&& self.upstream_changed.same(&other.upstream_changed)
        &&& self.operation_changed.same(&other.operation_changed)
        &&& self.paths.same(&other.paths)
        &&& self.remotes_changed.same(&other.remotes_changed)
        &&& self.branches_changed.same(&other.branches_changed)
        &&& self.tags_changed.same(&other.tags_changed)
        &&& self.stashes_changed.same(&other.stashes_changed)
        &&& self.worktrees_changed.same(&other.worktrees_changed)
        &&& self.submodules_changed.same(&other.submodules_changed)
    }

    fn is_same(&self, other: &Self) -> (r: bool) {
        self.repository_id.is_same(&other.repository_id)
            && self.identity_changed.is_same(&other.identity_changed)
            && self.head_changed.is_same(&other.head_changed)
            && self.upstream_changed.is_same(&other.upstream_changed)
            && self.operation_changed.is_same(&other.operation_changed)
            && self.paths.is_same(&other.paths)
            && self.remotes_changed.is_same(&other.remotes_changed)
            && self.branches_changed.is_same(&other.branches_changed)
            && self.tags_changed.is_same(&other.tags_changed)
            && self.stashes_changed.is_same(&other.stashes_changed)
            && self.worktrees_changed.is_same(&other.worktrees_changed)
            && self.submodules_changed.is_same(&other.submodules_changed)
    }

    fn duplicate(&self) -> (r: Self) {
        SnapshotDelta {
            repository_id: self.repository_id.duplicate(),
            identity_changed: self.identity_changed.duplicate(),
            head_changed: self.head_changed.duplicate(),
            upstream_changed: self.upstream_changed.duplicate(),
            operation_changed: self.operation_changed.duplicate(),
            paths: self.paths.duplicate(),
            remotes_changed: self.remotes_changed.duplicate(),
            branches_changed: self.branches_changed.duplicate(),
            tags_changed: self.tags_changed.duplicate(),
            stashes_changed: self.stashes_changed.duplicate(),
            worktrees_changed: self.worktrees_changed.duplicate(),
            submodules_changed: self.submodules_changed.duplicate(),
        }
    }

    proof fn lemma_same_refl(&self) {
        self.repository_id.lemma_same_refl();
        self.identity_changed.lemma_same_refl();
        self.head_changed.lemma_same_refl();
        self.upstream_changed.lemma_same_refl();
        self.operation_changed.lemma_same_refl();
        self.paths.lemma_same_refl();
        self.remotes_changed.lemma_same_refl();
        self.branches_changed.lemma_same_refl();
        self.tags_changed.lemma_same_refl();
        self.stashes_changed.lemma_same_refl();
        self.worktrees_changed.lemma_same_refl();
        self.submodules_changed.lemma_same_refl();
    }

    proof fn lemma_same_trans(&self, b: &Self, c: &Self) {
        self.repository_id.lemma_same_trans(&b.repository_id, &c.repository_id);
        self.identity_changed.lemma_same_trans(&b.identity_changed, &c.identity_changed);
        self.head_changed.lemma_same_trans(&b.head_changed, &c.head_changed);
        self.upstream_changed.lemma_same_trans(&b.upstream_changed, &c.upstream_changed);
        self.operation_changed.lemma_same_trans(&b.operation_changed, &c.operation_changed);
        self.paths.lemma_same_trans(&b.paths, &c.paths);
        self.remotes_changed.lemma_same_trans(&b.remotes_changed, &c.remotes_changed);
        self.branches_changed.lemma_same_trans(&b.branches_changed, &c.branches_changed);
        self.tags_changed.lemma_same_trans(&b.tags_changed, &c.tags_changed);
        self.stashes_changed.lemma_same_trans(&b.stashes_changed, &c.stashes_changed);
        self.worktrees_changed.lemma_same_trans(&b.worktrees_changed, &c.worktrees_changed);
        self.submodules_changed.lemma_same_trans(&b.submodules_changed, &c.submodules_changed);
    }
}

/// The new values of the sections that changed.
#[derive(Debug, Clone, PartialEq, Eq, Default)]
pub struct SnapshotPatch {
    pub identity: Option<RepositoryIdentity>,
    pub head: Option<HeadState>,
    pub head_commit: Option<Option<CommitSummary>>,
    pub upstream: Option<Option<UpstreamState>>,
    pub paths: Option<PathState>,
    pub operation: Option<OperationState>,
    pub remotes: Option<Vec<RemoteSummary>>,
    pub branches: Option<Vec<BranchSummary>>,
    pub tags: Option<Vec<TagSummary>>,
    pub stashes: Option<Vec<StashSummary>>,
    pub worktrees: Option<Vec<WorktreeSummary>>,
    pub submodules: Option<Vec<SubmoduleSummary>>,
}

impl Same for SnapshotPatch {
    open spec fn same(&self, other: &Self) -> bool {
        &&& self.identity.same(&other.identity)
        &&& self.head.same(&other.head)
        &&& self.head_commit.same(&other.head_commit)
        &&& self.upstream.same(&other.upstream)
        &&& self.paths.same(&other.paths)
        &&& self.operation.same(&other.operation)
        &&& self.remotes.same(&other.remotes)
        &&& self.branches.same(&other.branches)
        &&& self.tags.same(&other.tags)
        &&& self.stashes.same(&other.stashes)
        &&& self.worktrees.same(&other.worktrees)
        &&& self.submodules.same(&other.submodules)
    }

    fn is_same(&self, other: &Self) -> (r: bool) {
        self.identity.is_same(&other.identity)
            && self.head.is_same(&other.head)
            && self.head_commit.is_same(&other.head_commit)
            && self.upstream.is_same(&other.upstream)
            && self.paths.is_same(&other.paths)
            && self.operation.is_same(&other.operation)
            && self.remotes.is_same(&other.remotes)
            && self.branches.is_same(&other.branches)
            && self.tags.is_same(&other.tags)
            && self.stashes.is_same(&other.stashes)
            && self.worktrees.is_same(&other.worktrees)
            && self.submodules.is_same(&other.submodules)
    }

    fn duplicate(&self) -> (r: Self) {
        SnapshotPatch {
            identity: self.identity.duplicate(),
            head: self.head.duplicate(),
            head_commit: self.head_commit.duplicate(),
            upstream: self.upstream.duplicate(),
            paths: self.paths.duplicate(),
            operation: self.operation.duplicate(),
            remotes: self.remotes.duplicate(),
            branches: self.branches.duplicate(),
            tags: self.tags.duplicate(),
            stashes: self.stashes.duplicate(),
            worktrees: self.worktrees.duplicate(),
            submodules: self.submodules.duplicate(),
        }
    }

    proof fn lemma_same_refl(&self) {
        self.identity.lemma_same_refl();
        self.head.lemma_same_refl();
        self.head_commit.lemma_same_refl();
        self.upstream.lemma_same_refl();
        self.paths.lemma_same_refl();
        self.operation.lemma_same_refl();
        self.remotes.lemma_same_refl();
        self.branches.lemma_same_refl();
        self.tags.lemma_same_refl();
        self.stashes.lemma_same_refl();
        self.worktrees.lemma_same_refl();
        self.submodules.lemma_same_refl();
    }

    proof fn lemma_same_trans(&self, b: &Self, c: &Self) {
        self.identity.lemma_same_trans(&b.identity, &c.identity);
        self.head.lemma_same_trans(&b.head, &c.head);
        self.head_commit.lemma_same_trans(&b.head_commit, &c.head_commit);
        self.upstream.lemma_same_trans(&b.upstream, &c.upstream);
        self.paths.lemma_same_trans(&b.paths, &c.paths);
        self.operation.lemma_same_trans(&b.operation, &c.operation);
        self.remotes.lemma_same_trans(&b.remotes, &c.remotes);
        self.branches.lemma_same_trans(&b.branches, &c.branches);
        self.tags.lemma_same_trans(&b.tags, &c.tags);
        self.stashes.lemma_same_trans(&b.stashes, &c.stashes);
        self.worktrees.lemma_same_trans(&b.worktrees, &c.worktrees);
        self.submodules.lemma_same_trans(&b.submodules, &c.submodules);
    }
}

} // verus!

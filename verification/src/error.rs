//! Errors of reading a repository.
use vstd::prelude::*;

use crate::text::own;

verus! {

/// The kind of a Git error, as far as the library tells kinds apart.
#[derive(Debug, Clone, Copy, PartialEq, Eq, Structural)]
pub enum GitErrorCode {
    NotFound,
    UnbornBranch,
    Other,
}

/// An error reported by Git.
#[derive(Debug, Clone, PartialEq, Eq)]
pub struct GitError {
    pub code: GitErrorCode,
    /// The error as Git describes it.
    pub message: String,
}

/// Why a snapshot could not be read.
#[derive(Debug, Clone, PartialEq, Eq)]
pub enum SnapshotError {
    /// The path is not inside a Git repository.
    NotRepository { path: String },
    /// Git failed while reading repository state.
    Git(GitError),
}

/// The description of a snapshot error.
pub open spec fn error_text(e: SnapshotError) -> Seq<char> {
    match e {
        SnapshotError::NotRepository { path } => "path is not inside a Git repository: "@ + path@,
        SnapshotError::Git(g) => "Git error while reading repository state: "@ + g.message@,
    }
}

impl SnapshotError {
    /// Describes the error.
    pub fn describe(&self) -> (r: String)
        ensures
            r@ == error_text(*self),
    {
        match self {
            SnapshotError::NotRepository { path } => {
                own("path is not inside a Git repository: ").concat(path.as_str())
            },
            SnapshotError::Git(g) => {
                own("Git error while reading repository state: ").concat(g.message.as_str())
            },
        }
    }
}

} // verus!

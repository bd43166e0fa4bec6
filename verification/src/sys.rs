//! Paths: the few `std::path` operations the library needs, on paths held as text.
use std::path::Path;
use vstd::prelude::*;
use crate::text::own;

verus! {

/// Whether `base` is a leading part of `path`, compared component by component
/// as `Path::starts_with` does.
pub uninterp spec fn path_has_prefix(path: Seq<char>, base: Seq<char>) -> bool;

/// `path` with the leading components `base` removed, as `Path::strip_prefix` does.
pub uninterp spec fn path_relative(path: Seq<char>, base: Seq<char>) -> Seq<char>;

/// `base` joined with `rel`, as `Path::join` does.
pub uninterp spec fn path_joined(base: Seq<char>, rel: Seq<char>) -> Seq<char>;

/// The last component of `path`, as `Path::file_name` gives it.
pub uninterp spec fn path_file_name(path: Seq<char>) -> Option<Seq<char>>;

/// The components of `path`, as `Path::components` gives them.
pub uninterp spec fn path_parts(path: Seq<char>) -> Seq<Seq<char>>;

/// Whether `path` is absolute, as `Path::is_absolute` tells on Unix: it
/// starts with the root `/`.
pub open spec fn path_absolute(path: Seq<char>) -> bool {
    path.len() > 0 && path[0] == '/'
}

/// Whether two paths are equal component by component, as `==` on `Path` tells.
pub uninterp spec fn path_equal(a: Seq<char>, b: Seq<char>) -> bool;

/// Calls `Path::starts_with`. Claims that the answer is a function of the two
/// paths, named `path_has_prefix`.
#[verifier::external_body]
pub(crate) fn path_starts_with(path: &str, base: &str) -> (r: bool)
    ensures
        r == path_has_prefix(path@, base@),
{
    Path::new(path).starts_with(base)
}

/// Calls `Path::strip_prefix`. Claims, as its documentation says, that it
/// succeeds exactly when `base` is a prefix (`Path::starts_with`), and that the
/// remainder, taken as text, is a function of the two paths.
#[verifier::external_body]
pub(crate) fn path_strip_prefix(path: &str, base: &str) -> (r: Option<String>)
    ensures
        r is Some <==> path_has_prefix(path@, base@),
        r matches Some(t) ==> t@ == path_relative(path@, base@),
{
    Path::new(path).strip_prefix(base).ok().map(|p| p.to_string_lossy().into_owned())
}

/// Calls `Path::join`. Claims that the result is a function of the two
/// paths, and, as its documentation says, that an absolute `rel` replaces
/// `base`.
#[verifier::external_body]
pub(crate) fn path_join(base: &str, rel: &str) -> (r: String)
    ensures
        r@ == path_joined(base@, rel@),
        path_absolute(rel@) ==> r@ == rel@,
{
    Path::new(base).join(rel).to_string_lossy().into_owned()
}

/// Calls `Path::file_name`. Claims that the result is a function of the path.
#[verifier::external_body]
pub(crate) fn file_name(path: &str) -> (r: Option<String>)
    ensures
        match r {
            Some(t) => path_file_name(path@) == Some(t@),
            None => path_file_name(path@) is None,
        },
{
    Path::new(path).file_name().map(|n| n.to_string_lossy().into_owned())
}

/// Calls `Path::components`. Claims that the result is a function of the path.
#[verifier::external_body]
pub(crate) fn components(path: &str) -> (r: Vec<String>)
    ensures
        r@.map_values(|c: String| c@) == path_parts(path@),
{
    Path::new(path).components().map(|c| c.as_os_str().to_string_lossy().into_owned()).collect()
}

/// Calls `Path::is_absolute`. Claims what its documentation says for Unix:
/// a path is absolute when it starts with the root `/`.
#[verifier::external_body]
pub(crate) fn is_absolute(path: &str) -> (r: bool)
    ensures
        r == path_absolute(path@),
{
    Path::new(path).is_absolute()
}

/// Compares two paths with `==` on `Path`. Claims that the answer is a
/// function of the two paths, and, since `Path` is `Eq`, that a path is
/// equal to itself.
#[verifier::external_body]
pub(crate) fn same_path_text(a: &str, b: &str) -> (r: bool)
    ensures
        r == path_equal(a@, b@),
        a@ == b@ ==> r,
{
    Path::new(a) == Path::new(b)
}

/// Calls `Path::canonicalize`. The answer depends on the file system; what
/// is claimed is what its documentation says of every answer: the canonical
/// form is absolute.
#[verifier::external_body]
pub(crate) fn canonical_path(path: &str) -> (r: Option<String>)
    ensures
        r matches Some(c) ==> path_absolute(c@),
{
    Path::new(path).canonicalize().ok().map(|p| p.to_string_lossy().into_owned())
}

/// Calls `Path::exists`. The answer depends on the file system; nothing is
/// claimed of it.
#[verifier::external_body]
pub(crate) fn path_exists(path: &str) -> (r: bool) {
    Path::new(path).exists()
}

/// What the file system answered when asked whether a path exists, kept
/// together with the path it was asked for. Only `ask_exists` makes one.
pub struct ExistenceAnswer {
    path: String,
    exists: bool,
}

impl ExistenceAnswer {
    /// The path that was asked for.
    pub closed spec fn asked(&self) -> Seq<char> {
        self.path@
    }

    /// Whether the answer was that the path exists.
    pub closed spec fn says_exists(&self) -> bool {
        self.exists
    }

    /// Whether the answer was that the path exists.
    pub fn answered_yes(&self) -> (r: bool)
        ensures
            r == self.says_exists(),
    {
        self.exists
    }
}

/// Asks the file system whether `path` exists (`Path::exists`), and keeps
/// the answer with the path.
pub fn ask_exists(path: &str) -> (r: ExistenceAnswer)
    ensures
        r.asked() == path@,
{
    ExistenceAnswer { path: own(path), exists: path_exists(path) }
}

/// Calls `Path::is_dir`. The answer depends on the file system; nothing is
/// claimed of it.
#[verifier::external_body]
pub(crate) fn path_is_dir(path: &str) -> (r: bool) {
    Path::new(path).is_dir()
}

/// Calls `Path::is_file`. The answer depends on the file system; nothing is
/// claimed of it.
#[verifier::external_body]
pub(crate) fn path_is_file(path: &str) -> (r: bool) {
    Path::new(path).is_file()
}

/// Every readable entry of a listing of `dir` has the path `dir` joined
/// with its name.
pub open spec fn listed_under(dir: Seq<char>, entries: Seq<Option<DirEntryInfo>>) -> bool {
    forall|i: int| 0 <= i < entries.len() ==> ((#[trigger] entries[i]) matches Some(e) ==> e.path@ == path_joined(
        dir,
        e.name@,
    ))
}

/// One entry of a directory listing.
#[derive(Debug, Clone, PartialEq, Eq)]
pub struct DirEntryInfo {
    pub path: String,
    pub name: String,
    /// Whether the entry is a directory; `None` when its type cannot be read.
    pub is_dir: Option<bool>,
}

/// Calls `Path::read_dir` and reads each entry's path, name and file type
/// (`None` for an entry that cannot be read, and for the whole listing when the
/// directory cannot be read). Which entries there are depends on the file
/// system; what is claimed is what `DirEntry::path` documents: an entry's
/// path is the listed directory joined with the entry's file name.
#[verifier::external_body]
pub(crate) fn list_dir(path: &str) -> (r: Option<Vec<Option<DirEntryInfo>>>)
    ensures
        r matches Some(v) ==> listed_under(path@, v@),
{
    let entries = Path::new(path).read_dir().ok()?;
    Some(entries.map(|e| e.ok().map(|e| DirEntryInfo {
        path: e.path().to_string_lossy().into_owned(),
        name: e.file_name().to_string_lossy().into_owned(),
        is_dir: e.file_type().ok().map(|t| t.is_dir()),
    })).collect())
}

} // verus!

//! Assembling snapshot sections from what libgit2 reports.
use vstd::prelude::*;

use crate::error::{GitError, GitErrorCode, SnapshotError};
use crate::git::{HeadRef, IndexConflictInfo, IndexFlags, StatusItem};
use crate::model::{
    ConflictSide, ConflictSummary, HeadKind, HeadState, PathEntry, PathEntryStatus, PathState,
};
use crate::sort::{sort_by_key, sorted_by_key};
use crate::text::{insert_sorted, sorted_unique, text_set};

verus! {

/// The HEAD state for what looking HEAD up gave: the branch it is attached to,
/// the commit it is detached at, an unborn branch, no HEAD at all, or an error.
pub open spec fn head_state_of(lookup: Result<HeadRef, GitError>) -> Result<HeadState, SnapshotError> {
    match lookup {
        Ok(h) => if h.is_branch {
            Ok(HeadState { kind: HeadKind::Attached, name: h.name, branch: h.shorthand, oid: h.target })
        } else {
            Ok(HeadState { kind: HeadKind::Detached, name: h.name, branch: None, oid: h.target })
        },
        Err(e) => if e.code == GitErrorCode::UnbornBranch {
            Ok(HeadState { kind: HeadKind::Unborn, name: None, branch: None, oid: None })
        } else if e.code == GitErrorCode::NotFound {
            Ok(HeadState { kind: HeadKind::Missing, name: None, branch: None, oid: None })
        } else {
            Err(SnapshotError::Git(e))
        },
    }
}

/// The HEAD state for the result of looking HEAD up.
pub fn head_state_from(lookup: Result<HeadRef, GitError>) -> (r: Result<HeadState, SnapshotError>)
    ensures
        r == head_state_of(lookup),
{
    match lookup {
        Ok(h) => {
            if h.is_branch {
                Ok(HeadState { kind: HeadKind::Attached, name: h.name, branch: h.shorthand, oid: h.target })
            } else {
                Ok(HeadState { kind: HeadKind::Detached, name: h.name, branch: None, oid: h.target })
            }
        },
        Err(e) => {
            if e.code == GitErrorCode::UnbornBranch {
                Ok(HeadState { kind: HeadKind::Unborn, name: None, branch: None, oid: None })
            } else if e.code == GitErrorCode::NotFound {
                Ok(HeadState { kind: HeadKind::Missing, name: None, branch: None, oid: None })
            } else {
                Err(SnapshotError::Git(e))
            }
        },
    }
}

/// A status entry has a change staged in the index.
pub open spec fn staged_flags(s: StatusItem) -> bool {
    s.index.0 || s.index.1 || s.index.2 || s.index.3 || s.index.4
}

/// A status entry has a change in the working tree that is not an untracked file.
pub open spec fn unstaged_flags(s: StatusItem) -> bool {
    s.workdir.1 || s.workdir.2 || s.workdir.3 || s.workdir.4 || s.workdir.5
}

/// The entry that a status item with a path stands for.
pub open spec fn status_entry(s: StatusItem, path: String) -> PathEntry {
    PathEntry {
        path: path,
        staged_old_path: s.staged_old_path,
        staged_new_path: s.staged_new_path,
        workdir_old_path: s.workdir_old_path,
        workdir_new_path: s.workdir_new_path,
        status: PathEntryStatus {
            index_new: s.index.0,
            index_modified: s.index.1,
            index_deleted: s.index.2,
            index_renamed: s.index.3,
            index_typechange: s.index.4,
            workdir_new: s.workdir.0,
            workdir_modified: s.workdir.1,
            workdir_deleted: s.workdir.2,
            workdir_typechange: s.workdir.3,
            workdir_renamed: s.workdir.4,
            workdir_unreadable: s.workdir.5,
            ignored: s.other.0,
            conflicted: s.other.1,
            assume_unchanged: false,
            skip_worktree: false,
        },
    }
}

/// The status item has the path `t`.
pub open spec fn has_path(s: StatusItem, t: Seq<char>) -> bool {
    s.path is Some && s.path->0@ == t
}

/// The paths of the status items (that have a path) for which `f` holds.
pub open spec fn status_paths(items: Seq<StatusItem>, f: spec_fn(StatusItem) -> bool) -> Set<Seq<char>> {
    Set::new(
        |t: Seq<char>|
            exists|i: int|
                0 <= i < items.len() && has_path(#[trigger] items[i], t) && f(items[i]),
    )
}

/// The entries of the status items that have a path, in order.
pub open spec fn status_entries(items: Seq<StatusItem>) -> Seq<PathEntry>
    decreases items.len(),
{
    if items.len() == 0 {
        Seq::empty()
    } else {
        let rest = status_entries(items.drop_last());
        match items.last().path {
            Some(p) => rest.push(status_entry(items.last(), p)),
            None => rest,
        }
    }
}

/// The position of the first entry for `path`, or -1.
pub open spec fn first_entry_index(entries: Seq<PathEntry>, path: Seq<char>) -> int
    decreases entries.len(),
{
    if entries.len() == 0 {
        -1
    } else if entries[0].path@ == path {
        0
    } else {
        let k = first_entry_index(entries.drop_first(), path);
        if k < 0 {
            -1
        } else {
            k + 1
        }
    }
}

/// An entry with the assume-unchanged and skip-worktree flags of `f`.
pub open spec fn flagged(e: PathEntry, f: IndexFlags) -> PathEntry {
    PathEntry {
        status: PathEntryStatus {
            assume_unchanged: f.assume_unchanged,
            skip_worktree: f.skip_worktree,
            ..e.status
        },
        ..e
    }
}

/// A new entry for the path of `f` that has only its two flags.
pub open spec fn flag_only_entry(f: IndexFlags) -> PathEntry {
    PathEntry {
        path: f.path,
        staged_old_path: None,
        staged_new_path: None,
        workdir_old_path: None,
        workdir_new_path: None,
        status: PathEntryStatus {
            index_new: false,
            index_modified: false,
            index_deleted: false,
            index_renamed: false,
            index_typechange: false,
            workdir_new: false,
            workdir_modified: false,
            workdir_deleted: false,
            workdir_typechange: false,
            workdir_renamed: false,
            workdir_unreadable: false,
            ignored: false,
            conflicted: false,
            assume_unchanged: f.assume_unchanged,
            skip_worktree: f.skip_worktree,
        },
    }
}

/// The entries after one index flag entry is taken into account: an entry
/// that is neither assume-unchanged nor skip-worktree changes nothing; else
/// the first entry for its path gets the two flags, or a new entry with only
/// these flags is added.
pub open spec fn with_index_flag(entries: Seq<PathEntry>, f: IndexFlags) -> Seq<PathEntry> {
    if !f.assume_unchanged && !f.skip_worktree {
        entries
    } else {
        let k = first_entry_index(entries, f.path@);
        if k >= 0 {
            entries.update(k, flagged(entries[k], f))
        } else {
            entries.push(flag_only_entry(f))
        }
    }
}

/// The entries after all index flag entries are taken into account, in order.
pub open spec fn with_index_flags(entries: Seq<PathEntry>, flags: Seq<IndexFlags>) -> Seq<PathEntry>
    decreases flags.len(),
{
    if flags.len() == 0 {
        entries
    } else {
        with_index_flag(with_index_flags(entries, flags.drop_last()), flags.last())
    }
}

/// The path state for the status items, the conflicts and the index flags:
/// each path set sorted and without repeats, and the entries sorted by path.
pub open spec fn is_path_state_of(
    r: PathState,
    items: Seq<StatusItem>,
    conflicts: Seq<ConflictSummary>,
    flags: Seq<IndexFlags>,
) -> bool {
    &&& sorted_unique(r.staged@)
    &&& sorted_unique(r.unstaged@)
    &&& sorted_unique(r.untracked@)
    &&& sorted_unique(r.ignored@)
    &&& sorted_unique(r.conflicted@)
    &&& text_set(r.staged@) == status_paths(items, |s: StatusItem| staged_flags(s))
    &&& text_set(r.unstaged@) == status_paths(items, |s: StatusItem| unstaged_flags(s))
    &&& text_set(r.untracked@) == status_paths(items, |s: StatusItem| s.workdir.0)
    &&& text_set(r.ignored@) == status_paths(items, |s: StatusItem| s.other.0)
    &&& text_set(r.conflicted@) == status_paths(items, |s: StatusItem| s.other.1)
    &&& r.conflicts@ == conflicts
    &&& sorted_by_key(r.entries@)
    &&& r.entries@.to_multiset() == with_index_flags(status_entries(items), flags).to_multiset()
}

proof fn lemma_status_paths_extend(items: Seq<StatusItem>, i: int, f: spec_fn(StatusItem) -> bool)
    requires
        0 <= i < items.len(),
    ensures
        status_paths(items.subrange(0, i + 1), f) == (if items[i].path is Some && f(items[i]) {
            status_paths(items.subrange(0, i), f).insert(items[i].path->0@)
        } else {
            status_paths(items.subrange(0, i), f)
        }),
{
    let a = items.subrange(0, i + 1);
    let b = items.subrange(0, i);
    assert forall|t: Seq<char>| status_paths(a, f).contains(t) == (if items[i].path is Some && f(items[i]) {
        status_paths(b, f).insert(items[i].path->0@)
    } else {
        status_paths(b, f)
    }).contains(t) by {
        if status_paths(a, f).contains(t) {
            let k = choose|k: int| 0 <= k < a.len() && has_path(#[trigger] a[k], t) && f(a[k]);
            if k < i {
                assert(b[k] == a[k]);
            }
        }
        if status_paths(b, f).contains(t) {
            let k = choose|k: int| 0 <= k < b.len() && has_path(#[trigger] b[k], t) && f(b[k]);
            assert(a[k] == b[k]);
        }
        if items[i].path is Some && f(items[i]) && t == items[i].path->0@ {
            assert(a[i] == items[i]);
        }
    }
    assert(status_paths(a, f) =~= (if items[i].path is Some && f(items[i]) {
        status_paths(b, f).insert(items[i].path->0@)
    } else {
        status_paths(b, f)
    }));
}

/// Adds the path of a status item to a path set when `flag` holds.
fn add_path_if(
    set: &mut Vec<String>,
    items: &Vec<StatusItem>,
    i: usize,
    flag: bool,
    f: Ghost<spec_fn(StatusItem) -> bool>,
)
    requires
        i < items@.len(),
        items@[i as int].path is Some,
        flag == f@(items@[i as int]),
        sorted_unique(old(set)@),
        text_set(old(set)@) == status_paths(items@.subrange(0, i as int), f@),
    ensures
        sorted_unique(final(set)@),
        text_set(final(set)@) == status_paths(items@.subrange(0, i + 1), f@),
{
    proof {
        lemma_status_paths_extend(items@, i as int, f@);
    }
    if flag {
        match &items[i].path {
            Some(p) => insert_sorted(set, p.clone()),
            None => {},
        }
    }
}

proof fn lemma_first_entry_found(e: Seq<PathEntry>, p: Seq<char>, k: int)
    requires
        0 <= k < e.len(),
        e[k].path@ == p,
        forall|j: int| 0 <= j < k ==> (#[trigger] e[j]).path@ != p,
    ensures
        first_entry_index(e, p) == k,
    decreases k,
{
    if k > 0 {
        assert(e[0].path@ != p);
        lemma_first_entry_found(e.drop_first(), p, k - 1);
    }
}

proof fn lemma_first_entry_none(e: Seq<PathEntry>, p: Seq<char>)
    requires
        forall|j: int| 0 <= j < e.len() ==> (#[trigger] e[j]).path@ != p,
    ensures
        first_entry_index(e, p) == -1,
    decreases e.len(),
{
    if e.len() > 0 {
        assert(e[0].path@ != p);
        lemma_first_entry_none(e.drop_first(), p);
    }
}

fn flag_entry(e: PathEntry, f: &IndexFlags) -> (r: PathEntry)
    ensures
        r == flagged(e, *f),
{
    let PathEntry { path, staged_old_path, staged_new_path, workdir_old_path, workdir_new_path, status } = e;
    let status = PathEntryStatus {
        assume_unchanged: f.assume_unchanged,
        skip_worktree: f.skip_worktree,
        ..status
    };
    PathEntry { path, staged_old_path, staged_new_path, workdir_old_path, workdir_new_path, status }
}

fn set_entry_flags(entries: &mut Vec<PathEntry>, k: usize, f: &IndexFlags)
    requires
        k < old(entries)@.len(),
    ensures
        final(entries)@ == old(entries)@.update(k as int, flagged(old(entries)@[k as int], *f)),
{
    let ghost before = entries@;
    let e = entries.remove(k);
    let ghost removed = entries@;
    let e = flag_entry(e, f);
    entries.insert(k, e);
    assert(entries@ =~= before.update(k as int, flagged(before[k as int], *f))) by {
        assert(removed =~= before.remove(k as int));
    }
}

fn flag_only(f: &IndexFlags) -> (r: PathEntry)
    ensures
        r == flag_only_entry(*f),
{
    PathEntry {
        path: f.path.clone(),
        staged_old_path: None,
        staged_new_path: None,
        workdir_old_path: None,
        workdir_new_path: None,
        status: PathEntryStatus {
            index_new: false,
            index_modified: false,
            index_deleted: false,
            index_renamed: false,
            index_typechange: false,
            workdir_new: false,
            workdir_modified: false,
            workdir_deleted: false,
            workdir_typechange: false,
            workdir_renamed: false,
            workdir_unreadable: false,
            ignored: false,
            conflicted: false,
            assume_unchanged: f.assume_unchanged,
            skip_worktree: f.skip_worktree,
        },
    }
}

/// Sets the two index flags on the first entry for the path, or adds an entry.
fn apply_index_flag(entries: &mut Vec<PathEntry>, f: &IndexFlags)
    ensures
        final(entries)@ == with_index_flag(old(entries)@, *f),
{
    if !f.assume_unchanged && !f.skip_worktree {
        return;
    }
    let mut k: usize = 0;
    while k < entries.len()
        invariant
            entries@ == old(entries)@,
            f.assume_unchanged || f.skip_worktree,
            k <= entries@.len(),
            forall|j: int| 0 <= j < k ==> (#[trigger] entries@[j]).path@ != f.path@,
        decreases entries.len() - k,
    {
        if entries[k].path == f.path {
            proof {
                assert(entries@[k as int].path@ == f.path@);
                lemma_first_entry_found(entries@, f.path@, k as int);
            }
            set_entry_flags(entries, k, f);
            return;
        }
        k = k + 1;
    }
    proof {
        lemma_first_entry_none(entries@, f.path@);
    }
    entries.push(flag_only(f));
}

/// A copy of an optional text.
fn copy_text(o: &Option<String>) -> (r: Option<String>)
    ensures
        r == *o,
{
    match o {
        Some(t) => Some(t.clone()),
        None => None,
    }
}

/// The entry for a status item with the path `path`.
fn entry_from_status(s: &StatusItem, path: String) -> (r: PathEntry)
    ensures
        r == status_entry(*s, path),
{
    PathEntry {
        path: path,
        staged_old_path: copy_text(&s.staged_old_path),
        staged_new_path: copy_text(&s.staged_new_path),
        workdir_old_path: copy_text(&s.workdir_old_path),
        workdir_new_path: copy_text(&s.workdir_new_path),
        status: PathEntryStatus {
            index_new: s.index.0,
            index_modified: s.index.1,
            index_deleted: s.index.2,
            index_renamed: s.index.3,
            index_typechange: s.index.4,
            workdir_new: s.workdir.0,
            workdir_modified: s.workdir.1,
            workdir_deleted: s.workdir.2,
            workdir_typechange: s.workdir.3,
            workdir_renamed: s.workdir.4,
            workdir_unreadable: s.workdir.5,
            ignored: s.other.0,
            conflicted: s.other.1,
            assume_unchanged: false,
            skip_worktree: false,
        },
    }
}

/// The five path sets and the entries, read from the status items.
fn collect_status(items: &Vec<StatusItem>) -> (r: (Vec<String>, Vec<String>, Vec<String>, Vec<String>, Vec<String>, Vec<PathEntry>))
    ensures
        sorted_unique(r.0@),
        sorted_unique(r.1@),
        sorted_unique(r.2@),
        sorted_unique(r.3@),
        sorted_unique(r.4@),
        text_set(r.0@) == status_paths(items@, |s: StatusItem| staged_flags(s)),
        text_set(r.1@) == status_paths(items@, |s: StatusItem| unstaged_flags(s)),
        text_set(r.2@) == status_paths(items@, |s: StatusItem| s.workdir.0),
        text_set(r.3@) == status_paths(items@, |s: StatusItem| s.other.0),
        text_set(r.4@) == status_paths(items@, |s: StatusItem| s.other.1),
        r.5@ == status_entries(items@),
{
    let ghost f0 = |s: StatusItem| staged_flags(s);
    let ghost f1 = |s: StatusItem| unstaged_flags(s);
    let ghost f2 = |s: StatusItem| s.workdir.0;
    let ghost f3 = |s: StatusItem| s.other.0;
    let ghost f4 = |s: StatusItem| s.other.1;
    let mut staged: Vec<String> = Vec::new();
    let mut unstaged: Vec<String> = Vec::new();
    let mut untracked: Vec<String> = Vec::new();
    let mut ignored: Vec<String> = Vec::new();
    let mut conflicted: Vec<String> = Vec::new();
    let mut entries: Vec<PathEntry> = Vec::new();
    let mut i: usize = 0;
    proof {
        let e = items@.subrange(0, 0);
        assert(status_paths(e, f0) =~= Set::empty());
        assert(status_paths(e, f1) =~= Set::empty());
        assert(status_paths(e, f2) =~= Set::empty());
        assert(status_paths(e, f3) =~= Set::empty());
        assert(status_paths(e, f4) =~= Set::empty());
        assert(text_set(staged@) =~= Set::empty());
        assert(status_entries(e) =~= Seq::empty());
    }
    while i < items.len()
        invariant
            i <= items@.len(),
            f0 == (|s: StatusItem| staged_flags(s)),
            f1 == (|s: StatusItem| unstaged_flags(s)),
            f2 == (|s: StatusItem| s.workdir.0),
            f3 == (|s: StatusItem| s.other.0),
            f4 == (|s: StatusItem| s.other.1),
            sorted_unique(staged@),
            sorted_unique(unstaged@),
            sorted_unique(untracked@),
            sorted_unique(ignored@),
            sorted_unique(conflicted@),
            text_set(staged@) == status_paths(items@.subrange(0, i as int), f0),
            text_set(unstaged@) == status_paths(items@.subrange(0, i as int), f1),
            text_set(untracked@) == status_paths(items@.subrange(0, i as int), f2),
            text_set(ignored@) == status_paths(items@.subrange(0, i as int), f3),
            text_set(conflicted@) == status_paths(items@.subrange(0, i as int), f4),
            entries@ == status_entries(items@.subrange(0, i as int)),
        decreases items.len() - i,
    {
        let ghost sub = items@.subrange(0, i + 1);
        assert(sub.drop_last() =~= items@.subrange(0, i as int));
        assert(sub.last() == items@[i as int]);
        match &items[i].path {
            Some(p) => {
                let it = &items[i];
                let is_staged = it.index.0 || it.index.1 || it.index.2 || it.index.3 || it.index.4;
                let is_unstaged = it.workdir.1 || it.workdir.2 || it.workdir.3 || it.workdir.4 || it.workdir.5;
                add_path_if(&mut staged, items, i, is_staged, Ghost(f0));
                add_path_if(&mut unstaged, items, i, is_unstaged, Ghost(f1));
                add_path_if(&mut untracked, items, i, it.workdir.0, Ghost(f2));
                add_path_if(&mut ignored, items, i, it.other.0, Ghost(f3));
                add_path_if(&mut conflicted, items, i, it.other.1, Ghost(f4));
                entries.push(entry_from_status(it, p.clone()));
            },
            None => {
                proof {
                    lemma_status_paths_extend(items@, i as int, f0);
                    lemma_status_paths_extend(items@, i as int, f1);
                    lemma_status_paths_extend(items@, i as int, f2);
                    lemma_status_paths_extend(items@, i as int, f3);
                    lemma_status_paths_extend(items@, i as int, f4);
                }
            },
        }
        i = i + 1;
    }
    assert(items@.subrange(0, items@.len() as int) =~= items@);
    (staged, unstaged, untracked, ignored, conflicted, entries)
}

/// The path state for the status items, the conflict list and the index
/// flag entries.
pub fn path_state_from(items: &Vec<StatusItem>, conflicts: Vec<ConflictSummary>, flags: &Vec<IndexFlags>) -> (r: PathState)
    ensures
        is_path_state_of(r, items@, conflicts@, flags@),
{
    let (staged, unstaged, untracked, ignored, conflicted, mut entries) = collect_status(items);
    let ghost base = entries@;
    let mut i: usize = 0;
    while i < flags.len()
        invariant
            i <= flags@.len(),
            entries@ == with_index_flags(base, flags@.subrange(0, i as int)),
        decreases flags.len() - i,
    {
        proof {
            assert(flags@.subrange(0, i + 1).drop_last() =~= flags@.subrange(0, i as int));
        }
        apply_index_flag(&mut entries, &flags[i]);
        i = i + 1;
    }
    assert(flags@.subrange(0, flags@.len() as int) =~= flags@);
    let entries = sort_by_key(entries);
    PathState { staged, unstaged, untracked, ignored, conflicted, conflicts, entries }
}

} // verus!

//! Differences between two snapshots, and the patch that carries them.
use vstd::prelude::*;

use crate::model::{
    CommitSummary, PathDelta, PathEntry, PathSetDelta, PathState, RepositorySnapshot, Same,
    SnapshotDelta, SnapshotPatch, UpstreamState,
};
use crate::text::{
    insert_sorted, lemma_text_le_antisym, lemma_text_le_total, lemma_text_set_extend, sorted_texts,
    sorted_unique, text_difference, text_le, text_set,
};

verus! {

impl PathSetDelta {
    pub open spec fn changes(&self) -> bool {
        self.added@.len() > 0 || self.removed@.len() > 0
    }

    /// Whether any path entered or left the set.
    pub fn has_changes(&self) -> (r: bool)
        ensures
            r == self.changes(),
    {
        !self.added.is_empty() || !self.removed.is_empty()
    }
}

impl PathDelta {
    pub open spec fn changes(&self) -> bool {
        self.staged.changes() || self.unstaged.changes() || self.untracked.changes()
            || self.ignored.changes() || self.conflicted.changes()
            || self.entries_changed@.len() > 0
    }

    /// Whether any path set or path entry changed.
    pub fn has_changes(&self) -> (r: bool)
        ensures
            r == self.changes(),
    {
        self.staged.has_changes() || self.unstaged.has_changes() || self.untracked.has_changes()
            || self.ignored.has_changes() || self.conflicted.has_changes()
            || !self.entries_changed.is_empty()
    }
}

impl SnapshotDelta {
    pub open spec fn changes(&self) -> bool {
        self.head_changed || self.identity_changed || self.upstream_changed
            || self.operation_changed || self.paths.changes() || self.remotes_changed
            || self.branches_changed || self.tags_changed || self.stashes_changed
            || self.worktrees_changed || self.submodules_changed
    }

    /// Whether any section of the snapshot changed.
    pub fn has_changes(&self) -> (r: bool)
        ensures
            r == self.changes(),
    {
        self.head_changed || self.identity_changed || self.upstream_changed
            || self.operation_changed || self.paths.has_changes() || self.remotes_changed
            || self.branches_changed || self.tags_changed || self.stashes_changed
            || self.worktrees_changed || self.submodules_changed
    }
}

/// `d` is the difference between the path lists `previous` and `current`:
/// what entered and what left, each sorted and without repeats.
pub open spec fn is_set_delta(d: PathSetDelta, previous: Seq<String>, current: Seq<String>) -> bool {
    &&& sorted_unique(d.added@)
    &&& sorted_unique(d.removed@)
    &&& text_set(d.added@) == text_set(current).difference(text_set(previous))
    &&& text_set(d.removed@) == text_set(previous).difference(text_set(current))
}

/// The difference between two path lists, taken as sets.
pub fn path_set_delta(previous: &[String], current: &[String]) -> (r: PathSetDelta)
    ensures
        is_set_delta(r, previous@, current@),
{
    PathSetDelta {
        added: text_difference(current, previous),
        removed: text_difference(previous, current),
    }
}

/// The position of the last entry for `path`, or -1 when there is none.
/// (Of several entries for one path, the last one counts.)
pub open spec fn last_entry_index(entries: Seq<PathEntry>, path: Seq<char>) -> int
    decreases entries.len(),
{
    if entries.len() == 0 {
        -1
    } else if entries.last().path@ == path {
        entries.len() - 1
    } else {
        last_entry_index(entries.drop_last(), path)
    }
}

/// The texts of the paths of the entries.
pub open spec fn entry_paths(entries: Seq<PathEntry>) -> Set<Seq<char>> {
    Set::new(|t: Seq<char>| exists|i: int| 0 <= i < entries.len() && (#[trigger] entries[i]).path@ == t)
}

/// The entry for `path` differs between the two lists: present in one only,
/// or present in both with different data.
pub open spec fn entry_differs(previous: Seq<PathEntry>, current: Seq<PathEntry>, path: Seq<char>) -> bool {
    let i = last_entry_index(previous, path);
    let j = last_entry_index(current, path);
    if i < 0 && j < 0 {
        false
    } else if i < 0 || j < 0 {
        true
    } else {
        !previous[i].same(&current[j])
    }
}

proof fn lemma_last_entry_index(entries: Seq<PathEntry>, path: Seq<char>)
    ensures
        -1 <= last_entry_index(entries, path) < entries.len(),
        last_entry_index(entries, path) >= 0 ==> entries[last_entry_index(entries, path)].path@ == path,
        last_entry_index(entries, path) < 0 <==> !entry_paths(entries).contains(path),
    decreases entries.len(),
{
    if entries.len() > 0 {
        lemma_last_entry_index(entries.drop_last(), path);
        if entries.last().path@ != path {
            if entry_paths(entries).contains(path) {
                let k = choose|k: int| 0 <= k < entries.len() && (#[trigger] entries[k]).path@ == path;
                assert(entries.drop_last()[k].path@ == path);
            }
            if entry_paths(entries.drop_last()).contains(path) {
                let k = choose|k: int| 0 <= k < entries.len() - 1 && (#[trigger] entries.drop_last()[k]).path@ == path;
                assert(entries[k].path@ == path);
            }
        } else {
            assert(entries[entries.len() - 1].path@ == path);
        }
    }
}

/// The position of the last entry for `path`.
fn find_last_entry(entries: &Vec<PathEntry>, path: &String) -> (r: Option<usize>)
    ensures
        match r {
            Some(i) => i < entries@.len() && i as int == last_entry_index(entries@, path@),
            None => last_entry_index(entries@, path@) == -1,
        },
{
    let mut i = entries.len();
    assert(entries@.subrange(0, i as int) =~= entries@);
    while i > 0
        invariant
            i <= entries@.len(),
            last_entry_index(entries@, path@) == last_entry_index(entries@.subrange(0, i as int), path@),
        decreases i,
    {
        assert(entries@.subrange(0, i as int).drop_last() =~= entries@.subrange(0, i - 1));
        if entries[i - 1].path == *path {
            return Some(i - 1);
        }
        i = i - 1;
    }
    None
}

/// The sorted, repeat-free texts of the paths of the entries.
fn entry_path_texts(entries: &Vec<PathEntry>) -> (r: Vec<String>)
    ensures
        sorted_unique(r@),
        text_set(r@) == entry_paths(entries@),
{
    let mut paths: Vec<String> = Vec::new();
    let mut i: usize = 0;
    while i < entries.len()
        invariant
            i <= entries@.len(),
            paths@.len() == i,
            forall|k: int| 0 <= k < i ==> (#[trigger] paths@[k])@ == entries@[k].path@,
        decreases entries.len() - i,
    {
        paths.push(entries[i].path.clone());
        i = i + 1;
    }
    let r = sorted_texts(paths.as_slice());
    assert(text_set(paths@) =~= entry_paths(entries@)) by {
        assert forall|t: Seq<char>| text_set(paths@).contains(t) implies entry_paths(entries@).contains(t) by {
            let k = choose|k: int| 0 <= k < paths@.len() && (#[trigger] paths@[k])@ == t;
            assert(entries@[k].path@ == t);
        }
        assert forall|t: Seq<char>| entry_paths(entries@).contains(t) implies text_set(paths@).contains(t) by {
            let k = choose|k: int| 0 <= k < entries@.len() && (#[trigger] entries@[k]).path@ == t;
            assert(paths@[k]@ == t);
        }
    }
    r
}

/// `d` is the difference between two path states.
pub open spec fn is_path_delta(d: PathDelta, previous: PathState, current: PathState) -> bool {
    &&& is_set_delta(d.staged, previous.staged@, current.staged@)
    &&& is_set_delta(d.unstaged, previous.unstaged@, current.unstaged@)
    &&& is_set_delta(d.untracked, previous.untracked@, current.untracked@)
    &&& is_set_delta(d.ignored, previous.ignored@, current.ignored@)
    &&& is_set_delta(d.conflicted, previous.conflicted@, current.conflicted@)
    &&& sorted_unique(d.entries_changed@)
    &&& text_set(d.entries_changed@) == entry_paths(previous.entries@).union(
        entry_paths(current.entries@),
    ).filter(|t: Seq<char>| entry_differs(previous.entries@, current.entries@, t))
}

/// The difference between two path states: each path set compared as a set,
/// and the paths whose entry appeared, disappeared or changed.
pub fn path_delta(previous: &PathState, current: &PathState) -> (r: PathDelta)
    ensures
        is_path_delta(r, *previous, *current),
{
    let prev_paths = entry_path_texts(&previous.entries);
    let cur_paths = entry_path_texts(&current.entries);
    let mut all: Vec<String> = prev_paths.clone();
    let mut i: usize = 0;
    assert(text_set(all@) =~= text_set(prev_paths@));
    while i < cur_paths.len()
        invariant
            i <= cur_paths@.len(),
            sorted_unique(all@),
            text_set(all@) == text_set(prev_paths@).union(text_set(cur_paths@.subrange(0, i as int))),
        decreases cur_paths.len() - i,
    {
        insert_sorted(&mut all, cur_paths[i].clone());
        proof {
            lemma_text_set_extend(cur_paths@, i as int);
            assert(text_set(all@) =~= text_set(prev_paths@).union(text_set(cur_paths@.subrange(0, i + 1))));
        }
        i = i + 1;
    }
    assert(cur_paths@.subrange(0, cur_paths@.len() as int) =~= cur_paths@);
    let ghost universe = entry_paths(previous.entries@).union(entry_paths(current.entries@));
    let ghost differs = |t: Seq<char>| entry_differs(previous.entries@, current.entries@, t);
    let mut changed: Vec<String> = Vec::new();
    let mut k: usize = 0;
    while k < all.len()
        invariant
            k <= all@.len(),
            sorted_unique(all@),
            text_set(all@) == universe,
            universe == entry_paths(previous.entries@).union(entry_paths(current.entries@)),
            differs == (|t: Seq<char>| entry_differs(previous.entries@, current.entries@, t)),
            changed@ == all@.subrange(0, k as int).filter(|s: String| differs(s@)),
        decreases all.len() - k,
    {
        let p = find_last_entry(&previous.entries, &all[k]);
        let c = find_last_entry(&current.entries, &all[k]);
        let differ = match (p, c) {
            (None, None) => false,
            (Some(a), Some(b)) => !previous.entries[a].is_same(&current.entries[b]),
            _ => true,
        };
        proof {
            reveal(Seq::filter);
            assert(all@.subrange(0, k + 1).drop_last() =~= all@.subrange(0, k as int));
        }
        if differ {
            changed.push(all[k].clone());
        }
        k = k + 1;
    }
    assert(all@.subrange(0, all@.len() as int) =~= all@);
    proof {
        lemma_filter_sorted_unique(all@, |s: String| differs(s@));
        lemma_filter_text_set(all@, differs);
        assert(text_set(changed@) =~= universe.filter(differs));
    }
    PathDelta {
        staged: path_set_delta(&previous.staged, &current.staged),
        unstaged: path_set_delta(&previous.unstaged, &current.unstaged),
        untracked: path_set_delta(&previous.untracked, &current.untracked),
        ignored: path_set_delta(&previous.ignored, &current.ignored),
        conflicted: path_set_delta(&previous.conflicted, &current.conflicted),
        entries_changed: changed,
    }
}

proof fn lemma_filter_sorted_unique(s: Seq<String>, f: spec_fn(String) -> bool)
    requires
        sorted_unique(s),
    ensures
        sorted_unique(s.filter(f)),
        forall|i: int| 0 <= i < s.filter(f).len() ==> s.contains(#[trigger] s.filter(f)[i]),
    decreases s.len(),
{
    reveal(Seq::filter);
    if s.len() > 0 {
        let t = s.drop_last();
        assert(sorted_unique(t));
        lemma_filter_sorted_unique(t, f);
        if f(s.last()) {
            let r = t.filter(f);
            assert(s.filter(f) == r.push(s.last()));
            assert forall|i: int, j: int| 0 <= i < j < r.push(s.last()).len() implies text_le((#[trigger] r.push(s.last())[i])@, (#[trigger] r.push(s.last())[j])@) && r.push(s.last())[i]@ != r.push(s.last())[j]@ by {
                if j == r.len() {
                    assert(t.contains(r[i]));
                    let k = choose|k: int| 0 <= k < t.len() && t[k] == r[i];
                    assert(s[k] == t[k]);
                    assert(s[s.len() - 1] == s.last());
                }
            }
            assert forall|i: int| 0 <= i < s.filter(f).len() implies s.contains(#[trigger] s.filter(f)[i]) by {
                if i < r.len() {
                    assert(t.contains(r[i]));
                    let k = choose|k: int| 0 <= k < t.len() && t[k] == r[i];
                    assert(s[k] == t[k]);
                } else {
                    assert(s[s.len() - 1] == s.last());
                }
            }
        } else {
            assert forall|i: int| 0 <= i < s.filter(f).len() implies s.contains(#[trigger] s.filter(f)[i]) by {
                assert(t.contains(t.filter(f)[i]));
                let k = choose|k: int| 0 <= k < t.len() && t[k] == t.filter(f)[i];
                assert(s[k] == t[k]);
            }
        }
    }
}

proof fn lemma_filter_text_set(s: Seq<String>, f: spec_fn(Seq<char>) -> bool)
    ensures
        text_set(s.filter(|x: String| f(x@))) == text_set(s).filter(f),
    decreases s.len(),
{
    reveal(Seq::filter);
    let g = |x: String| f(x@);
    if s.len() > 0 {
        let t = s.drop_last();
        lemma_filter_text_set(t, f);
        assert(s.filter(g) == if g(s.last()) { t.filter(g).push(s.last()) } else { t.filter(g) });
        assert(text_set(s) =~= text_set(t).insert(s.last()@)) by {
            assert(t =~= s.subrange(0, s.len() - 1));
            assert(s.subrange(0, s.len() as int) =~= s);
            lemma_text_set_extend(s, s.len() - 1);
        }
        if g(s.last()) {
            let r = t.filter(g);
            assert(text_set(r.push(s.last())) =~= text_set(r).insert(s.last()@)) by {
                assert(r =~= r.push(s.last()).subrange(0, r.len() as int));
                assert(r.push(s.last()).subrange(0, r.len() as int + 1) =~= r.push(s.last()));
                lemma_text_set_extend(r.push(s.last()), r.len() as int);
            }
        }
        assert(text_set(s.filter(g)) =~= text_set(s).filter(f));
    } else {
        assert(text_set(s.filter(g)) =~= text_set(s).filter(f));
    }
}

/// `d` is the difference between two snapshots: each flag is set exactly when
/// its section differs, and the path delta is the difference of the path states.
pub open spec fn is_snapshot_delta(
    d: SnapshotDelta,
    previous: RepositorySnapshot,
    current: RepositorySnapshot,
) -> bool {
    &&& d.repository_id@ == current.identity.id@
    &&& d.identity_changed == !previous.identity.same(&current.identity)
    &&& d.head_changed == !(previous.head.same(&current.head) && previous.head_commit.same(
        &current.head_commit,
    ))
    &&& d.upstream_changed == !previous.upstream.same(&current.upstream)
    &&& d.operation_changed == !previous.operation.same(&current.operation)
    &&& is_path_delta(d.paths, previous.paths, current.paths)
    &&& d.remotes_changed == !previous.remotes.same(&current.remotes)
    &&& d.branches_changed == !previous.branches.same(&current.branches)
    &&& d.tags_changed == !previous.tags.same(&current.tags)
    &&& d.stashes_changed == !previous.stashes.same(&current.stashes)
    &&& d.worktrees_changed == !previous.worktrees.same(&current.worktrees)
    &&& d.submodules_changed == !previous.submodules.same(&current.submodules)
}

/// The coarse difference between two snapshots.
pub fn snapshot_delta(previous: &RepositorySnapshot, current: &RepositorySnapshot) -> (r:
    SnapshotDelta)
    ensures
        is_snapshot_delta(r, *previous, *current),
{
    SnapshotDelta {
        repository_id: current.identity.id.clone(),
        identity_changed: !previous.identity.is_same(&current.identity),
        head_changed: !(previous.head.is_same(&current.head) && previous.head_commit.is_same(
            &current.head_commit,
        )),
        upstream_changed: !previous.upstream.is_same(&current.upstream),
        operation_changed: !previous.operation.is_same(&current.operation),
        paths: path_delta(&previous.paths, &current.paths),
        remotes_changed: !previous.remotes.is_same(&current.remotes),
        branches_changed: !previous.branches.is_same(&current.branches),
        tags_changed: !previous.tags.is_same(&current.tags),
        stashes_changed: !previous.stashes.is_same(&current.stashes),
        worktrees_changed: !previous.worktrees.is_same(&current.worktrees),
        submodules_changed: !previous.submodules.is_same(&current.submodules),
    }
}

/// `x` is present exactly when `flag` holds, and then holds the same data as `v`.
pub open spec fn carries<T: Same>(x: Option<T>, flag: bool, v: T) -> bool {
    &&& (x is Some <==> flag)
    &&& (x matches Some(y) ==> y.same(&v))
}

/// `p` holds the current value of exactly the sections that `delta` marks as changed.
pub open spec fn is_patch_of(p: SnapshotPatch, current: RepositorySnapshot, delta: SnapshotDelta) -> bool {
    &&& carries(p.identity, delta.identity_changed, current.identity)
    &&& carries(p.head, delta.head_changed, current.head)
    &&& carries(p.head_commit, delta.head_changed, current.head_commit)
    &&& carries(p.upstream, delta.upstream_changed, current.upstream)
    &&& carries(p.paths, delta.paths.changes(), current.paths)
    &&& carries(p.operation, delta.operation_changed, current.operation)
    &&& carries(p.remotes, delta.remotes_changed, current.remotes)
    &&& carries(p.branches, delta.branches_changed, current.branches)
    &&& carries(p.tags, delta.tags_changed, current.tags)
    &&& carries(p.stashes, delta.stashes_changed, current.stashes)
    &&& carries(p.worktrees, delta.worktrees_changed, current.worktrees)
    &&& carries(p.submodules, delta.submodules_changed, current.submodules)
}

fn carry<T: Same>(flag: bool, v: &T) -> (r: Option<T>)
    ensures
        carries(r, flag, *v),
{
    if flag {
        Some(v.duplicate())
    } else {
        None
    }
}

impl SnapshotPatch {
    /// The patch that carries the changed sections of `current`.
    pub fn from_delta(current: &RepositorySnapshot, delta: &SnapshotDelta) -> (r: SnapshotPatch)
        ensures
            is_patch_of(r, *current, *delta),
    {
        let paths_changed = delta.paths.has_changes();
        SnapshotPatch {
            identity: carry(delta.identity_changed, &current.identity),
            head: carry(delta.head_changed, &current.head),
            head_commit: carry(delta.head_changed, &current.head_commit),
            upstream: carry(delta.upstream_changed, &current.upstream),
            paths: carry(paths_changed, &current.paths),
            operation: carry(delta.operation_changed, &current.operation),
            remotes: carry(delta.remotes_changed, &current.remotes),
            branches: carry(delta.branches_changed, &current.branches),
            tags: carry(delta.tags_changed, &current.tags),
            stashes: carry(delta.stashes_changed, &current.stashes),
            worktrees: carry(delta.worktrees_changed, &current.worktrees),
            submodules: carry(delta.submodules_changed, &current.submodules),
        }
    }
}

/// `v` replaced by the patch value when there is one.
pub open spec fn patched<T>(v: T, x: Option<T>) -> T {
    match x {
        Some(y) => y,
        None => v,
    }
}

/// The snapshot that a client holds after applying `p` to `s`.
pub open spec fn apply_patch(s: RepositorySnapshot, p: SnapshotPatch) -> RepositorySnapshot {
    RepositorySnapshot {
        identity: patched(s.identity, p.identity),
        head: patched(s.head, p.head),
        head_commit: patched(s.head_commit, p.head_commit),
        upstream: patched(s.upstream, p.upstream),
        paths: patched(s.paths, p.paths),
        operation: patched(s.operation, p.operation),
        remotes: patched(s.remotes, p.remotes),
        branches: patched(s.branches, p.branches),
        tags: patched(s.tags, p.tags),
        stashes: patched(s.stashes, p.stashes),
        worktrees: patched(s.worktrees, p.worktrees),
        submodules: patched(s.submodules, p.submodules),
    }
}

/// A path state in the form that reading a repository produces: every path
/// set strictly increasing, and the entries strictly increasing by path.
pub open spec fn canonical_paths(p: PathState) -> bool {
    &&& sorted_unique(p.staged@)
    &&& sorted_unique(p.unstaged@)
    &&& sorted_unique(p.untracked@)
    &&& sorted_unique(p.ignored@)
    &&& sorted_unique(p.conflicted@)
    &&& forall|i: int, j: int|
        0 <= i < j < p.entries@.len() ==> text_le(
            (#[trigger] p.entries@[i]).path@,
            (#[trigger] p.entries@[j]).path@,
        ) && p.entries@[i].path@ != p.entries@[j].path@
}

proof fn lemma_sorted_texts_equal(a: Seq<Seq<char>>, b: Seq<Seq<char>>)
    requires
        forall|i: int, j: int| 0 <= i < j < a.len() ==> text_le(#[trigger] a[i], #[trigger] a[j]) && a[i] != a[j],
        forall|i: int, j: int| 0 <= i < j < b.len() ==> text_le(#[trigger] b[i], #[trigger] b[j]) && b[i] != b[j],
        a.to_set() == b.to_set(),
    ensures
        a == b,
    decreases a.len() + b.len(),
{
    if a.len() == 0 || b.len() == 0 {
        if a.len() > 0 {
            assert(a.to_set().contains(a[0]));
        }
        if b.len() > 0 {
            assert(b.to_set().contains(b[0]));
        }
        assert(a =~= b);
    } else {
        assert(a.to_set().contains(a[0]));
        assert(b.to_set().contains(b[0]));
        let i = choose|i: int| 0 <= i < b.len() && b[i] == a[0];
        let j = choose|j: int| 0 <= j < a.len() && a[j] == b[0];
        if i > 0 && j > 0 {
            lemma_text_le_antisym(a[0], b[0]);
        }
        assert(a[0] == b[0]);
        let a1 = a.drop_first();
        let b1 = b.drop_first();
        assert forall|t: Seq<char>| a1.to_set().contains(t) <==> b1.to_set().contains(t) by {
            if a1.to_set().contains(t) {
                let k = choose|k: int| 0 <= k < a1.len() && a1[k] == t;
                assert(a[k + 1] == t);
                assert(a[0] != a[k + 1]);
                assert(a.to_set().contains(t));
                let m = choose|m: int| 0 <= m < b.len() && b[m] == t;
                assert(m != 0);
                assert(b1[m - 1] == t);
            }
            if b1.to_set().contains(t) {
                let k = choose|k: int| 0 <= k < b1.len() && b1[k] == t;
                assert(b[k + 1] == t);
                assert(b[0] != b[k + 1]);
                assert(b.to_set().contains(t));
                let m = choose|m: int| 0 <= m < a.len() && a[m] == t;
                assert(m != 0);
                assert(a1[m - 1] == t);
            }
        }
        assert(a1.to_set() =~= b1.to_set());
        lemma_sorted_texts_equal(a1, b1);
        assert(a =~= seq![a[0]] + a1);
        assert(b =~= seq![b[0]] + b1);
    }
}

proof fn lemma_empty_set_delta_same(d: PathSetDelta, previous: Seq<String>, current: Seq<String>)
    requires
        is_set_delta(d, previous, current),
        !d.changes(),
        sorted_unique(previous),
        sorted_unique(current),
    ensures
        forall|i: int| 0 <= i < previous.len() ==> (#[trigger] previous[i]).same(&current[i]),
        previous.len() == current.len(),
{
    let a = previous.map_values(|x: String| x@);
    let b = current.map_values(|x: String| x@);
    assert forall|t: Seq<char>| a.to_set().contains(t) <==> b.to_set().contains(t) by {
        if a.to_set().contains(t) {
            let k = choose|k: int| 0 <= k < a.len() && a[k] == t;
            assert(text_set(previous).contains(t)) by {
                assert(previous[k]@ == t);
            }
            if !text_set(current).contains(t) {
                assert(text_set(d.removed@).contains(t));
                let m = choose|m: int| 0 <= m < d.removed@.len() && (#[trigger] d.removed@[m])@ == t;
            }
            let m = choose|m: int| 0 <= m < current.len() && (#[trigger] current[m])@ == t;
            assert(b[m] == t);
        }
        if b.to_set().contains(t) {
            let k = choose|k: int| 0 <= k < b.len() && b[k] == t;
            assert(text_set(current).contains(t)) by {
                assert(current[k]@ == t);
            }
            if !text_set(previous).contains(t) {
                assert(text_set(d.added@).contains(t));
                let m = choose|m: int| 0 <= m < d.added@.len() && (#[trigger] d.added@[m])@ == t;
            }
            let m = choose|m: int| 0 <= m < previous.len() && (#[trigger] previous[m])@ == t;
            assert(a[m] == t);
        }
    }
    assert(a.to_set() =~= b.to_set());
    lemma_sorted_texts_equal(a, b);
    assert forall|i: int| 0 <= i < previous.len() implies (#[trigger] previous[i]).same(&current[i]) by {
        assert(a[i] == b[i]);
    }
}

proof fn lemma_unique_last_entry(e: Seq<PathEntry>, i: int)
    requires
        0 <= i < e.len(),
        forall|a: int, b: int| 0 <= a < b < e.len() ==> (#[trigger] e[a]).path@ != (#[trigger] e[b]).path@,
    ensures
        last_entry_index(e, e[i].path@) == i,
    decreases e.len(),
{
    if i < e.len() - 1 {
        assert(e.last() == e[e.len() - 1]);
        lemma_unique_last_entry(e.drop_last(), i);
    }
}

proof fn lemma_no_entry_changes_same(previous: Seq<PathEntry>, current: Seq<PathEntry>, changed: Seq<String>)
    requires
        forall|i: int, j: int| 0 <= i < j < previous.len() ==> text_le((#[trigger] previous[i]).path@, (#[trigger] previous[j]).path@) && previous[i].path@ != previous[j].path@,
        forall|i: int, j: int| 0 <= i < j < current.len() ==> text_le((#[trigger] current[i]).path@, (#[trigger] current[j]).path@) && current[i].path@ != current[j].path@,
        changed.len() == 0,
        text_set(changed) == entry_paths(previous).union(entry_paths(current)).filter(|t: Seq<char>| entry_differs(previous, current, t)),
    ensures
        previous.len() == current.len(),
        forall|i: int| 0 <= i < previous.len() ==> (#[trigger] previous[i]).same(&current[i]),
{
    let a = previous.map_values(|x: PathEntry| x.path@);
    let b = current.map_values(|x: PathEntry| x.path@);
    assert(text_set(changed) =~= Set::empty());
    assert forall|t: Seq<char>| a.to_set().contains(t) <==> b.to_set().contains(t) by {
        lemma_last_entry_index(previous, t);
        lemma_last_entry_index(current, t);
        if a.to_set().contains(t) {
            let k = choose|k: int| 0 <= k < a.len() && a[k] == t;
            assert(entry_paths(previous).contains(t)) by { assert(previous[k].path@ == t); }
            assert(!entry_paths(previous).union(entry_paths(current)).filter(|t: Seq<char>| entry_differs(previous, current, t)).contains(t));
            let m = last_entry_index(current, t);
            assert(b[m] == t);
        }
        if b.to_set().contains(t) {
            let k = choose|k: int| 0 <= k < b.len() && b[k] == t;
            assert(entry_paths(current).contains(t)) by { assert(current[k].path@ == t); }
            assert(!entry_paths(previous).union(entry_paths(current)).filter(|t: Seq<char>| entry_differs(previous, current, t)).contains(t));
            let m = last_entry_index(previous, t);
            assert(a[m] == t);
        }
    }
    assert(a.to_set() =~= b.to_set());
    lemma_sorted_texts_equal(a, b);
    assert forall|i: int| 0 <= i < previous.len() implies (#[trigger] previous[i]).same(&current[i]) by {
        assert(a[i] == b[i]);
        let t = previous[i].path@;
        lemma_unique_last_entry(previous, i);
        lemma_unique_last_entry(current, i);
        assert(entry_paths(previous).contains(t));
        assert(!entry_paths(previous).union(entry_paths(current)).filter(|t: Seq<char>| entry_differs(previous, current, t)).contains(t));
    }
}

/// A client that holds `previous` and applies the patch of the delta from
/// `previous` to `current` holds the same data as `current`. Path states must be
/// in canonical form, and when no path list changed the conflict lists must
/// agree: the delta does not look at conflicts, so a change of conflicts alone
/// carries no path patch.
pub proof fn lemma_patch_restores_current(
    previous: RepositorySnapshot,
    current: RepositorySnapshot,
    delta: SnapshotDelta,
    patch: SnapshotPatch,
)
    requires
        is_snapshot_delta(delta, previous, current),
        is_patch_of(patch, current, delta),
        canonical_paths(previous.paths),
        canonical_paths(current.paths),
        delta.paths.changes() || previous.paths.conflicts.same(&current.paths.conflicts),
    ensures
        apply_patch(previous, patch).same(&current),
{
    if !delta.paths.changes() {
        let p = previous.paths;
        let c = current.paths;
        lemma_empty_set_delta_same(delta.paths.staged, p.staged@, c.staged@);
        lemma_empty_set_delta_same(delta.paths.unstaged, p.unstaged@, c.unstaged@);
        lemma_empty_set_delta_same(delta.paths.untracked, p.untracked@, c.untracked@);
        lemma_empty_set_delta_same(delta.paths.ignored, p.ignored@, c.ignored@);
        lemma_empty_set_delta_same(delta.paths.conflicted, p.conflicted@, c.conflicted@);
        lemma_no_entry_changes_same(p.entries@, c.entries@, delta.paths.entries_changed@);
        assert(p.same(&c));
    }
}


/// Path lists holding the same texts, position by position, give a set
/// delta with nothing added and nothing removed.
proof fn lemma_same_texts_no_set_change(d: PathSetDelta, previous: Seq<String>, current: Seq<String>)
    requires
        is_set_delta(d, previous, current),
        previous.len() == current.len(),
        forall|i: int| 0 <= i < previous.len() ==> (#[trigger] previous[i])@ == current[i]@,
    ensures
        !d.changes(),
{
    assert forall|t: Seq<char>| text_set(previous).contains(t) <==> text_set(current).contains(t) by {
        if text_set(previous).contains(t) {
            let k = choose|k: int| 0 <= k < previous.len() && (#[trigger] previous[k])@ == t;
            assert(current[k]@ == t);
        }
        if text_set(current).contains(t) {
            let k = choose|k: int| 0 <= k < current.len() && (#[trigger] current[k])@ == t;
            assert(previous[k]@ == t);
        }
    }
    if d.added@.len() > 0 {
        assert(text_set(d.added@).contains(d.added@[0]@));
    }
    if d.removed@.len() > 0 {
        assert(text_set(d.removed@).contains(d.removed@[0]@));
    }
}

/// Entry lists holding the same entries, position by position, find the
/// last entry of a path at the same position.
proof fn lemma_same_entries_last_index(previous: Seq<PathEntry>, current: Seq<PathEntry>, t: Seq<char>)
    requires
        previous.len() == current.len(),
        forall|i: int| 0 <= i < previous.len() ==> (#[trigger] previous[i]).same(&current[i]),
    ensures
        last_entry_index(previous, t) == last_entry_index(current, t),
    decreases previous.len(),
{
    if previous.len() > 0 {
        assert(previous.last().same(&current.last()));
        let (p, c) = (previous.drop_last(), current.drop_last());
        assert forall|i: int| 0 <= i < p.len() implies (#[trigger] p[i]).same(&c[i]) by {
            assert(previous[i].same(&current[i]));
        }
        lemma_same_entries_last_index(p, c, t);
    }
}

/// The delta between two snapshots reports no change exactly when the two
/// hold the same data, for snapshots whose path states are in the form
/// reading produces and whose conflict lists agree (the delta does not look
/// at conflicts).
pub proof fn lemma_no_changes_exactly_when_same(
    previous: RepositorySnapshot,
    current: RepositorySnapshot,
    delta: SnapshotDelta,
)
    requires
        is_snapshot_delta(delta, previous, current),
        canonical_paths(previous.paths),
        canonical_paths(current.paths),
        previous.paths.conflicts.same(&current.paths.conflicts),
    ensures
        !delta.changes() <==> previous.same(&current),
{
    if !delta.changes() {
        let none = SnapshotPatch {
            identity: None,
            head: None,
            head_commit: None,
            upstream: None,
            paths: None,
            operation: None,
            remotes: None,
            branches: None,
            tags: None,
            stashes: None,
            worktrees: None,
            submodules: None,
        };
        lemma_patch_restores_current(previous, current, delta, none);
        assert(apply_patch(previous, none) == previous);
    }
    if previous.same(&current) {
        let (p, c) = (previous.paths, current.paths);
        assert forall|i: int| 0 <= i < p.staged@.len() implies (#[trigger] p.staged@[i])@ == c.staged@[i]@ by {
            assert(p.staged@[i].same(&c.staged@[i]));
        }
        assert forall|i: int| 0 <= i < p.unstaged@.len() implies (#[trigger] p.unstaged@[i])@ == c.unstaged@[i]@ by {
            assert(p.unstaged@[i].same(&c.unstaged@[i]));
        }
        assert forall|i: int| 0 <= i < p.untracked@.len() implies (#[trigger] p.untracked@[i])@ == c.untracked@[i]@ by {
            assert(p.untracked@[i].same(&c.untracked@[i]));
        }
        assert forall|i: int| 0 <= i < p.ignored@.len() implies (#[trigger] p.ignored@[i])@ == c.ignored@[i]@ by {
            assert(p.ignored@[i].same(&c.ignored@[i]));
        }
        assert forall|i: int| 0 <= i < p.conflicted@.len() implies (#[trigger] p.conflicted@[i])@ == c.conflicted@[i]@ by {
            assert(p.conflicted@[i].same(&c.conflicted@[i]));
        }
        lemma_same_texts_no_set_change(delta.paths.staged, p.staged@, c.staged@);
        lemma_same_texts_no_set_change(delta.paths.unstaged, p.unstaged@, c.unstaged@);
        lemma_same_texts_no_set_change(delta.paths.untracked, p.untracked@, c.untracked@);
        lemma_same_texts_no_set_change(delta.paths.ignored, p.ignored@, c.ignored@);
        lemma_same_texts_no_set_change(delta.paths.conflicted, p.conflicted@, c.conflicted@);
        let (pe, ce) = (p.entries@, c.entries@);
        assert forall|t: Seq<char>| !#[trigger] entry_differs(pe, ce, t) by {
            lemma_same_entries_last_index(pe, ce, t);
            lemma_last_entry_index(pe, t);
            let i = last_entry_index(pe, t);
            if i >= 0 {
                assert(pe[i].same(&ce[i]));
            }
        }
        let changed = delta.paths.entries_changed@;
        if changed.len() > 0 {
            assert(text_set(changed).contains(changed[0]@));
            assert(entry_differs(pe, ce, changed[0]@));
        }
    }
}


/// Applying a path-set delta to the previous set gives the current one:
/// removing what left and adding what entered.
pub proof fn lemma_set_delta_applies(d: PathSetDelta, previous: Seq<String>, current: Seq<String>)
    requires
        is_set_delta(d, previous, current),
    ensures
        text_set(previous).difference(text_set(d.removed@)).union(text_set(d.added@)) == text_set(current),
{
    assert(text_set(previous).difference(text_set(d.removed@)).union(text_set(d.added@)) =~= text_set(current));
}


/// The patch carries at least one section.
pub open spec fn carries_any(p: SnapshotPatch) -> bool {
    ||| p.identity is Some
    ||| p.head is Some
    ||| p.head_commit is Some
    ||| p.upstream is Some
    ||| p.paths is Some
    ||| p.operation is Some
    ||| p.remotes is Some
    ||| p.branches is Some
    ||| p.tags is Some
    ||| p.stashes is Some
    ||| p.worktrees is Some
    ||| p.submodules is Some
}

/// A delta has changes exactly when the patch built from it carries at least
/// one section.
pub proof fn lemma_changes_exactly_when_patch_carries(p: SnapshotPatch, current: RepositorySnapshot, delta: SnapshotDelta)
    requires
        is_patch_of(p, current, delta),
    ensures
        delta.changes() <==> carries_any(p),
{
}

/// A path-set delta has changes exactly when the two sets of path texts differ.
pub proof fn lemma_set_delta_changes(d: PathSetDelta, previous: Seq<String>, current: Seq<String>)
    requires
        is_set_delta(d, previous, current),
    ensures
        d.changes() <==> text_set(previous) != text_set(current),
{
    if text_set(previous) == text_set(current) {
        if d.added@.len() > 0 {
            assert(text_set(d.added@).contains(d.added@[0]@));
        }
        if d.removed@.len() > 0 {
            assert(text_set(d.removed@).contains(d.removed@[0]@));
        }
    } else {
        if !d.changes() {
            assert(text_set(d.added@) =~= Set::empty());
            assert(text_set(d.removed@) =~= Set::empty());
            assert forall|t: Seq<char>| text_set(previous).contains(t) <==> text_set(current).contains(t) by {
                if text_set(previous).contains(t) && !text_set(current).contains(t) {
                    assert(text_set(d.removed@).contains(t));
                }
                if text_set(current).contains(t) && !text_set(previous).contains(t) {
                    assert(text_set(d.added@).contains(t));
                }
            }
            assert(text_set(previous) =~= text_set(current));
        }
    }
}

/// A path delta has changes exactly when one of the path sets differs
/// between the two states, or the entry of some path differs.
pub proof fn lemma_path_delta_changes(d: PathDelta, previous: PathState, current: PathState)
    requires
        is_path_delta(d, previous, current),
    ensures
        d.changes() <==> {
            ||| text_set(previous.staged@) != text_set(current.staged@)
            ||| text_set(previous.unstaged@) != text_set(current.unstaged@)
            ||| text_set(previous.untracked@) != text_set(current.untracked@)
            ||| text_set(previous.ignored@) != text_set(current.ignored@)
            ||| text_set(previous.conflicted@) != text_set(current.conflicted@)
            ||| exists|t: Seq<char>| #[trigger] entry_differs(previous.entries@, current.entries@, t)
        },
{
    lemma_set_delta_changes(d.staged, previous.staged@, current.staged@);
    lemma_set_delta_changes(d.unstaged, previous.unstaged@, current.unstaged@);
    lemma_set_delta_changes(d.untracked, previous.untracked@, current.untracked@);
    lemma_set_delta_changes(d.ignored, previous.ignored@, current.ignored@);
    lemma_set_delta_changes(d.conflicted, previous.conflicted@, current.conflicted@);
    let (pe, ce) = (previous.entries@, current.entries@);
    let changed = d.entries_changed@;
    if changed.len() > 0 {
        assert(text_set(changed).contains(changed[0]@));
        assert(entry_differs(pe, ce, changed[0]@));
    }
    if exists|t: Seq<char>| #[trigger] entry_differs(pe, ce, t) {
        let t = choose|t: Seq<char>| #[trigger] entry_differs(pe, ce, t);
        lemma_last_entry_index(pe, t);
        lemma_last_entry_index(ce, t);
        assert(entry_paths(pe).union(entry_paths(ce)).contains(t));
        assert(text_set(changed).contains(t));
        let k = choose|k: int| 0 <= k < changed.len() && (#[trigger] changed[k])@ == t;
    }
}

} // verus!

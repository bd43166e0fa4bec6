//! Which paths to watch for a repository.
use git2::Repository;
use vstd::prelude::*;

use crate::git;
use crate::model::{RepositoryIdentity, RepositorySnapshot};
use crate::sort::{sort_by_key, sorted_by_key, KeyOrder};
use crate::sys::{ask_exists, list_dir, listed_under, DirEntryInfo, ExistenceAnswer, path_equal, path_exists, path_has_prefix, path_is_file, path_join, path_strip_prefix, same_path_text};
use crate::text::{lemma_text_le_total, lemma_text_le_trans, str_eq, str_le, text_le};
use crate::watch::{configured_excludes_file, path_should_be_ignored};

verus! {

/// How a path is watched: with everything below it, or only itself and its
/// direct entries.
#[derive(Debug, Clone, Copy, PartialEq, Eq, Structural)]
pub enum WatchMode {
    Recursive,
    NonRecursive,
}

/// A path to watch and how.
#[derive(Debug, Clone, PartialEq, Eq)]
pub struct WatchTarget {
    pub path: String,
    pub mode: WatchMode,
}

/// Ordered by path text.
impl KeyOrder for WatchTarget {
    open spec fn key_le(&self, other: &Self) -> bool {
        text_le(self.path@, other.path@)
    }

    fn sorts_before(&self, other: &Self) -> (r: bool) {
        str_le(self.path.as_str(), other.path.as_str())
    }

    proof fn lemma_key_total(a: &Self, b: &Self) {
        lemma_text_le_total(a.path@, b.path@);
    }

    proof fn lemma_key_trans(a: &Self, b: &Self, c: &Self) {
        lemma_text_le_trans(a.path@, b.path@, c.path@);
    }
}

/// The position of the first target for a path equal to `path`, or -1.
pub open spec fn target_index(targets: Seq<WatchTarget>, path: Seq<char>) -> int
    decreases targets.len(),
{
    if targets.len() == 0 {
        -1
    } else if path_equal(targets[0].path@, path) {
        0
    } else {
        let k = target_index(targets.drop_first(), path);
        if k < 0 {
            -1
        } else {
            k + 1
        }
    }
}

/// The targets after asking to watch `path` in `mode`: a new target when no
/// target has that path; a non-recursive target becomes recursive when asked
/// for recursively; otherwise nothing changes.
pub open spec fn with_target(targets: Seq<WatchTarget>, path: String, mode: WatchMode) -> Seq<WatchTarget> {
    let k = target_index(targets, path@);
    if k < 0 {
        targets.push(WatchTarget { path: path, mode: mode })
    } else if targets[k].mode == WatchMode::NonRecursive && mode == WatchMode::Recursive {
        targets.update(k, WatchTarget { path: targets[k].path, mode: WatchMode::Recursive })
    } else {
        targets
    }
}

proof fn lemma_target_index(t: Seq<WatchTarget>, p: Seq<char>)
    ensures
        -1 <= target_index(t, p) < t.len(),
        target_index(t, p) >= 0 ==> path_equal(t[target_index(t, p)].path@, p),
    decreases t.len(),
{
    if t.len() > 0 && !path_equal(t[0].path@, p) {
        lemma_target_index(t.drop_first(), p);
    }
}

proof fn lemma_target_found(t: Seq<WatchTarget>, p: Seq<char>, k: int)
    requires
        0 <= k < t.len(),
        path_equal(t[k].path@, p),
        forall|j: int| 0 <= j < k ==> !path_equal((#[trigger] t[j]).path@, p),
    ensures
        target_index(t, p) == k,
    decreases k,
{
    if k > 0 {
        assert(!path_equal(t[0].path@, p));
        lemma_target_found(t.drop_first(), p, k - 1);
    }
}

proof fn lemma_target_none(t: Seq<WatchTarget>, p: Seq<char>)
    requires
        forall|j: int| 0 <= j < t.len() ==> !path_equal((#[trigger] t[j]).path@, p),
    ensures
        target_index(t, p) == -1,
    decreases t.len(),
{
    if t.len() > 0 {
        assert(!path_equal(t[0].path@, p));
        lemma_target_none(t.drop_first(), p);
    }
}

/// No two targets have the same path text.
pub open spec fn distinct_paths(ts: Seq<WatchTarget>) -> bool {
    forall|i: int, j: int|
        0 <= i < ts.len() && 0 <= j < ts.len() && i != j ==> (#[trigger] ts[i]).path@ != (#[trigger] ts[j]).path@
}

/// Asks to watch `path` in `mode`; a recursive watch wins over a
/// non-recursive one.
pub fn insert_target(targets: &mut Vec<WatchTarget>, path: String, mode: WatchMode)
    ensures
        final(targets)@ == with_target(old(targets)@, path, mode),
        distinct_paths(old(targets)@) ==> distinct_paths(final(targets)@),
{
    let mut k: usize = 0;
    while k < targets.len()
        invariant
            targets@ == old(targets)@,
            k <= targets@.len(),
            forall|j: int| 0 <= j < k ==> !path_equal((#[trigger] targets@[j]).path@, path@),
            forall|j: int| 0 <= j < k ==> (#[trigger] targets@[j]).path@ != path@,
        decreases targets.len() - k,
    {
        if same_path_text(targets[k].path.as_str(), path.as_str()) {
            proof {
                lemma_target_found(targets@, path@, k as int);
            }
            if targets[k].mode == WatchMode::NonRecursive && mode == WatchMode::Recursive {
                let ghost before = targets@;
                let old_target = targets.remove(k);
                targets.insert(k, WatchTarget { path: old_target.path, mode: WatchMode::Recursive });
                assert(targets@ =~= before.update(
                    k as int,
                    WatchTarget { path: before[k as int].path, mode: WatchMode::Recursive },
                ));
                assert forall|i: int, j: int|
                    0 <= i < targets@.len() && 0 <= j < targets@.len() && i != j
                        && distinct_paths(before) implies (#[trigger] targets@[i]).path@ != (#[trigger] targets@[j]).path@ by {
                    assert(targets@[i].path@ == before[i].path@);
                    assert(targets@[j].path@ == before[j].path@);
                }
            }
            return;
        }
        k = k + 1;
    }
    proof {
        lemma_target_none(targets@, path@);
    }
    let ghost before = targets@;
    targets.push(WatchTarget { path, mode });
    assert forall|i: int, j: int|
        0 <= i < targets@.len() && 0 <= j < targets@.len() && i != j
            && distinct_paths(before) implies (#[trigger] targets@[i]).path@ != (#[trigger] targets@[j]).path@ by {
        if i < before.len() && j < before.len() {
            assert(targets@[i] == before[i] && targets@[j] == before[j]);
        } else if i < before.len() {
            assert(targets@[i] == before[i]);
        } else {
            assert(targets@[j] == before[j]);
        }
    }
}

/// The targets asked for, in this order: the working-tree directories
/// (non-recursive), the Git directory and the common directory (recursive),
/// and the configured excludes file (non-recursive).
pub open spec fn requested_targets(
    dirs: Seq<String>,
    git_dir: String,
    common_dir: String,
    excludes: Option<String>,
) -> Seq<WatchTarget> {
    let a = dir_targets(dirs);
    let b = with_target(with_target(a, git_dir, WatchMode::Recursive), common_dir, WatchMode::Recursive);
    match excludes {
        Some(e) => with_target(b, e, WatchMode::NonRecursive),
        None => b,
    }
}

/// The targets for the working-tree directories, each non-recursive.
pub open spec fn dir_targets(dirs: Seq<String>) -> Seq<WatchTarget>
    decreases dirs.len(),
{
    if dirs.len() == 0 {
        Seq::empty()
    } else {
        with_target(dir_targets(dirs.drop_last()), dirs.last(), WatchMode::NonRecursive)
    }
}

/// The targets asked for, before the ones that do not exist are dropped.
pub fn targets_from(
    dirs: Vec<String>,
    git_dir: String,
    common_dir: String,
    excludes: Option<String>,
) -> (r: Vec<WatchTarget>)
    ensures
        r@ == requested_targets(dirs@, git_dir, common_dir, excludes),
        distinct_paths(r@),
{
    let mut targets: Vec<WatchTarget> = Vec::new();
    let mut i: usize = 0;
    assert(dirs@.subrange(0, 0) =~= Seq::<String>::empty());
    while i < dirs.len()
        invariant
            i <= dirs@.len(),
            targets@ == dir_targets(dirs@.subrange(0, i as int)),
            distinct_paths(targets@),
        decreases dirs.len() - i,
    {
        assert(dirs@.subrange(0, i + 1).drop_last() =~= dirs@.subrange(0, i as int));
        insert_target(&mut targets, dirs[i].clone(), WatchMode::NonRecursive);
        i = i + 1;
    }
    assert(dirs@.subrange(0, dirs@.len() as int) =~= dirs@);
    insert_target(&mut targets, git_dir, WatchMode::Recursive);
    insert_target(&mut targets, common_dir, WatchMode::Recursive);
    match excludes {
        Some(e) => insert_target(&mut targets, e, WatchMode::NonRecursive),
        None => {},
    }
    targets
}

/// Whether Git ignores `path`, a path inside the working tree: never
/// without a repository or for a path outside the working tree.
fn git_ignored(repo: &Option<Repository>, worktree: &str, path: &str) -> (r: bool)
    ensures
        r ==> repo is Some && path_has_prefix(path@, worktree@),
{
    let repo = match repo {
        Some(r) => r,
        None => return false,
    };
    match path_strip_prefix(path, worktree) {
        Some(rel) => path_should_be_ignored(repo, rel.as_str()),
        None => false,
    }
}

/// The texts of some paths, in order.
pub open spec fn path_texts(v: Seq<String>) -> Seq<Seq<char>> {
    v.map_values(|s: String| s@)
}

/// An entry of a listing to descend into, given whether Git ignores it: a
/// directory, not named `.git`, and not ignored.
pub open spec fn is_watch_child(e: Option<DirEntryInfo>, ignored: bool) -> bool {
    e matches Some(x) && x.is_dir == Some(true) && x.name@ != ".git"@ && !ignored
}

/// The paths of the entries of a listing to descend into, in listing order;
/// `ignored[i]` tells whether Git ignores entry `i`.
pub open spec fn watch_children(entries: Seq<Option<DirEntryInfo>>, ignored: Seq<bool>) -> Seq<Seq<char>>
    decreases entries.len(),
{
    if entries.len() == 0 {
        Seq::empty()
    } else {
        let rest = watch_children(entries.drop_last(), ignored.drop_last());
        if is_watch_child(entries.last(), ignored[entries.len() - 1]) {
            rest.push(entries.last()->0.path@)
        } else {
            rest
        }
    }
}

/// The paths of the entries of a listing to descend into, given the ignore
/// answer for each entry.
pub fn watch_children_of(entries: &Vec<Option<DirEntryInfo>>, ignored: &Vec<bool>) -> (r: Vec<String>)
    requires
        entries@.len() == ignored@.len(),
    ensures
        path_texts(r@) == watch_children(entries@, ignored@),
{
    let mut out: Vec<String> = Vec::new();
    let mut i: usize = 0;
    assert(entries@.subrange(0, 0) =~= Seq::<Option<DirEntryInfo>>::empty());
    assert(path_texts(out@) =~= Seq::<Seq<char>>::empty());
    while i < entries.len()
        invariant
            i <= entries@.len(),
            entries@.len() == ignored@.len(),
            path_texts(out@) == watch_children(entries@.subrange(0, i as int), ignored@.subrange(0, i as int)),
        decreases entries.len() - i,
    {
        let ghost before = out@;
        assert(entries@.subrange(0, i + 1).drop_last() =~= entries@.subrange(0, i as int));
        assert(ignored@.subrange(0, i + 1).drop_last() =~= ignored@.subrange(0, i as int));
        match &entries[i] {
            Some(e) => {
                let is_dir = match e.is_dir {
                    Some(d) => d,
                    None => false,
                };
                if is_dir && !str_eq(e.name.as_str(), ".git") && !ignored[i] {
                    out.push(e.path.clone());
                    assert(path_texts(out@) =~= path_texts(before).push(e.path@));
                }
            },
            None => {},
        }
        i = i + 1;
    }
    assert(entries@.subrange(0, entries@.len() as int) =~= entries@);
    assert(ignored@.subrange(0, ignored@.len() as int) =~= ignored@);
    out
}

/// Pushes `children` on the stack so that the first child is on top.
fn push_children(stack: &mut Vec<String>, children: Vec<String>)
    ensures
        path_texts(final(stack)@) == path_texts(old(stack)@) + path_texts(children@).reverse(),
{
    let ghost base = path_texts(stack@);
    let ghost all = path_texts(children@);
    let mut i: usize = children.len();
    assert(all.subrange(i as int, all.len() as int).reverse() =~= Seq::<Seq<char>>::empty());
    assert(path_texts(stack@) =~= base + all.subrange(i as int, all.len() as int).reverse());
    while i > 0
        invariant
            i <= children@.len(),
            all == path_texts(children@),
            path_texts(stack@) == base + all.subrange(i as int, all.len() as int).reverse(),
        decreases i,
    {
        i = i - 1;
        let ghost prev = path_texts(stack@);
        stack.push(children[i].clone());
        assert(path_texts(stack@) =~= prev.push(all[i as int]));
        assert(all.subrange(i as int, all.len() as int).reverse() =~= all.subrange(i + 1, all.len() as int).reverse().push(
            all[i as int],
        ));
    }
    assert(all.subrange(0, all.len() as int) =~= all);
}

/// The depth-first walk from the stack `start`, where `kids[k]` are the
/// children found at the `k`-th directory visited: each step visits the
/// directory on top of the stack and pushes its children so that the first
/// child comes next. Gives the directories visited and the stack left.
pub open spec fn walk_state(start: Seq<Seq<char>>, kids: Seq<Seq<Seq<char>>>) -> (Seq<Seq<char>>, Seq<Seq<char>>)
    decreases kids.len(),
{
    if kids.len() == 0 {
        (Seq::empty(), start)
    } else {
        let (visited, stack) = walk_state(start, kids.drop_last());
        if stack.len() == 0 {
            (visited, stack)
        } else {
            (visited.push(stack.last()), stack.drop_last() + kids.last().reverse())
        }
    }
}

/// `found` are the children to descend into at the directory `dir`: those a
/// listing of `dir` gives (each entry's path being `dir` joined with its
/// name), with the ignore answers for its entries.
pub open spec fn children_found(dir: Seq<char>, found: Seq<Seq<char>>) -> bool {
    exists|entries: Seq<Option<DirEntryInfo>>, ignored: Seq<bool>|
        #![trigger watch_children(entries, ignored)]
        listed_under(dir, entries) && entries.len() == ignored.len() && found == watch_children(entries, ignored)
}

/// The directories at or below `start` to watch in the working tree
/// `worktree`: none when `start` is not the working tree and Git ignores it;
/// else the depth-first walk from `start` in which the children of a
/// directory are the entries of its listing that are directories, not named
/// `.git` and not ignored, and a nested repository (a directory other than
/// the working tree holding `.git`) or a directory that cannot be listed has
/// none. The walk ends when no directory is left, or after `u64::MAX`
/// directories.
pub fn worktree_watch_dirs_from(worktree: &str, start: &str) -> (r: Vec<String>)
    ensures
        r@.len() > 0 ==> r@[0]@ == start@,
        path_equal(start@, worktree@) || start@ == worktree@ ==> r@.len() > 0,
        r@.len() > 0 ==> exists|kids: Seq<Seq<Seq<char>>>| #![trigger walk_state(seq![start@], kids)] {
            &&& kids.len() == r@.len()
            &&& path_texts(r@) == walk_state(seq![start@], kids).0
            &&& walk_state(seq![start@], kids).1.len() == 0 || kids.len() == u64::MAX
            &&& forall|k: int| 0 <= k < kids.len() ==> #[trigger] children_found(r@[k]@, kids[k])
        },
{
    let repo = match git::discover(worktree) {
        Ok(r) => Some(r),
        Err(_) => None,
    };
    let mut dirs: Vec<String> = Vec::new();
    if !same_path_text(start, worktree) && git_ignored(&repo, worktree, start) {
        return dirs;
    }
    let mut pending: Vec<String> = Vec::new();
    pending.push(crate::text::own(start));
    let ghost first = seq![start@];
    let ghost mut kids: Seq<Seq<Seq<char>>> = Seq::empty();
    assert(path_texts(pending@) =~= first);
    assert(path_texts(dirs@) =~= Seq::<Seq<char>>::empty());
    let mut budget: u64 = u64::MAX;
    while pending.len() > 0 && budget > 0
        invariant
            dirs@.len() > 0 ==> dirs@[0]@ == start@,
            dirs@.len() == 0 ==> pending@.len() == 1 && pending@[0]@ == start@ && budget == u64::MAX,
            first == seq![start@],
            kids.len() == dirs@.len(),
            kids.len() + budget == u64::MAX,
            path_texts(dirs@) == walk_state(first, kids).0,
            path_texts(pending@) == walk_state(first, kids).1,
            forall|k: int| 0 <= k < kids.len() ==> #[trigger] children_found(dirs@[k]@, kids[k]),
        decreases budget,
    {
        budget = budget - 1;
        let ghost stack = path_texts(pending@);
        let dir = pending.pop().unwrap();
        assert(path_texts(pending@) =~= stack.drop_last());
        assert(dir@ == stack.last());
        let nested_repo = !same_path_text(dir.as_str(), worktree) && path_exists(path_join(dir.as_str(), ".git").as_str());
        let mut children: Vec<String> = Vec::new();
        proof {
            let e = Seq::<Option<DirEntryInfo>>::empty();
            let g = Seq::<bool>::empty();
            assert(path_texts(children@) =~= watch_children(e, g));
            assert(children_found(dir@, path_texts(children@)));
        }
        if !nested_repo {
            match list_dir(dir.as_str()) {
                Some(entries) => {
                    let mut ignored: Vec<bool> = Vec::new();
                    let mut i: usize = 0;
                    while i < entries.len()
                        invariant
                            i <= entries@.len(),
                            ignored@.len() == i,
                        decreases entries.len() - i,
                    {
                        let answer = match &entries[i] {
                            Some(e) => {
                                let is_dir = match e.is_dir {
                                    Some(d) => d,
                                    None => false,
                                };
                                is_dir && !str_eq(e.name.as_str(), ".git") && git_ignored(&repo, worktree, e.path.as_str())
                            },
                            None => false,
                        };
                        ignored.push(answer);
                        i = i + 1;
                    }
                    children = watch_children_of(&entries, &ignored);
                    proof {
                        assert(children_found(dir@, path_texts(children@)));
                    }
                },
                None => {},
            }
        }
        let ghost found = path_texts(children@);
        push_children(&mut pending, children);
        let ghost prev_dirs = dirs@;
        dirs.push(dir);
        proof {
            let old_kids = kids;
            kids = kids.push(found);
            assert(kids.drop_last() =~= old_kids);
            assert(kids.last() == found);
            assert(walk_state(first, old_kids).1 == stack);
            assert(stack.len() > 0);
            assert(path_texts(dirs@) =~= path_texts(prev_dirs).push(stack.last()));
            assert(walk_state(first, kids).0 == walk_state(first, old_kids).0.push(stack.last()));
            assert(walk_state(first, kids).1 == stack.drop_last() + found.reverse());
            assert forall|k: int| 0 <= k < kids.len() implies #[trigger] children_found(dirs@[k]@, kids[k]) by {
                if k < kids.len() - 1 {
                    assert(dirs@[k] == prev_dirs[k]);
                }
            }
        }
    }
    dirs
}

/// The directories of the working tree to watch, starting with the working
/// tree itself.
pub fn worktree_watch_dirs(worktree: &str) -> (r: Vec<String>)
    ensures
        r@.len() > 0,
        r@[0]@ == worktree@,
{
    worktree_watch_dirs_from(worktree, worktree)
}

/// Reordering targets keeps their paths distinct.
proof fn lemma_distinct_paths_reordered(a: Seq<WatchTarget>, b: Seq<WatchTarget>)
    requires
        a.to_multiset() == b.to_multiset(),
        distinct_paths(a),
    ensures
        distinct_paths(b),
{
    assert(a.no_duplicates());
    a.lemma_multiset_has_no_duplicates();
    assert forall|x: WatchTarget| b.to_multiset().contains(x) implies b.to_multiset().count(x) == 1 by {}
    b.lemma_multiset_has_no_duplicates_conv();
    assert forall|i: int, j: int|
        0 <= i < b.len() && 0 <= j < b.len() && i != j implies (#[trigger] b[i]).path@ != (#[trigger] b[j]).path@ by {
        vstd::seq_lib::to_multiset_contains(b, b[i]);
        vstd::seq_lib::to_multiset_contains(b, b[j]);
        vstd::seq_lib::to_multiset_contains(a, b[i]);
        vstd::seq_lib::to_multiset_contains(a, b[j]);
        assert(b.to_multiset().contains(b[i]));
        assert(b.to_multiset().contains(b[j]));
        let x = choose|x: int| 0 <= x < a.len() && a[x] == b[i];
        let y = choose|y: int| 0 <= y < a.len() && a[y] == b[j];
        assert(b[i] != b[j]);
        assert(x != y);
    }
}

/// The requested targets whose existence answer in `present` is yes, in
/// order.
pub open spec fn kept_targets(requested: Seq<WatchTarget>, present: Seq<bool>) -> Seq<WatchTarget>
    decreases requested.len(),
{
    if requested.len() == 0 {
        Seq::empty()
    } else {
        let rest = kept_targets(requested.drop_last(), present.drop_last());
        if present[requested.len() - 1] {
            rest.push(requested.last())
        } else {
            rest
        }
    }
}

/// The requested targets that exist, sorted by path: `present` tells, for
/// each requested target, whether its path exists.
pub fn existing_targets(requested: Vec<WatchTarget>, present: Vec<bool>) -> (r: Vec<WatchTarget>)
    requires
        requested@.len() == present@.len(),
    ensures
        sorted_by_key(r@),
        r@.to_multiset() == kept_targets(requested@, present@).to_multiset(),
        distinct_paths(requested@) ==> distinct_paths(r@),
        forall|k: int| 0 <= k < requested@.len() && present@[k] ==> r@.contains(#[trigger] requested@[k]),
        forall|t: WatchTarget| #[trigger] r@.contains(t) ==> exists|k: int|
            0 <= k < requested@.len() && present@[k] && requested@[k] == t,
{
    let mut kept: Vec<WatchTarget> = Vec::new();
    let mut i: usize = 0;
    let ghost mut idx: Seq<int> = Seq::empty();
    assert(requested@.subrange(0, 0) =~= Seq::<WatchTarget>::empty());
    while i < requested.len()
        invariant
            i <= requested@.len(),
            requested@.len() == present@.len(),
            kept@ == kept_targets(requested@.subrange(0, i as int), present@.subrange(0, i as int)),
            idx.len() == kept@.len(),
            forall|a: int| 0 <= a < kept@.len() ==> 0 <= #[trigger] idx[a] < i && present@[idx[a]] && kept@[a]
                == requested@[idx[a]],
            forall|k: int| 0 <= k < i && present@[k] ==> kept@.contains(#[trigger] requested@[k]),
            distinct_paths(requested@) ==> distinct_paths(kept@),
        decreases requested.len() - i,
    {
        let ghost before = kept@;
        assert(requested@.subrange(0, i + 1).drop_last() =~= requested@.subrange(0, i as int));
        assert(present@.subrange(0, i + 1).drop_last() =~= present@.subrange(0, i as int));
        if present[i] {
            kept.push(WatchTarget { path: requested[i].path.clone(), mode: requested[i].mode });
            proof {
                idx = idx.push(i as int);
            }
            assert(kept@[before.len() as int] == requested@[i as int]);
            assert forall|k: int| 0 <= k < i + 1 && present@[k] implies kept@.contains(#[trigger] requested@[k]) by {
                if k < i {
                    let a = choose|a: int| 0 <= a < before.len() && before[a] == requested@[k];
                    assert(kept@[a] == before[a]);
                } else {
                    assert(kept@[before.len() as int] == requested@[k]);
                }
            }
            proof {
                if distinct_paths(requested@) {
                    assert forall|x: int, y: int|
                        0 <= x < kept@.len() && 0 <= y < kept@.len() && x != y implies (#[trigger] kept@[x]).path@
                            != (#[trigger] kept@[y]).path@ by {
                        if x < before.len() && y < before.len() {
                            assert(kept@[x] == before[x] && kept@[y] == before[y]);
                        } else if x < before.len() {
                            let j = idx[x];
                            assert(kept@[x] == before[x]);
                            assert(requested@[j].path@ != requested@[i as int].path@);
                        } else {
                            let j = idx[y];
                            assert(kept@[y] == before[y]);
                            assert(requested@[j].path@ != requested@[i as int].path@);
                        }
                    }
                }
            }
        }
        i = i + 1;
    }
    assert(requested@.subrange(0, requested@.len() as int) =~= requested@);
    assert(present@.subrange(0, present@.len() as int) =~= present@);
    let r = sort_by_key(kept);
    proof {
        if distinct_paths(requested@) {
            lemma_distinct_paths_reordered(kept@, r@);
        }
        assert forall|k: int| 0 <= k < requested@.len() && present@[k] implies r@.contains(#[trigger] requested@[k]) by {
            vstd::seq_lib::to_multiset_contains(kept@, requested@[k]);
            vstd::seq_lib::to_multiset_contains(r@, requested@[k]);
        }
        assert forall|t: WatchTarget| #[trigger] r@.contains(t) implies exists|k: int|
            0 <= k < requested@.len() && present@[k] && requested@[k] == t by {
            vstd::seq_lib::to_multiset_contains(kept@, t);
            vstd::seq_lib::to_multiset_contains(r@, t);
            let a = choose|a: int| 0 <= a < kept@.len() && kept@[a] == t;
            assert(kept@[a] == t);
            assert(0 <= idx[a] < requested@.len() && present@[idx[a]] && requested@[idx[a]] == t);
        }
    }
    r
}

/// Whether each answer says its path exists, in order.
pub open spec fn answer_flags(answers: Seq<ExistenceAnswer>) -> Seq<bool> {
    answers.map_values(|a: ExistenceAnswer| a.says_exists())
}

/// Each answer was given for the path of the requested target at the same
/// position.
pub open spec fn answered_for(requested: Seq<WatchTarget>, answers: Seq<ExistenceAnswer>) -> bool {
    &&& answers.len() == requested.len()
    &&& forall|k: int| 0 <= k < requested.len() ==> (#[trigger] answers[k]).asked() == requested[k].path@
}

/// The requested targets whose existence answer is yes, sorted by path:
/// `answers` holds, for each requested target, what the file system answered
/// when asked whether its path exists.
pub fn existing_targets_answered(requested: Vec<WatchTarget>, answers: Vec<ExistenceAnswer>) -> (r: Vec<WatchTarget>)
    requires
        answered_for(requested@, answers@),
    ensures
        sorted_by_key(r@),
        r@.to_multiset() == kept_targets(requested@, answer_flags(answers@)).to_multiset(),
        distinct_paths(requested@) ==> distinct_paths(r@),
        forall|k: int| 0 <= k < requested@.len() && (#[trigger] answers@[k]).says_exists() ==> r@.contains(requested@[k]),
        forall|t: WatchTarget| #[trigger] r@.contains(t) ==> exists|k: int|
            0 <= k < requested@.len() && (#[trigger] answers@[k]).says_exists() && requested@[k] == t,
{
    let mut present: Vec<bool> = Vec::new();
    let mut i: usize = 0;
    while i < answers.len()
        invariant
            i <= answers@.len(),
            present@ == answer_flags(answers@).subrange(0, i as int),
        decreases answers.len() - i,
    {
        present.push(answers[i].answered_yes());
        i = i + 1;
        assert(present@ =~= answer_flags(answers@).subrange(0, i as int));
    }
    assert(present@ =~= answer_flags(answers@));
    let r = existing_targets(requested, present);
    proof {
        assert forall|k: int| 0 <= k < requested@.len() && (#[trigger] answers@[k]).says_exists() implies r@.contains(requested@[k]) by {
            assert(present@[k]);
        }
        assert forall|t: WatchTarget| #[trigger] r@.contains(t) implies exists|k: int|
            0 <= k < requested@.len() && (#[trigger] answers@[k]).says_exists() && requested@[k] == t by {
            let k = choose|k: int| 0 <= k < requested@.len() && present@[k] && requested@[k] == t;
            assert(answers@[k].says_exists());
        }
    }
    r
}

/// A target watched recursively is one for the Git directory or the common
/// directory (by text, or equal as a path).
pub open spec fn mode_fits(t: WatchTarget, git_dir: String, common_dir: String) -> bool {
    t.mode == WatchMode::Recursive ==> {
        ||| t.path@ == git_dir@
        ||| t.path@ == common_dir@
        ||| path_equal(t.path@, git_dir@)
        ||| path_equal(t.path@, common_dir@)
    }
}

/// Some target stands for `dir` (by text, or equal as a path) and is watched
/// recursively.
pub open spec fn has_recursive(ts: Seq<WatchTarget>, dir: String) -> bool {
    exists|k: int|
        0 <= k < ts.len() && (#[trigger] ts[k]).mode == WatchMode::Recursive && (ts[k].path@ == dir@
            || path_equal(ts[k].path@, dir@))
}

proof fn lemma_with_target_keeps(ts: Seq<WatchTarget>, p: String, m: WatchMode, k: int)
    requires
        0 <= k < ts.len(),
    ensures
        with_target(ts, p, m).len() >= ts.len(),
        with_target(ts, p, m)[k].path == ts[k].path,
        ts[k].mode == WatchMode::Recursive ==> with_target(ts, p, m)[k].mode == WatchMode::Recursive,
{
    lemma_target_index(ts, p@);
}

proof fn lemma_dir_targets(dirs: Seq<String>)
    ensures
        forall|j: int| 0 <= j < dir_targets(dirs).len() ==> (#[trigger] dir_targets(dirs)[j]).mode
            == WatchMode::NonRecursive,
        dirs.len() > 0 ==> dir_targets(dirs).len() > 0 && dir_targets(dirs)[0].path == dirs[0],
    decreases dirs.len(),
{
    if dirs.len() > 0 {
        let a = dir_targets(dirs.drop_last());
        lemma_dir_targets(dirs.drop_last());
        if dirs.len() > 1 {
            lemma_with_target_keeps(a, dirs.last(), WatchMode::NonRecursive, 0);
            assert(dirs.drop_last()[0] == dirs[0]);
        }
    }
}

/// The targets asked for: the first one is the first working-tree
/// directory; the Git directory and the common directory each have a
/// recursive target; and every recursive target is one of those two.
pub proof fn lemma_requested_modes(dirs: Seq<String>, git_dir: String, common_dir: String, excludes: Option<String>)
    ensures
        forall|j: int| 0 <= j < requested_targets(dirs, git_dir, common_dir, excludes).len() ==> mode_fits(
            #[trigger] requested_targets(dirs, git_dir, common_dir, excludes)[j],
            git_dir,
            common_dir,
        ),
        has_recursive(requested_targets(dirs, git_dir, common_dir, excludes), git_dir),
        has_recursive(requested_targets(dirs, git_dir, common_dir, excludes), common_dir),
        dirs.len() > 0 ==> requested_targets(dirs, git_dir, common_dir, excludes)[0].path == dirs[0],
{
    let a = dir_targets(dirs);
    lemma_dir_targets(dirs);
    let b1 = with_target(a, git_dir, WatchMode::Recursive);
    let b = with_target(b1, common_dir, WatchMode::Recursive);
    let r = requested_targets(dirs, git_dir, common_dir, excludes);
    // Every recursive target of b1 is for the Git directory.
    let k1 = target_index(a, git_dir@);
    lemma_target_index(a, git_dir@);
    assert forall|j: int| 0 <= j < b1.len() implies mode_fits(#[trigger] b1[j], git_dir, common_dir) by {
        if j < a.len() && j != k1 {
            assert(b1[j] == a[j]);
        }
    }
    let g = if k1 < 0 { a.len() as int } else { k1 };
    assert(b1[g].mode == WatchMode::Recursive);
    let k2 = target_index(b1, common_dir@);
    lemma_target_index(b1, common_dir@);
    assert forall|j: int| 0 <= j < b.len() implies mode_fits(#[trigger] b[j], git_dir, common_dir) by {
        if j < b1.len() && j != k2 {
            assert(b[j] == b1[j]);
        }
    }
    lemma_with_target_keeps(b1, common_dir, WatchMode::Recursive, g);
    let c = if k2 < 0 { b1.len() as int } else { k2 };
    assert(b[c].mode == WatchMode::Recursive);
    let k3 = match excludes {
        Some(e) => target_index(b, e@),
        None => -1,
    };
    match excludes {
        Some(e) => {
            lemma_target_index(b, e@);
            assert forall|j: int| 0 <= j < r.len() implies mode_fits(#[trigger] r[j], git_dir, common_dir) by {
                if j < b.len() {
                    assert(r[j] == b[j]);
                }
            }
            lemma_with_target_keeps(b, e, WatchMode::NonRecursive, g);
            lemma_with_target_keeps(b, e, WatchMode::NonRecursive, c);
            assert(r[g].mode == WatchMode::Recursive);
            assert(r[c].mode == WatchMode::Recursive);
        },
        None => {},
    }
    assert(r[g].mode == WatchMode::Recursive && (r[g].path@ == git_dir@ || path_equal(r[g].path@, git_dir@)));
    assert(r[c].mode == WatchMode::Recursive && (r[c].path@ == common_dir@ || path_equal(r[c].path@, common_dir@)));
    if dirs.len() > 0 {
        lemma_with_target_keeps(a, git_dir, WatchMode::Recursive, 0);
        lemma_with_target_keeps(b1, common_dir, WatchMode::Recursive, 0);
        if let Some(e) = excludes {
            lemma_with_target_keeps(b, e, WatchMode::NonRecursive, 0);
        }
    }
}

/// `ts` are the targets to watch for a repository with `identity`: sorted
/// by path, each path once; the requested targets (the working-tree
/// directories, starting with the working tree itself, then the Git
/// directory, the common directory and the configured excludes file), each
/// kept exactly when the file system answered that its path exists; and only
/// targets for the Git directory and the common directory watched
/// recursively.
pub open spec fn are_watch_targets(ts: Seq<WatchTarget>, identity: RepositoryIdentity) -> bool {
    &&& sorted_by_key(ts)
    &&& distinct_paths(ts)
    &&& forall|t: WatchTarget| #[trigger] ts.contains(t) ==> mode_fits(t, identity.git_dir, identity.common_dir)
    &&& exists|dirs: Seq<String>, excludes: Option<String>, answers: Seq<ExistenceAnswer>|
        #![trigger kept_targets(requested_targets(dirs, identity.git_dir, identity.common_dir, excludes), answer_flags(answers))]
    {
        let requested = requested_targets(dirs, identity.git_dir, identity.common_dir, excludes);
        &&& (identity.worktree_root is None ==> dirs.len() == 0)
        &&& (identity.worktree_root matches Some(w) ==> dirs.len() > 0 && dirs[0]@ == w@)
        &&& answered_for(requested, answers)
        &&& ts.to_multiset() == kept_targets(requested, answer_flags(answers)).to_multiset()
        &&& forall|k: int| 0 <= k < requested.len() ==> (ts.contains(#[trigger] requested[k]) <==> answers[k].says_exists())
    }
}

/// The targets to watch for a snapshot's repository, sorted by path, each
/// path once: the requested targets that exist, the working-tree
/// directories starting with the working tree itself. Only targets for the
/// Git directory and the common directory are watched recursively.
pub fn watch_targets_for_snapshot(snapshot: &RepositorySnapshot) -> (r: Vec<WatchTarget>)
    ensures
        are_watch_targets(r@, snapshot.identity),
{
    let identity = &snapshot.identity;
    let dirs = match &identity.worktree_root {
        Some(w) => worktree_watch_dirs(w.as_str()),
        None => Vec::new(),
    };
    let base = match &identity.worktree_root {
        Some(w) => w.as_str(),
        None => identity.git_dir.as_str(),
    };
    let excludes = configured_excludes_file(base);
    let ghost dirs_seen = dirs@;
    let ghost excludes_seen = excludes;
    let requested = targets_from(dirs, identity.git_dir.clone(), identity.common_dir.clone(), excludes);
    let ghost all = requested@;
    let mut answers: Vec<ExistenceAnswer> = Vec::new();
    let mut i: usize = 0;
    while i < requested.len()
        invariant
            i <= requested@.len(),
            answers@.len() == i,
            forall|k: int| 0 <= k < i ==> (#[trigger] answers@[k]).asked() == requested@[k].path@,
        decreases requested.len() - i,
    {
        answers.push(ask_exists(requested[i].path.as_str()));
        i = i + 1;
    }
    let ghost said = answers@;
    let ghost flags = answer_flags(answers@);
    let r = existing_targets_answered(requested, answers);
    proof {
        assert forall|k: int| 0 <= k < all.len() implies (r@.contains(#[trigger] all[k]) <==> said[k].says_exists()) by {
            if r@.contains(all[k]) {
                let j = choose|j: int| 0 <= j < all.len() && (#[trigger] said[j]).says_exists() && all[j] == all[k];
                if j != k {
                    assert(all[j].path@ != all[k].path@);
                }
            }
        }
        lemma_requested_modes(dirs_seen, identity.git_dir, identity.common_dir, excludes_seen);
        assert forall|t: WatchTarget| #[trigger] r@.contains(t) implies mode_fits(
            t,
            identity.git_dir,
            identity.common_dir,
        ) by {
            let k = choose|k: int| 0 <= k < all.len() && (#[trigger] said[k]).says_exists() && all[k] == t;
            assert(mode_fits(all[k], identity.git_dir, identity.common_dir));
        }
        assert(all == requested_targets(dirs_seen, identity.git_dir, identity.common_dir, excludes_seen));
        assert(r@.to_multiset() == kept_targets(all, flags).to_multiset());
    }
    r
}

/// A target of `requested` stands for `dir` (by text, or equal as a path),
/// is watched recursively, and is among `ts` exactly when the answer given for
/// its path is yes.
pub open spec fn recursive_when_present(
    ts: Seq<WatchTarget>,
    requested: Seq<WatchTarget>,
    answers: Seq<ExistenceAnswer>,
    dir: String,
) -> bool {
    exists|k: int|
        0 <= k < requested.len() && (#[trigger] requested[k]).mode == WatchMode::Recursive && (
        requested[k].path@ == dir@ || path_equal(requested[k].path@, dir@)) && (ts.contains(requested[k])
            <==> answers[k].says_exists())
}

/// The watch targets of a repository are the requested targets whose path
/// the file system answered exists, each kept exactly when its answer is yes;
/// in particular the Git directory and the common directory are each watched
/// recursively whenever the answer for them is yes, and the first working-tree
/// directory asked for is the working tree itself.
pub proof fn lemma_watch_targets_follow_answers(ts: Seq<WatchTarget>, identity: RepositoryIdentity)
    requires
        are_watch_targets(ts, identity),
    ensures
        exists|requested: Seq<WatchTarget>, answers: Seq<ExistenceAnswer>| {
            &&& #[trigger] answered_for(requested, answers)
            &&& forall|k: int| 0 <= k < requested.len() ==> (ts.contains(#[trigger] requested[k]) <==> answers[k].says_exists())
            &&& recursive_when_present(ts, requested, answers, identity.git_dir)
            &&& recursive_when_present(ts, requested, answers, identity.common_dir)
            &&& (identity.worktree_root matches Some(w) ==> requested.len() > 0 && requested[0].path@ == w@)
        },
{
    let (dirs, excludes, answers) = choose|dirs: Seq<String>, excludes: Option<String>, answers: Seq<ExistenceAnswer>|
        #![trigger kept_targets(requested_targets(dirs, identity.git_dir, identity.common_dir, excludes), answer_flags(answers))]
    {
        let requested = requested_targets(dirs, identity.git_dir, identity.common_dir, excludes);
        &&& (identity.worktree_root is None ==> dirs.len() == 0)
        &&& (identity.worktree_root matches Some(w) ==> dirs.len() > 0 && dirs[0]@ == w@)
        &&& answered_for(requested, answers)
        &&& ts.to_multiset() == kept_targets(requested, answer_flags(answers)).to_multiset()
        &&& forall|k: int| 0 <= k < requested.len() ==> (ts.contains(#[trigger] requested[k]) <==> answers[k].says_exists())
    };
    let requested = requested_targets(dirs, identity.git_dir, identity.common_dir, excludes);
    lemma_requested_modes(dirs, identity.git_dir, identity.common_dir, excludes);
    let g = choose|k: int|
        0 <= k < requested.len() && (#[trigger] requested[k]).mode == WatchMode::Recursive && (requested[k].path@
            == identity.git_dir@ || path_equal(requested[k].path@, identity.git_dir@));
    assert(ts.contains(requested[g]) <==> answers[g].says_exists());
    let c = choose|k: int|
        0 <= k < requested.len() && (#[trigger] requested[k]).mode == WatchMode::Recursive && (requested[k].path@
            == identity.common_dir@ || path_equal(requested[k].path@, identity.common_dir@));
    assert(ts.contains(requested[c]) <==> answers[c].says_exists());
    assert(answered_for(requested, answers));
}

/// The paths of some targets, in order.
pub open spec fn target_paths(ts: Seq<WatchTarget>) -> Seq<String> {
    ts.map_values(|t: WatchTarget| t.path)
}

/// The paths to watch for a snapshot's repository: those of its watch
/// targets, in the targets' order, so sorted and each path once.
pub fn watch_roots_for_snapshot(snapshot: &RepositorySnapshot) -> (r: Vec<String>)
    ensures
        exists|ts: Seq<WatchTarget>| are_watch_targets(ts, snapshot.identity) && r@ == #[trigger] target_paths(ts),
{
    let mut targets = watch_targets_for_snapshot(snapshot);
    let ghost all = targets@;
    let mut roots: Vec<String> = Vec::new();
    while targets.len() > 0
        invariant
            roots@ + target_paths(targets@) == target_paths(all),
        decreases targets.len(),
    {
        let ghost before = targets@;
        let t = targets.remove(0);
        assert(target_paths(before) =~= seq![t.path] + target_paths(targets@));
        roots.push(t.path);
        assert(roots@ + target_paths(targets@) =~= target_paths(all));
    }
    assert(roots@ =~= roots@ + target_paths(targets@));
    roots
}

/// The mode of the first target whose path is `root`.
pub open spec fn first_target_mode(ts: Seq<WatchTarget>, root: Seq<char>) -> Option<WatchMode>
    decreases ts.len(),
{
    if ts.len() == 0 {
        None
    } else if path_equal(ts[0].path@, root) {
        Some(ts[0].mode)
    } else {
        first_target_mode(ts.drop_first(), root)
    }
}

/// How `root` is watched for a snapshot's repository: as its target asks,
/// else non-recursively for a file and recursively otherwise.
pub fn watch_mode_for_root(snapshot: &RepositorySnapshot, root: &str) -> (r: WatchMode)
    ensures
        exists|ts: Seq<WatchTarget>| are_watch_targets(ts, snapshot.identity) && match #[trigger] first_target_mode(ts, root@) {
            Some(m) => r == m,
            None => true,
        },
{
    let targets = watch_targets_for_snapshot(snapshot);
    let ghost ts = targets@;
    assert(ts.subrange(0, ts.len() as int) =~= ts);
    let mut i: usize = 0;
    while i < targets.len()
        invariant
            i <= targets@.len(),
            ts == targets@,
            are_watch_targets(ts, snapshot.identity),
            first_target_mode(ts, root@) == first_target_mode(ts.subrange(i as int, ts.len() as int), root@),
        decreases targets.len() - i,
    {
        assert(ts.subrange(i as int, ts.len() as int).drop_first() =~= ts.subrange(i + 1, ts.len() as int));
        if same_path_text(targets[i].path.as_str(), root) {
            assert(ts.subrange(i as int, ts.len() as int)[0] == ts[i as int]);
            return targets[i].mode;
        }
        i = i + 1;
    }
    assert(ts.subrange(i as int, ts.len() as int).len() == 0);
    if path_is_file(root) {
        WatchMode::NonRecursive
    } else {
        WatchMode::Recursive
    }
}

} // verus!

//! The roots a repository watcher watches, and how they follow the
//! repository as it changes.
use vstd::prelude::*;

use crate::roots::WatchTarget;
use crate::sys::{path_equal, path_exists, path_has_prefix, path_is_dir, path_starts_with, same_path_text};
use crate::watch::{
    changes_ignore_rules, event_can_create_directory_watch, event_may_change_ignore_rules, may_create_directory,
    root_text, WatchEvent,
};

verus! {

/// Some root is the path `path`.
pub open spec fn has_root(roots: Seq<String>, path: Seq<char>) -> bool {
    exists|i: int| 0 <= i < roots.len() && path_equal((#[trigger] roots[i])@, path)
}

/// Some target is for the path `path`.
pub open spec fn targets_path(targets: Seq<WatchTarget>, path: Seq<char>) -> bool {
    exists|i: int| 0 <= i < targets.len() && path_equal((#[trigger] targets[i]).path@, path)
}

/// The elements of `s` whose flag is `b`, in order.
pub open spec fn select(s: Seq<String>, flags: Seq<bool>, b: bool) -> Seq<String>
    decreases s.len(),
{
    if s.len() == 0 {
        Seq::empty()
    } else {
        let rest = select(s.drop_last(), flags.drop_last(), b);
        if flags.last() == b {
            rest.push(s.last())
        } else {
            rest
        }
    }
}

/// The roots a watcher watches, in the order they were added.
#[derive(Debug)]
pub struct WatchSet {
    roots: Vec<String>,
}

/// Whether some target is for the path `path`.
pub fn targets_contain(targets: &Vec<WatchTarget>, path: &str) -> (r: bool)
    ensures
        r == targets_path(targets@, path@),
{
    let mut i: usize = 0;
    while i < targets.len()
        invariant
            i <= targets@.len(),
            forall|j: int| 0 <= j < i ==> !path_equal((#[trigger] targets@[j]).path@, path@),
        decreases targets.len() - i,
    {
        if same_path_text(targets[i].path.as_str(), path) {
            return true;
        }
        i = i + 1;
    }
    false
}

impl WatchSet {
    /// The roots, in the order they were added.
    pub closed spec fn paths(&self) -> Seq<String> {
        self.roots@
    }

    /// No root yet.
    pub fn new() -> (r: WatchSet)
        ensures
            r.paths() == Seq::<String>::empty(),
    {
        WatchSet { roots: Vec::new() }
    }

    /// The roots, in the order they were added.
    pub fn roots(&self) -> (r: &Vec<String>)
        ensures
            r@ == self.paths(),
    {
        &self.roots
    }

    /// Whether `path` is watched.
    pub fn contains(&self, path: &str) -> (r: bool)
        ensures
            r == has_root(self.paths(), path@),
    {
        let mut i: usize = 0;
        while i < self.roots.len()
            invariant
                i <= self.roots@.len(),
                forall|j: int| 0 <= j < i ==> !path_equal((#[trigger] self.roots@[j])@, path@),
            decreases self.roots.len() - i,
        {
            if same_path_text(self.roots[i].as_str(), path) {
                return true;
            }
            i = i + 1;
        }
        false
    }

    /// Records that `path` is watched, unless it already is.
    pub fn add(&mut self, path: String)
        ensures
            final(self).paths() == if has_root(old(self).paths(), path@) {
                old(self).paths()
            } else {
                old(self).paths().push(path)
            },
    {
        if !self.contains(path.as_str()) {
            self.roots.push(path);
        }
    }

    /// Keeps the roots that some target asks for, and gives the others, in
    /// order, to stop watching.
    pub fn reconcile(&mut self, targets: &Vec<WatchTarget>) -> (r: Vec<String>)
        ensures
            r@ == old(self).paths().filter(|p: String| !targets_path(targets@, p@)),
            final(self).paths() == old(self).paths().filter(|p: String| targets_path(targets@, p@)),
    {
        let ghost all = self.roots@;
        let ghost wanted = |p: String| targets_path(targets@, p@);
        let ghost unwanted = |p: String| !targets_path(targets@, p@);
        let mut kept: Vec<String> = Vec::new();
        let mut removed: Vec<String> = Vec::new();
        let mut i: usize = 0;
        proof {
            assert(all.subrange(0, 0) =~= Seq::<String>::empty());
            reveal(Seq::filter);
        }
        while i < self.roots.len()
            invariant
                self.roots@ == all,
                i <= all.len(),
                wanted == (|p: String| targets_path(targets@, p@)),
                unwanted == (|p: String| !targets_path(targets@, p@)),
                kept@ == all.subrange(0, i as int).filter(wanted),
                removed@ == all.subrange(0, i as int).filter(unwanted),
            decreases self.roots.len() - i,
        {
            let ghost x = all[i as int];
            let ghost done = all.subrange(0, i as int);
            let p = self.roots[i].clone();
            let keep = targets_contain(targets, p.as_str());
            proof {
                assert(all.subrange(0, i + 1) =~= done.push(x));
                done.lemma_filter_push(x, wanted);
                done.lemma_filter_push(x, unwanted);
            }
            if keep {
                kept.push(p);
            } else {
                removed.push(p);
            }
            i = i + 1;
        }
        assert(all.subrange(0, all.len() as int) =~= all);
        self.roots = kept;
        removed
    }

    /// Stops counting the roots in the working tree `worktree` that no
    /// longer exist, and gives them, in order, to stop watching.
    pub fn prune_stale(&mut self, worktree: &str) -> (r: Vec<String>)
        ensures
            exists|stale: Seq<bool>|
                #![trigger select(old(self).paths(), stale, true)]
                {
                    &&& stale.len() == old(self).paths().len()
                    &&& forall|i: int| 0 <= i < stale.len() && #[trigger] stale[i] ==> path_has_prefix(
                        old(self).paths()[i]@,
                        worktree@,
                    )
                    &&& r@ == select(old(self).paths(), stale, true)
                    &&& final(self).paths() == select(old(self).paths(), stale, false)
                },
    {
        let ghost all = self.roots@;
        let ghost mut stale: Seq<bool> = Seq::empty();
        let mut kept: Vec<String> = Vec::new();
        let mut removed: Vec<String> = Vec::new();
        let mut i: usize = 0;
        while i < self.roots.len()
            invariant
                self.roots@ == all,
                i <= all.len(),
                stale.len() == i,
                forall|j: int| 0 <= j < i && #[trigger] stale[j] ==> path_has_prefix(all[j]@, worktree@),
                kept@ == select(all.subrange(0, i as int), stale, false),
                removed@ == select(all.subrange(0, i as int), stale, true),
            decreases self.roots.len() - i,
        {
            let p = self.roots[i].clone();
            let gone = path_starts_with(p.as_str(), worktree) && !path_exists(p.as_str());
            proof {
                let next = all.subrange(0, i + 1);
                assert(next.drop_last() =~= all.subrange(0, i as int));
                assert(stale.push(gone).drop_last() =~= stale);
            }
            if gone {
                removed.push(p);
            } else {
                kept.push(p);
            }
            proof {
                stale = stale.push(gone);
            }
            i = i + 1;
        }
        assert(all.subrange(0, all.len() as int) =~= all);
        assert(removed@ == select(all, stale, true));
        assert(kept@ == select(all, stale, false));
        assert(all == old(self).paths());
        self.roots = kept;
        removed
    }
}

/// How the watched roots follow an event.
#[derive(Debug, PartialEq, Eq)]
pub enum WatchUpdate {
    /// Nothing to change.
    Keep,
    /// Work the roots out again from a fresh snapshot.
    Reconcile,
    /// Watch the working-tree directories at or below these paths.
    Extend(Vec<String>),
}

/// The path may hold a new working-tree directory to watch: it lies in the
/// working tree and not under the Git directory or the common directory.
pub open spec fn extension_candidate(path: Seq<char>, worktree: Seq<char>, git_dir: Seq<char>, common_dir: Seq<char>) -> bool {
    &&& !path_has_prefix(path, git_dir)
    &&& !path_has_prefix(path, common_dir)
    &&& path_has_prefix(path, worktree)
}

/// How the watched roots follow an event in the repository at `repo_path`:
/// - a watcher error changes nothing;
/// - a rescan, or a change that may change which paths Git ignores, works
///   the roots out again;
/// - in a working tree, an event that may bring a new directory extends the
///   roots below those of its paths that are directories of the working
///   tree outside the Git directories;
/// - anything else changes nothing.
pub fn watch_update_for_event(
    event: &Result<WatchEvent, String>,
    repo_path: &str,
    worktree_root: &Option<String>,
    git_dir: &str,
    common_dir: &str,
) -> (r: WatchUpdate)
    ensures
        match *event {
            Err(_) => r == WatchUpdate::Keep,
            Ok(e) => if e.need_rescan {
                r == WatchUpdate::Reconcile
            } else {
                &&& r == WatchUpdate::Reconcile ==> exists|i: int, x: bool| 0 <= i < e.paths@.len()
                    && #[trigger] changes_ignore_rules(
                    e.paths@[i]@,
                    x,
                    root_text(*worktree_root),
                    git_dir@,
                    common_dir@,
                )
                &&& (exists|i: int| 0 <= i < e.paths@.len() && #[trigger] changes_ignore_rules(
                    e.paths@[i]@,
                    false,
                    root_text(*worktree_root),
                    git_dir@,
                    common_dir@,
                )) ==> r == WatchUpdate::Reconcile
                &&& r != WatchUpdate::Reconcile ==> match r {
                    WatchUpdate::Extend(v) => {
                        &&& worktree_root is Some
                        &&& may_create_directory(e.kind)
                        &&& forall|i: int| 0 <= i < v@.len() ==> e.paths@.contains(#[trigger] v@[i])
                            && extension_candidate(v@[i]@, worktree_root->0@, git_dir@, common_dir@)
                    },
                    _ => worktree_root is None || !may_create_directory(e.kind),
                }
            },
        },
{
    let e = match event {
        Ok(e) => e,
        Err(_) => return WatchUpdate::Keep,
    };
    if e.need_rescan {
        return WatchUpdate::Reconcile;
    }
    if event_may_change_ignore_rules(e, repo_path, worktree_root, git_dir, common_dir) {
        return WatchUpdate::Reconcile;
    }
    let worktree = match worktree_root {
        Some(w) => w.as_str(),
        None => return WatchUpdate::Keep,
    };
    if !event_can_create_directory_watch(e.kind) {
        return WatchUpdate::Keep;
    }
    let mut dirs: Vec<String> = Vec::new();
    let mut i: usize = 0;
    while i < e.paths.len()
        invariant
            i <= e.paths@.len(),
            forall|k: int| 0 <= k < dirs@.len() ==> e.paths@.contains(#[trigger] dirs@[k]) && extension_candidate(
                dirs@[k]@,
                worktree@,
                git_dir@,
                common_dir@,
            ),
        decreases e.paths.len() - i,
    {
        let p = e.paths[i].as_str();
        if !path_starts_with(p, git_dir) && !path_starts_with(p, common_dir) && path_starts_with(p, worktree)
            && path_is_dir(p) {
            let ghost q = e.paths@[i as int];
            dirs.push(e.paths[i].clone());
            assert(e.paths@.contains(q));
        }
        i = i + 1;
    }
    WatchUpdate::Extend(dirs)
}

} // verus!

//! From file-system events to refresh plans.
use vstd::prelude::*;

use crate::classify::{git_text_plan, lock_resolved, plan_for_git_text, LockTarget, lock_target_for_git_path};
use crate::error::GitError;
use crate::git;
use crate::plan::{
    combined, covers, lemma_combine_associative, lemma_combine_commutative, lemma_combine_covers, plan_of_domains,
    RefreshDomain, RefreshPlan,
};
use crate::sys::{
    components, file_name, is_absolute, path_absolute, path_equal, path_file_name, path_has_prefix, path_join,
    path_joined, path_parts, path_relative, path_starts_with, path_strip_prefix, same_path_text,
};
use crate::text::{has_prefix, own, str_eq, strip_prefix};

verus! {

/// The most queued events one debounce turn takes in.
pub const MAX_DEBOUNCE_DRAIN_EVENTS: usize = 256;

/// One event folded into the plan that settles after a change: the plans
/// combine, the count of events taken grows by one, and taking more events
/// goes on only while fewer than `MAX_DEBOUNCE_DRAIN_EVENTS` were taken (the
/// rest of a storm of events is left for the next turn).
pub fn fold_settling_event(plan: RefreshPlan, event_plan: RefreshPlan, drained: usize) -> (r: (
    RefreshPlan,
    usize,
    bool,
))
    requires
        drained < MAX_DEBOUNCE_DRAIN_EVENTS,
    ensures
        r.0 == combined(plan, event_plan),
        r.1 == drained + 1,
        r.2 == (drained + 1 < MAX_DEBOUNCE_DRAIN_EVENTS),
{
    let drained = drained + 1;
    (plan.combine(event_plan), drained, drained < MAX_DEBOUNCE_DRAIN_EVENTS)
}

/// The kind of a file-system event, as far as refresh decisions tell kinds apart.
#[derive(Debug, Clone, Copy, PartialEq, Eq, Structural)]
pub enum WatchEventKind {
    /// An event of unknown kind.
    Any,
    /// A file was read.
    AccessRead,
    /// A file was opened.
    AccessOpen,
    /// A file opened for reading was closed.
    AccessCloseRead,
    /// Another kind of access.
    AccessOther,
    /// Something of unknown type was created.
    CreateAny,
    /// A directory was created.
    CreateFolder,
    /// Something else was created.
    CreateOther,
    /// Something was modified in an unknown way.
    ModifyAny,
    /// Something was renamed.
    ModifyName,
    /// Something was modified otherwise.
    ModifyOther,
    /// Something was removed.
    Remove,
    /// Any other event.
    Other,
}

/// A file-system event: its kind, the paths it concerns, and whether the
/// watcher lost track and everything must be rescanned.
#[derive(Debug, Clone, PartialEq, Eq)]
pub struct WatchEvent {
    pub kind: WatchEventKind,
    pub paths: Vec<String>,
    pub need_rescan: bool,
}

/// An event of this kind may change a file: everything but reads, opens,
/// and closes after reading.
pub open spec fn mutating(kind: WatchEventKind) -> bool {
    !(kind == WatchEventKind::AccessRead || kind == WatchEventKind::AccessOpen || kind
        == WatchEventKind::AccessCloseRead)
}

/// Events that create, modify or remove something.
pub open spec fn changes_files(kind: WatchEventKind) -> bool {
    ||| kind == WatchEventKind::CreateAny
    ||| kind == WatchEventKind::CreateFolder
    ||| kind == WatchEventKind::CreateOther
    ||| kind == WatchEventKind::ModifyAny
    ||| kind == WatchEventKind::ModifyName
    ||| kind == WatchEventKind::ModifyOther
    ||| kind == WatchEventKind::Remove
}

/// Whether an event of this kind may change a file.
pub fn is_mutating_event(kind: WatchEventKind) -> (r: bool)
    ensures
        r == mutating(kind),
        changes_files(kind) ==> r,
{
    match kind {
        WatchEventKind::AccessRead => false,
        WatchEventKind::AccessOpen => false,
        WatchEventKind::AccessCloseRead => false,
        _ => true,
    }
}

/// An event of this kind may bring a new directory: events of unknown kind,
/// creations of unknown type or of directories, and unknown modifications
/// or renames.
pub open spec fn may_create_directory(kind: WatchEventKind) -> bool {
    kind == WatchEventKind::Any || kind == WatchEventKind::CreateAny || kind == WatchEventKind::CreateFolder
        || kind == WatchEventKind::ModifyAny || kind == WatchEventKind::ModifyName
}

/// Whether an event of this kind may bring a new directory to watch.
pub fn event_can_create_directory_watch(kind: WatchEventKind) -> (r: bool)
    ensures
        r == may_create_directory(kind),
{
    match kind {
        WatchEventKind::Any => true,
        WatchEventKind::CreateAny => true,
        WatchEventKind::CreateFolder => true,
        WatchEventKind::ModifyAny => true,
        WatchEventKind::ModifyName => true,
        _ => false,
    }
}

/// An event calls for a refresh: a watcher error, a rescan, or a change.
pub open spec fn refresh_needed(event: Result<WatchEvent, String>) -> bool {
    match event {
        Ok(e) => e.need_rescan || mutating(e.kind),
        Err(_) => true,
    }
}

/// Whether an event calls for a refresh at all.
pub fn should_refresh_for_event(event: &Result<WatchEvent, String>) -> (r: bool)
    ensures
        r == refresh_needed(*event),
        *event matches Ok(e) && changes_files(e.kind) ==> r,
{
    match event {
        Ok(e) => e.need_rescan || is_mutating_event(e.kind),
        Err(_) => true,
    }
}

/// The plans of the paths combined, starting from no refresh.
pub open spec fn combined_plans(plans: Seq<RefreshPlan>) -> RefreshPlan
    decreases plans.len(),
{
    if plans.len() == 0 {
        RefreshPlan::Nothing
    } else {
        combined(combined_plans(plans.drop_last()), plans.last())
    }
}

/// The combined plan of a sequence covers every domain one of its plans
/// covers.
proof fn lemma_combined_plans_cover(plans: Seq<RefreshPlan>, k: int, d: RefreshDomain)
    requires
        0 <= k < plans.len(),
        covers(plans[k], d),
    ensures
        covers(combined_plans(plans), d),
    decreases plans.len(),
{
    let init = plans.drop_last();
    if k < plans.len() - 1 {
        lemma_combined_plans_cover(init, k, d);
        lemma_combine_covers(combined_plans(init), plans.last(), d);
    } else {
        lemma_combine_covers(combined_plans(init), plans.last(), d);
    }
}

/// Every event that creates, modifies or removes something calls for a
/// refresh: only reads are left alone. Its plan covers every domain that
/// the plan of one of its paths covers, so removing a tracked file of the
/// working tree, whose path plan covers the paths, re-reads the paths.
pub proof fn lemma_changes_call_for_refresh(e: WatchEvent, plans: Seq<RefreshPlan>, k: int, d: RefreshDomain)
    requires
        changes_files(e.kind),
    ensures
        mutating(e.kind),
        refresh_needed(Ok::<WatchEvent, String>(e)),
        0 <= k < plans.len() && covers(plans[k], d) ==> covers(event_plan(Ok::<WatchEvent, String>(e), plans), d),
{
    if 0 <= k < plans.len() && covers(plans[k], d) && !e.need_rescan && e.paths@.len() > 0 {
        lemma_combined_plans_cover(plans, k, d);
    }
}

/// Combining the plans of a sequence is the same as combining all but one
/// of them, then that one.
proof fn lemma_combined_plans_remove(plans: Seq<RefreshPlan>, k: int)
    requires
        0 <= k < plans.len(),
    ensures
        combined_plans(plans) == combined(combined_plans(plans.remove(k)), plans[k]),
    decreases plans.len(),
{
    if k < plans.len() - 1 {
        let init = plans.drop_last();
        lemma_combined_plans_remove(init, k);
        assert(plans.remove(k).drop_last() =~= init.remove(k));
        assert(plans.remove(k).last() == plans.last());
        let x = combined_plans(init.remove(k));
        lemma_combine_associative(x, plans[k], plans.last());
        lemma_combine_commutative(plans[k], plans.last());
        lemma_combine_associative(x, plans.last(), plans[k]);
    } else {
        assert(plans.remove(k) =~= plans.drop_last());
    }
}

/// The plan of an event's paths does not depend on their order: any
/// reordering of the path plans combines to the same plan.
pub proof fn lemma_combined_plans_reordered(a: Seq<RefreshPlan>, b: Seq<RefreshPlan>)
    requires
        a.to_multiset() == b.to_multiset(),
    ensures
        combined_plans(a) == combined_plans(b),
    decreases a.len(),
{
    broadcast use vstd::multiset::group_multiset_axioms;
    if a.len() == 0 {
        vstd::seq_lib::to_multiset_len(a);
        vstd::seq_lib::to_multiset_len(b);
        assert(b.len() == 0);
        assert(b =~= a);
    } else {
        let x = a.last();
        vstd::seq_lib::to_multiset_contains(a, x);
        vstd::seq_lib::to_multiset_contains(b, x);
        assert(a.contains(x)) by {
            assert(a[a.len() - 1] == x);
        }
        let k = choose|k: int| 0 <= k < b.len() && b[k] == x;
        vstd::seq_lib::to_multiset_remove(a, a.len() - 1);
        vstd::seq_lib::to_multiset_remove(b, k);
        assert(a.remove(a.len() - 1) =~= a.drop_last());
        lemma_combined_plans_reordered(a.drop_last(), b.remove(k));
        lemma_combined_plans_remove(b, k);
    }
}

/// An event that the watcher drops as calling for no refresh could never
/// have needed one: its plan is no refresh.
pub proof fn lemma_dropped_events_need_nothing(event: Result<WatchEvent, String>, plans: Seq<RefreshPlan>)
    requires
        !refresh_needed(event),
    ensures
        event_plan(event, plans) == RefreshPlan::Nothing,
{
}

/// The plan for an event, given the plan of each of its paths: a full
/// refresh for a watcher error, a rescan or an event without paths; nothing
/// for a read; else the plans of its paths combined.
pub open spec fn event_plan(event: Result<WatchEvent, String>, path_plans: Seq<RefreshPlan>) -> RefreshPlan {
    match event {
        Err(_) => RefreshPlan::Full,
        Ok(e) => if e.need_rescan {
            RefreshPlan::Full
        } else if !mutating(e.kind) {
            RefreshPlan::Nothing
        } else if e.paths@.len() == 0 {
            RefreshPlan::Full
        } else {
            combined_plans(path_plans)
        },
    }
}

/// The plan for an event, given the plan of each of its paths.
pub fn plan_for_event_paths(event: &Result<WatchEvent, String>, path_plans: &Vec<RefreshPlan>) -> (r: RefreshPlan)
    ensures
        r == event_plan(*event, path_plans@),
{
    match event {
        Err(_) => RefreshPlan::Full,
        Ok(e) => {
            if e.need_rescan {
                return RefreshPlan::Full;
            }
            if !is_mutating_event(e.kind) {
                return RefreshPlan::Nothing;
            }
            if e.paths.len() == 0 {
                return RefreshPlan::Full;
            }
            let mut plan = RefreshPlan::Nothing;
            let mut i: usize = 0;
            while i < path_plans.len()
                invariant
                    i <= path_plans@.len(),
                    plan == combined_plans(path_plans@.subrange(0, i as int)),
                decreases path_plans.len() - i,
            {
                assert(path_plans@.subrange(0, i + 1).drop_last() =~= path_plans@.subrange(0, i as int));
                plan = plan.combine(path_plans[i]);
                i = i + 1;
            }
            assert(path_plans@.subrange(0, path_plans@.len() as int) =~= path_plans@);
            plan
        },
    }
}

/// What the outside world tells about one changed path: whether it is the
/// configured excludes file, the branch HEAD is attached to, whether it lies
/// inside a submodule, and whether Git ignores it (`None` when the
/// repository cannot be opened).
#[derive(Debug, Clone, PartialEq, Eq)]
pub struct PathFacts {
    pub excludes_file: bool,
    pub head_branch: Option<String>,
    pub inside_submodule: bool,
    pub ignored: Option<bool>,
}

/// The ref path names the branch HEAD is attached to.
pub open spec fn names_head_branch(t: Seq<char>, head_branch: Option<String>) -> bool {
    has_prefix(t, "refs/heads/"@) && match head_branch {
        Some(h) => h@ == t.subrange("refs/heads/"@.len() as int, t.len() as int),
        None => false,
    }
}

/// Whether the ref path names the branch HEAD is attached to.
pub fn names_current_branch(ref_path: &str, head_branch: &Option<String>) -> (r: bool)
    ensures
        r == names_head_branch(ref_path@, *head_branch),
{
    let branch = match strip_prefix(ref_path, "refs/heads/") {
        Some(b) => b,
        None => return false,
    };
    match head_branch {
        Some(h) => str_eq(h.as_str(), branch.as_str()),
        None => false,
    }
}

/// The path relative to the Git directory, or to the common directory.
pub open spec fn git_relative(path: Seq<char>, git_dir: Seq<char>, common_dir: Seq<char>) -> Seq<char> {
    if path_has_prefix(path, git_dir) {
        path_relative(path, git_dir)
    } else if path_has_prefix(path, common_dir) {
        path_relative(path, common_dir)
    } else {
        path
    }
}

/// The plan for a change to a path relative to the working tree.
pub open spec fn worktree_plan(rel: Seq<char>, facts: PathFacts) -> RefreshPlan {
    if path_file_name(rel) == Some(".gitignore"@) {
        plan_of_domains(seq![RefreshDomain::Paths])
    } else if path_equal(rel, ".git"@) {
        plan_of_domains(seq![RefreshDomain::Identity, RefreshDomain::Worktrees])
    } else if path_equal(rel, ".gitmodules"@) || path_parts(rel).contains(".git"@) {
        plan_of_domains(seq![RefreshDomain::Paths, RefreshDomain::Submodules])
    } else if facts.inside_submodule {
        plan_of_domains(seq![RefreshDomain::Paths, RefreshDomain::Submodules])
    } else if facts.ignored == Some(true) {
        RefreshPlan::Nothing
    } else {
        plan_of_domains(seq![RefreshDomain::Paths])
    }
}

/// The plan for a change to `path`: by its place under the Git directory,
/// for the configured excludes file, and by its place in the working tree;
/// a full refresh for a path outside all of them.
pub open spec fn location_plan(
    path: Seq<char>,
    git_dir: Seq<char>,
    common_dir: Seq<char>,
    worktree_root: Option<Seq<char>>,
    facts: PathFacts,
) -> RefreshPlan {
    if path_has_prefix(path, git_dir) || path_has_prefix(path, common_dir) {
        match lock_resolved(git_relative(path, git_dir, common_dir)) {
            None => RefreshPlan::Nothing,
            Some(t) => git_text_plan(t, names_head_branch(t, facts.head_branch)),
        }
    } else if facts.excludes_file {
        plan_of_domains(seq![RefreshDomain::Paths])
    } else {
        match worktree_root {
            None => RefreshPlan::Full,
            Some(w) => if !path_has_prefix(path, w) {
                RefreshPlan::Full
            } else {
                worktree_plan(path_relative(path, w), facts)
            },
        }
    }
}

/// The text of an optional path.
pub open spec fn root_text(w: Option<String>) -> Option<Seq<char>> {
    match w {
        Some(p) => Some(p@),
        None => None,
    }
}

/// Whether the name is one of the path's components.
pub fn path_has_component(path: &str, component: &str) -> (r: bool)
    ensures
        r == path_parts(path@).contains(component@),
{
    let parts = components(path);
    let ghost texts = parts@.map_values(|c: String| c@);
    let mut i: usize = 0;
    while i < parts.len()
        invariant
            i <= parts@.len(),
            texts == parts@.map_values(|c: String| c@),
            texts == path_parts(path@),
            forall|j: int| 0 <= j < i ==> texts[j] != component@,
        decreases parts.len() - i,
    {
        if str_eq(parts[i].as_str(), component) {
            assert(texts[i as int] == component@);
            return true;
        }
        i = i + 1;
    }
    false
}

/// Whether the path names an ignore-rule file.
pub fn is_ignore_rule_path(path: &str) -> (r: bool)
    ensures
        r == (path_file_name(path@) == Some(".gitignore"@)),
{
    match file_name(path) {
        Some(n) => str_eq(n.as_str(), ".gitignore"),
        None => false,
    }
}

fn domains1(a: RefreshDomain) -> (r: RefreshPlan)
    ensures
        r == plan_of_domains(seq![a]),
{
    let r = RefreshPlan::domains([a]);
    assert([a]@ =~= seq![a]);
    r
}

fn domains2(a: RefreshDomain, b: RefreshDomain) -> (r: RefreshPlan)
    ensures
        r == plan_of_domains(seq![a, b]),
{
    let r = RefreshPlan::domains([a, b]);
    assert([a, b]@ =~= seq![a, b]);
    r
}

/// The plan for a change to a path relative to the working tree.
fn plan_for_worktree_path(rel: &str, facts: &PathFacts) -> (r: RefreshPlan)
    ensures
        r == worktree_plan(rel@, *facts),
{
    if is_ignore_rule_path(rel) {
        return domains1(RefreshDomain::Paths);
    }
    if same_path_text(rel, ".git") {
        return domains2(RefreshDomain::Identity, RefreshDomain::Worktrees);
    }
    if same_path_text(rel, ".gitmodules") || path_has_component(rel, ".git") {
        return domains2(RefreshDomain::Paths, RefreshDomain::Submodules);
    }
    if facts.inside_submodule {
        return domains2(RefreshDomain::Paths, RefreshDomain::Submodules);
    }
    match facts.ignored {
        Some(true) => RefreshPlan::Nothing,
        _ => domains1(RefreshDomain::Paths),
    }
}

/// The plan for a change to `path`, given what is known about it.
pub fn plan_for_location(
    path: &str,
    git_dir: &str,
    common_dir: &str,
    worktree_root: &Option<String>,
    facts: &PathFacts,
) -> (r: RefreshPlan)
    ensures
        r == location_plan(
            path@,
            git_dir@,
            common_dir@,
            root_text(*worktree_root),
            *facts,
        ),
{
    if path_starts_with(path, git_dir) || path_starts_with(path, common_dir) {
        let rel = match path_strip_prefix(path, git_dir) {
            Some(r) => r,
            None => match path_strip_prefix(path, common_dir) {
                Some(r) => r,
                None => own(path),
            },
        };
        return match lock_target_for_git_path(rel.as_str()) {
            LockTarget::Known(t) => {
                let current = names_current_branch(t.as_str(), &facts.head_branch);
                plan_for_git_text(t.as_str(), current)
            },
            LockTarget::Unmodeled => RefreshPlan::Nothing,
            LockTarget::NotLock => {
                let current = names_current_branch(rel.as_str(), &facts.head_branch);
                plan_for_git_text(rel.as_str(), current)
            },
        };
    }
    if facts.excludes_file {
        return domains1(RefreshDomain::Paths);
    }
    let w = match worktree_root {
        Some(w) => w,
        None => return RefreshPlan::Full,
    };
    match path_strip_prefix(path, w.as_str()) {
        Some(rel) => plan_for_worktree_path(rel.as_str(), facts),
        None => RefreshPlan::Full,
    }
}

/// The configured excludes file: the configured path when it is absolute,
/// else that path under the working tree (none without a working tree).
pub fn excludes_path(value: String, workdir: Option<String>) -> (r: Option<String>)
    ensures
        if path_absolute(value@) {
            r == Some(value)
        } else {
            match workdir {
                Some(w) => r is Some && r->0@ == path_joined(w@, value@),
                None => r is None,
            }
        },
{
    if is_absolute(value.as_str()) {
        Some(value)
    } else {
        match workdir {
            Some(w) => Some(path_join(w.as_str(), value.as_str())),
            None => None,
        }
    }
}

/// A path that can name a configured excludes file: an absolute path, or a
/// path joined under a working tree.
pub open spec fn excludes_form(e: Seq<char>) -> bool {
    path_absolute(e) || exists|w: Seq<char>, v: Seq<char>| e == #[trigger] path_joined(w, v)
}

/// The excludes file that the configuration of the repository containing
/// `repo_path` names (`core.excludesfile`), if any: the configured path when
/// it is absolute, else that path under the working tree.
pub fn configured_excludes_file(repo_path: &str) -> (r: Option<String>)
    ensures
        r matches Some(e) ==> excludes_form(e@),
{
    let repo = match git::discover(repo_path) {
        Ok(repo) => repo,
        Err(_) => return None,
    };
    let value = match git::config_string(&repo, "core.excludesfile") {
        Some(v) => v,
        None => return None,
    };
    excludes_path(value, git::workdir(&repo))
}

/// `c` can stand for the path `p` once it is put in canonical form: it is
/// `p` itself, or an absolute path.
pub open spec fn canonical_candidate(p: Seq<char>, c: Seq<char>) -> bool {
    c == p || path_absolute(c)
}

/// The answer `r` compares the two paths, each in canonical form or as
/// given.
pub open spec fn same_path_answer(r: bool, left: Seq<char>, right: Seq<char>) -> bool {
    exists|a: Seq<char>, b: Seq<char>|
        canonical_candidate(left, a) && canonical_candidate(right, b) && r == #[trigger] path_equal(a, b)
}

/// A path in canonical form, or the path itself when it has none.
fn canonical_or_self(path: &str) -> (r: String)
    ensures
        canonical_candidate(path@, r@),
{
    match crate::sys::canonical_path(path) {
        Some(c) => c,
        None => own(path),
    }
}

/// Whether two paths name the same file: equal once each is in canonical
/// form (when it has one).
pub fn same_path(left: &str, right: &str) -> (r: bool)
    ensures
        same_path_answer(r, left@, right@),
{
    let l = canonical_or_self(left);
    let r = canonical_or_self(right);
    same_path_text(l.as_str(), r.as_str())
}

/// Whether `path` is the configured excludes file of the repository.
pub fn is_configured_excludes_file(repo_path: &str, path: &str) -> (r: bool)
    ensures
        r ==> exists|e: Seq<char>| #[trigger] excludes_form(e) && same_path_answer(true, e, path@),
{
    match configured_excludes_file(repo_path) {
        Some(e) => same_path(e.as_str(), path),
        None => false,
    }
}

/// Some path of the list is `relative` or a leading part of it.
pub open spec fn inside_some(relative: Seq<char>, paths: Seq<String>) -> bool {
    exists|i: int| 0 <= i < paths.len() && (path_equal(relative, (#[trigger] paths[i])@)
        || path_has_prefix(relative, paths[i]@))
}

/// Whether `relative` is one of the paths or lies under one of them.
pub fn inside_any(relative: &str, paths: &Vec<String>) -> (r: bool)
    ensures
        r == inside_some(relative@, paths@),
{
    let mut i: usize = 0;
    while i < paths.len()
        invariant
            i <= paths@.len(),
            forall|j: int| 0 <= j < i ==> !(path_equal(relative@, (#[trigger] paths@[j])@)
                || path_has_prefix(relative@, paths@[j]@)),
        decreases paths.len() - i,
    {
        if same_path_text(relative, paths[i].as_str()) || path_starts_with(relative, paths[i].as_str()) {
            return true;
        }
        i = i + 1;
    }
    false
}

/// The paths of the submodules, in order.
pub open spec fn submodule_paths(subs: Seq<git::SubmoduleInfo>) -> Seq<String> {
    subs.map_values(|s: git::SubmoduleInfo| s.path)
}

/// Whether `relative` (to the working tree) lies in one of the submodules
/// `subs`.
pub fn inside_submodules(relative: &str, subs: &Vec<git::SubmoduleInfo>) -> (r: bool)
    ensures
        r == inside_some(relative@, submodule_paths(subs@)),
{
    let mut paths: Vec<String> = Vec::new();
    let mut i: usize = 0;
    while i < subs.len()
        invariant
            i <= subs@.len(),
            paths@ == submodule_paths(subs@.subrange(0, i as int)),
        decreases subs.len() - i,
    {
        paths.push(subs[i].path.clone());
        assert(submodule_paths(subs@.subrange(0, i + 1)) =~= submodule_paths(subs@.subrange(0, i as int)).push(
            subs@[i as int].path,
        ));
        i = i + 1;
    }
    assert(subs@.subrange(0, subs@.len() as int) =~= subs@);
    inside_any(relative, &paths)
}

/// Whether `relative` (to the working tree) lies in a submodule of the
/// repository containing `repo_path`: never when the repository or its
/// submodules cannot be read; else as `inside_submodules` tells for the
/// submodules listed.
pub fn path_is_inside_submodule(repo_path: &str, relative: &str) -> (r: bool)
    ensures
        r ==> exists|subs: Seq<git::SubmoduleInfo>| #[trigger] inside_some(relative@, submodule_paths(subs)),
{
    let repo = match git::discover(repo_path) {
        Ok(repo) => repo,
        Err(_) => return false,
    };
    let subs = match git::submodules(&repo) {
        Ok(subs) => subs,
        Err(_) => return false,
    };
    inside_submodules(relative, &subs)
}

/// The child path that stands for a directory when asking whether Git
/// ignores it: directory-only rules match the directory's entries.
pub open spec fn ignore_probe_of(relative: Seq<char>) -> Seq<char> {
    path_joined(relative, "__gitseer_directory_probe__"@)
}

/// The child path that stands for a directory when asking whether Git
/// ignores it.
pub fn ignore_probe(relative: &str) -> (r: String)
    ensures
        r@ == ignore_probe_of(relative@),
{
    path_join(relative, "__gitseer_directory_probe__")
}

/// Whether Git ignores `relative` (to the working tree): the path itself, or
/// its probe child (`ignore_probe`), since libgit2 may not match
/// directory-only rules against the directory. Both answers come from the
/// ignore rules on disk; nothing is stated of them.
pub fn path_should_be_ignored(repo: &git2::Repository, relative: &str) -> (r: bool) {
    let probe = ignore_probe(relative);
    git::should_ignore(repo, relative) || git::should_ignore(repo, probe.as_str())
}

/// The branch HEAD is attached to, given what reading HEAD gave: its short
/// name, none when HEAD cannot be read.
pub fn head_branch_from(head: Result<git::HeadRef, GitError>) -> (r: Option<String>)
    ensures
        r == match head {
            Ok(h) => h.shorthand,
            Err(_) => None,
        },
{
    match head {
        Ok(h) => h.shorthand,
        Err(_) => None,
    }
}

/// The branch HEAD is attached to in the repository containing `repo_path`:
/// none when there is no repository there.
fn head_branch_of(repo_path: &str) -> (r: Option<String>) {
    let repo = match git::discover(repo_path) {
        Ok(repo) => repo,
        Err(_) => return None,
    };
    head_branch_from(git::head(&repo))
}

/// Facts that can describe `path`: for a path under the Git directory or
/// the common directory, only the branch HEAD is attached to; for any other
/// path, no branch, and outside the working tree neither a submodule nor an
/// ignore answer.
pub open spec fn facts_fit(
    path: Seq<char>,
    git_dir: Seq<char>,
    common_dir: Seq<char>,
    root: Option<Seq<char>>,
    f: PathFacts,
) -> bool {
    if path_has_prefix(path, git_dir) || path_has_prefix(path, common_dir) {
        !f.excludes_file && !f.inside_submodule && f.ignored is None
    } else {
        &&& f.head_branch is None
        &&& !(root matches Some(w) && path_has_prefix(path, w)) ==> !f.inside_submodule && f.ignored is None
    }
}

/// A plan that a change to `path` can call for, whatever the outside world
/// tells about it.
pub open spec fn possible_path_plan(
    p: RefreshPlan,
    path: Seq<char>,
    git_dir: Seq<char>,
    common_dir: Seq<char>,
    root: Option<Seq<char>>,
) -> bool {
    exists|f: PathFacts| facts_fit(path, git_dir, common_dir, root, f) && p == #[trigger] location_plan(
        path,
        git_dir,
        common_dir,
        root,
        f,
    )
}

/// Gathers what the plan for `path` depends on outside the library: for a
/// path under the Git directory or the common directory, only the branch HEAD
/// is attached to; for any other path, whether it is the configured excludes
/// file and, when it lies in the working tree, whether it is inside a
/// submodule and whether Git ignores it.
pub fn path_facts(
    repo_path: &str,
    git_dir: &str,
    common_dir: &str,
    worktree_root: &Option<String>,
    path: &str,
) -> (r: PathFacts)
    ensures
        facts_fit(path@, git_dir@, common_dir@, root_text(*worktree_root), r),
        r.excludes_file ==> exists|e: Seq<char>| #[trigger] excludes_form(e) && same_path_answer(true, e, path@),
{
    if path_starts_with(path, git_dir) || path_starts_with(path, common_dir) {
        return PathFacts {
            excludes_file: false,
            head_branch: head_branch_of(repo_path),
            inside_submodule: false,
            ignored: None,
        };
    }
    let excludes_file = is_configured_excludes_file(repo_path, path);
    let rel = match worktree_root {
        Some(w) => path_strip_prefix(path, w.as_str()),
        None => None,
    };
    let (inside_submodule, ignored) = match &rel {
        Some(r) => {
            let inside = path_is_inside_submodule(repo_path, r.as_str());
            let ignored = match git::discover(repo_path) {
                Ok(repo) => Some(path_should_be_ignored(&repo, r.as_str())),
                Err(_) => None,
            };
            (inside, ignored)
        },
        None => (false, None),
    };
    PathFacts { excludes_file, head_branch: None, inside_submodule, ignored }
}

/// The plan for a change to `path`.
pub fn refresh_plan_for_path(
    repo_path: &str,
    worktree_root: &Option<String>,
    git_dir: &str,
    common_dir: &str,
    path: &str,
) -> (r: RefreshPlan)
    ensures
        possible_path_plan(r, path@, git_dir@, common_dir@, root_text(*worktree_root)),
{
    let facts = path_facts(repo_path, git_dir, common_dir, worktree_root, path);
    plan_for_location(path, git_dir, common_dir, worktree_root, &facts)
}

/// The plan for an event in the repository at `repo_path`, with its working
/// tree, Git directory and common directory.
pub fn refresh_plan_for_event(
    event: &Result<WatchEvent, String>,
    repo_path: &str,
    worktree_root: &Option<String>,
    git_dir: &str,
    common_dir: &str,
) -> (r: RefreshPlan)
    ensures
        exists|plans: Seq<RefreshPlan>| r == #[trigger] event_plan(*event, plans) && match *event {
            Ok(e) => !e.need_rescan && mutating(e.kind) ==> {
                &&& plans.len() == e.paths@.len()
                &&& forall|i: int| 0 <= i < plans.len() ==> #[trigger] possible_path_plan(
                    plans[i],
                    e.paths@[i]@,
                    git_dir@,
                    common_dir@,
                    root_text(*worktree_root),
                )
            },
            Err(_) => true,
        },
{
    let mut plans: Vec<RefreshPlan> = Vec::new();
    match event {
        Ok(e) => {
            if !e.need_rescan && is_mutating_event(e.kind) {
                let mut i: usize = 0;
                while i < e.paths.len()
                    invariant
                        i <= e.paths@.len(),
                        plans@.len() == i,
                        forall|j: int| 0 <= j < i ==> #[trigger] possible_path_plan(
                            plans@[j],
                            e.paths@[j]@,
                            git_dir@,
                            common_dir@,
                            root_text(*worktree_root),
                        ),
                    decreases e.paths.len() - i,
                {
                    plans.push(refresh_plan_for_path(repo_path, worktree_root, git_dir, common_dir, e.paths[i].as_str()));
                    i = i + 1;
                }
            }
        },
        Err(_) => {},
    }
    plan_for_event_paths(event, &plans)
}

/// A change to this path may change which paths Git ignores: it is the
/// configured excludes file, the exclude file or configuration of the Git
/// directory, or an ignore-rule file in the working tree.
pub open spec fn changes_ignore_rules(
    path: Seq<char>,
    excludes_file: bool,
    worktree_root: Option<Seq<char>>,
    git_dir: Seq<char>,
    common_dir: Seq<char>,
) -> bool {
    ||| excludes_file
    ||| ((path_has_prefix(path, git_dir) || path_has_prefix(path, common_dir)) && {
        let rel = git_relative(path, git_dir, common_dir);
        rel == "info/exclude"@ || rel == "config"@ || rel == "config.worktree"@
    })
    ||| (worktree_root matches Some(w) && path_has_prefix(path, w) && path_file_name(path_relative(path, w))
        == Some(".gitignore"@))
}

/// Whether a change to this path may change which paths Git ignores, given
/// whether it is the configured excludes file.
pub fn path_changes_ignore_rules(
    path: &str,
    excludes_file: bool,
    worktree_root: &Option<String>,
    git_dir: &str,
    common_dir: &str,
) -> (r: bool)
    ensures
        r == changes_ignore_rules(
            path@,
            excludes_file,
            root_text(*worktree_root),
            git_dir@,
            common_dir@,
        ),
{
    if excludes_file {
        return true;
    }
    let git_rel = match path_strip_prefix(path, git_dir) {
        Some(r) => Some(r),
        None => path_strip_prefix(path, common_dir),
    };
    match git_rel {
        Some(rel) => {
            let t = rel.as_str();
            if str_eq(t, "info/exclude") || str_eq(t, "config") || str_eq(t, "config.worktree") {
                return true;
            }
        },
        None => {},
    }
    match worktree_root {
        Some(w) => match path_strip_prefix(path, w.as_str()) {
            Some(rel) => is_ignore_rule_path(rel.as_str()),
            None => false,
        },
        None => false,
    }
}

/// Whether an event may change which paths Git ignores: some path of it
/// does, given whether each is the configured excludes file.
pub fn event_may_change_ignore_rules(
    event: &WatchEvent,
    repo_path: &str,
    worktree_root: &Option<String>,
    git_dir: &str,
    common_dir: &str,
) -> (r: bool)
    ensures
        r ==> exists|i: int, x: bool| 0 <= i < event.paths@.len() && #[trigger] changes_ignore_rules(
            event.paths@[i]@,
            x,
            root_text(*worktree_root),
            git_dir@,
            common_dir@,
        ),
        !r ==> forall|i: int| 0 <= i < event.paths@.len() ==> !#[trigger] changes_ignore_rules(
            event.paths@[i]@,
            false,
            root_text(*worktree_root),
            git_dir@,
            common_dir@,
        ),
{
    let mut i: usize = 0;
    while i < event.paths.len()
        invariant
            i <= event.paths@.len(),
            forall|j: int| 0 <= j < i ==> !#[trigger] changes_ignore_rules(
                event.paths@[j]@,
                false,
                root_text(*worktree_root),
                git_dir@,
                common_dir@,
            ),
        decreases event.paths.len() - i,
    {
        let p = event.paths[i].as_str();
        let excludes = is_configured_excludes_file(repo_path, p);
        if path_changes_ignore_rules(p, excludes, worktree_root, git_dir, common_dir) {
            return true;
        }
        i = i + 1;
    }
    false
}

} // verus!

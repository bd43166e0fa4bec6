use std::collections::BTreeMap;
use std::io::Write;
use std::path::{Path, PathBuf};

use git2::{IndexAddOption, ObjectType, Oid, Repository, RepositoryInitOptions, Signature};
use tempfile::{Builder, NamedTempFile, TempDir, TempPath};

use gitseer::model::{HeadKind, OperationHeadRole, OperationKind, RepositorySnapshot, SnapshotPatch, TagKind};
use gitseer::plan::RefreshPlan;
use gitseer::protocol::{
    handle_request, snapshot_update_messages, DeltaNotificationParams, NotificationParams, ProcessState,
    ServerMessage, SnapshotNotificationParams,
};
use gitseer::snapshot::{default_options, refresh_repository_with_plan, snapshot_repository};
use gitseer::watch::{refresh_plan_for_event, WatchEvent, WatchEventKind};

struct TestRepo {
    temp: TempDir,
    bisect_log: std::cell::RefCell<String>,
}

impl TestRepo {
    fn new() -> Self {
        let temp = TempDir::new().unwrap();
        let mut opts = RepositoryInitOptions::new();
        opts.initial_head("main");
        let repo = Repository::init_opts(temp.path(), &opts).unwrap();
        let mut config = repo.config().unwrap();
        config.set_str("user.email", "tester@example.com").unwrap();
        config.set_str("user.name", "Tester").unwrap();
        TestRepo { temp, bisect_log: std::cell::RefCell::new(String::new()) }
    }

    fn path(&self) -> &Path {
        self.temp.path()
    }

    fn text(&self) -> String {
        self.path().to_str().unwrap().to_string()
    }

    fn repo(&self) -> Repository {
        Repository::open(self.path()).unwrap()
    }

    fn write(&self, relative: &str, contents: &str) {
        write_file(&self.path().join(relative), contents);
    }

    fn remove(&self, relative: &str) {
        remove_file(&self.path().join(relative));
    }

    fn add(&self, paths: &[&str]) {
        let repo = self.repo();
        let mut index = repo.index().unwrap();
        for p in paths {
            index.add_path(Path::new(p)).unwrap();
        }
        index.write().unwrap();
    }

    fn add_all(&self) {
        let repo = self.repo();
        let mut index = repo.index().unwrap();
        index.add_all(["*"], IndexAddOption::DEFAULT, None).unwrap();
        index.update_all(["*"], None).unwrap();
        index.write().unwrap();
    }

    fn commit(&self, message: &str) -> Oid {
        let repo = self.repo();
        let mut index = repo.index().unwrap();
        let tree_id = index.write_tree().unwrap();
        let tree = repo.find_tree(tree_id).unwrap();
        let sig = Signature::now("Tester", "tester@example.com").unwrap();
        let parent = repo.head().ok().and_then(|h| h.peel_to_commit().ok());
        let parents: Vec<&git2::Commit> = parent.iter().collect();
        repo.commit(Some("HEAD"), &sig, &sig, message, &tree, &parents).unwrap()
    }

    fn restore(&self, path: &str) {
        let repo = self.repo();
        let mut checkout = git2::build::CheckoutBuilder::new();
        checkout.force().path(path);
        repo.checkout_head(Some(&mut checkout)).unwrap();
    }

    fn restore_staged(&self, path: &str) {
        let repo = self.repo();
        let head = repo.head().unwrap().peel(ObjectType::Commit).unwrap();
        repo.reset_default(Some(&head), [path]).unwrap();
    }

    fn rm(&self, path: &str) {
        let repo = self.repo();
        let mut index = repo.index().unwrap();
        index.remove_path(Path::new(path)).unwrap();
        index.write().unwrap();
        self.remove(path);
    }

    fn mv(&self, from: &str, to: &str) {
        TempPath::try_from_path(self.path().join(from)).unwrap().persist(self.path().join(to)).unwrap();
        let repo = self.repo();
        let mut index = repo.index().unwrap();
        index.remove_path(Path::new(from)).unwrap();
        index.add_path(Path::new(to)).unwrap();
        index.write().unwrap();
    }

    fn clean(&self) {
        let repo = self.repo();
        let mut opts = git2::StatusOptions::new();
        opts.include_untracked(true).recurse_untracked_dirs(true);
        let statuses = repo.statuses(Some(&mut opts)).unwrap();
        let untracked: Vec<String> = statuses
            .iter()
            .filter(|e| e.status().contains(git2::Status::WT_NEW))
            .map(|e| e.path().unwrap().to_string())
            .collect();
        for p in untracked {
            self.remove(&p);
        }
    }

    fn set_index_flags(&self, path: &str, assume_unchanged: Option<bool>, skip_worktree: Option<bool>) {
        let repo = self.repo();
        let mut index = repo.index().unwrap();
        let mut entry = index.get_path(Path::new(path), 0).unwrap();
        if let Some(on) = assume_unchanged {
            if on {
                entry.flags |= 0x8000;
            } else {
                entry.flags &= !0x8000;
            }
        }
        if let Some(on) = skip_worktree {
            if on {
                entry.flags |= 0x4000;
                entry.flags_extended |= 0x4000;
            } else {
                entry.flags_extended &= !0x4000;
                if entry.flags_extended == 0 {
                    entry.flags &= !0x4000;
                }
            }
        }
        index.add(&entry).unwrap();
        index.write().unwrap();
    }
}

impl TestRepo {
    fn head_commit(&self) -> Oid {
        self.repo().head().unwrap().peel_to_commit().unwrap().id()
    }

    fn branch(&self, name: &str) {
        let repo = self.repo();
        let head = repo.head().unwrap().peel_to_commit().unwrap();
        repo.branch(name, &head, false).unwrap();
    }

    fn switch(&self, name: &str) {
        let repo = self.repo();
        repo.set_head(&format!("refs/heads/{name}")).unwrap();
        let mut checkout = git2::build::CheckoutBuilder::new();
        checkout.force();
        repo.checkout_head(Some(&mut checkout)).unwrap();
    }

    fn switch_create(&self, name: &str) {
        self.branch(name);
        self.switch(name);
    }

    fn checkout_detached(&self, oid: Oid) {
        let repo = self.repo();
        repo.set_head_detached(oid).unwrap();
        let mut checkout = git2::build::CheckoutBuilder::new();
        checkout.force();
        repo.checkout_head(Some(&mut checkout)).unwrap();
    }

    fn rename_branch(&self, from: &str, to: &str) {
        let repo = self.repo();
        let mut branch = repo.find_branch(from, git2::BranchType::Local).unwrap();
        branch.rename(to, false).unwrap();
    }

    fn delete_branch(&self, name: &str) {
        let repo = self.repo();
        let mut branch = repo.find_branch(name, git2::BranchType::Local).unwrap();
        branch.delete().unwrap();
    }

    fn reset(&self, oid: Oid, kind: git2::ResetType) {
        let repo = self.repo();
        let target = repo.find_object(oid, None).unwrap();
        repo.reset(&target, kind, None).unwrap();
    }

    fn commit_tracked(&self, message: &str) -> Oid {
        {
            let repo = self.repo();
            let mut index = repo.index().unwrap();
            index.update_all(["*"], None).unwrap();
            index.write().unwrap();
        }
        self.commit(message)
    }

    fn amend(&self) -> Oid {
        let repo = self.repo();
        let mut index = repo.index().unwrap();
        let tree_id = index.write_tree().unwrap();
        let tree = repo.find_tree(tree_id).unwrap();
        let head = repo.head().unwrap().peel_to_commit().unwrap();
        head.amend(Some("HEAD"), None, None, None, None, Some(&tree)).unwrap()
    }

    fn git_dir(&self) -> PathBuf {
        self.repo().path().to_path_buf()
    }

    fn set_config(&self, key: &str, value: &str) {
        self.repo().config().unwrap().set_str(key, value).unwrap();
    }
}

impl TestRepo {
    fn stash(&self, message: &str, include_untracked: bool) {
        let mut repo = self.repo();
        let sig = Signature::now("Tester", "tester@example.com").unwrap();
        let flags = if include_untracked { Some(git2::StashFlags::INCLUDE_UNTRACKED) } else { None };
        repo.stash_save(&sig, message, flags).unwrap();
    }

    fn stash_pop(&self) {
        self.repo().stash_pop(0, None).unwrap();
    }

    fn stash_apply(&self) {
        self.repo().stash_apply(0, None).unwrap();
    }

    fn stash_drop(&self) {
        self.repo().stash_drop(0).unwrap();
    }

    fn stash_count(&self) -> usize {
        let mut count = 0;
        self.repo().stash_foreach(|_, _, _| {
            count += 1;
            true
        }).unwrap();
        count
    }

    fn stash_branch(&self, name: &str) {
        let mut base = None;
        self.repo().stash_foreach(|index, _, oid| {
            if index == 0 {
                base = Some(*oid);
            }
            true
        }).unwrap();
        {
            let repo = self.repo();
            let stash_commit = repo.find_commit(base.unwrap()).unwrap();
            let parent = stash_commit.parent(0).unwrap();
            repo.branch(name, &parent, false).unwrap();
        }
        self.switch(name);
        self.stash_pop();
    }

    fn tag_lightweight(&self, name: &str) {
        let repo = self.repo();
        let head = repo.head().unwrap().peel(ObjectType::Commit).unwrap();
        repo.tag_lightweight(name, &head, false).unwrap();
    }

    fn tag_annotated(&self, name: &str, message: &str) {
        let repo = self.repo();
        let head = repo.head().unwrap().peel(ObjectType::Commit).unwrap();
        let sig = Signature::now("Tester", "tester@example.com").unwrap();
        repo.tag(name, &head, &sig, message, false).unwrap();
    }

    fn tag_delete(&self, name: &str) {
        self.repo().tag_delete(name).unwrap();
    }

    fn remote_add(&self, name: &str, url: &str) {
        self.repo().remote(name, url).unwrap();
    }
}

fn init_bare_repo(path: &Path) {
    let mut opts = RepositoryInitOptions::new();
    opts.bare(true).initial_head("main");
    Repository::init_opts(path, &opts).unwrap();
}

fn update_with_no_delta(state: &mut ProcessState, before: &Scan) -> RefreshPlan {
    let paths = changed_paths(before);
    let plan = plan_for_paths(state, &paths);
    let messages = refresh_messages(state, &plan);
    assert!(messages.is_empty());
    plan
}

fn ensure_dir(path: &Path) {
    if path.exists() {
        return;
    }
    let parent = path.parent().unwrap();
    ensure_dir(parent);
    let name = path.file_name().unwrap();
    let dir = Builder::new().prefix(name).rand_bytes(0).tempdir_in(parent).unwrap();
    let _ = dir.keep();
}

fn write_file(path: &Path, contents: &str) {
    let parent = path.parent().unwrap();
    ensure_dir(parent);
    let mut file = NamedTempFile::new_in(parent).unwrap();
    file.write_all(contents.as_bytes()).unwrap();
    file.persist(path).unwrap();
}

fn remove_file(path: &Path) {
    drop(TempPath::try_from_path(path).unwrap());
}

/// A record of the files under some roots, to tell what an operation touched.
struct Scan {
    roots: Vec<PathBuf>,
    entries: BTreeMap<PathBuf, Option<(u64, Oid)>>,
}

fn scan_into(dir: &Path, entries: &mut BTreeMap<PathBuf, Option<(u64, Oid)>>) {
    let Ok(list) = dir.read_dir() else {
        return;
    };
    for entry in list.flatten() {
        let path = entry.path();
        let Ok(kind) = entry.file_type() else {
            continue;
        };
        if kind.is_dir() {
            entries.insert(path.clone(), None);
            scan_into(&path, entries);
        } else if kind.is_file() {
            let len = entry.metadata().map(|m| m.len()).unwrap_or(0);
            let hash = if path.components().any(|c| c.as_os_str() == "objects") {
                Oid::ZERO_SHA1
            } else {
                Oid::hash_file(ObjectType::Blob, &path).unwrap_or(Oid::ZERO_SHA1)
            };
            entries.insert(path, Some((len, hash)));
        }
    }
}

fn scan(roots: &[PathBuf]) -> Scan {
    let mut entries = BTreeMap::new();
    for root in roots {
        scan_into(root, &mut entries);
    }
    Scan { roots: roots.to_vec(), entries }
}

fn changed_paths(before: &Scan) -> Vec<PathBuf> {
    let after = scan(&before.roots);
    let mut changed = Vec::new();
    for (path, value) in &after.entries {
        match before.entries.get(path) {
            None => changed.push(path.clone()),
            Some(old) if value.is_some() && old != value => changed.push(path.clone()),
            _ => {},
        }
    }
    for path in before.entries.keys() {
        if !after.entries.contains_key(path) {
            changed.push(path.clone());
        }
    }
    changed
}

fn watch_roots(state: &ProcessState) -> Vec<PathBuf> {
    let snapshot = state.latest_snapshot().unwrap();
    let mut roots = vec![PathBuf::from(state.repo())];
    roots.push(PathBuf::from(&snapshot.identity.git_dir));
    roots.push(PathBuf::from(&snapshot.identity.common_dir));
    roots
}

fn start_scan(state: &ProcessState) -> Scan {
    scan(&watch_roots(state))
}

fn plan_for_paths(state: &ProcessState, paths: &[PathBuf]) -> RefreshPlan {
    let snapshot = state.latest_snapshot().unwrap();
    let identity = &snapshot.identity;
    let mut plan = RefreshPlan::Nothing;
    for path in paths {
        let event = Ok(WatchEvent {
            kind: WatchEventKind::Any,
            paths: vec![path.to_str().unwrap().to_string()],
            need_rescan: false,
        });
        let next = refresh_plan_for_event(
            &event,
            state.repo(),
            &identity.worktree_root,
            &identity.git_dir,
            &identity.common_dir,
        );
        plan = plan.combine(next);
    }
    plan
}

fn subscribe_for_deltas(state: &mut ProcessState) -> SnapshotNotificationParams {
    let messages = handle_request(state, r#"{"jsonrpc":"2.0","id":"subscribe","method":"gitseer/subscribe"}"#);
    assert_eq!(messages.len(), 2);
    assert!(matches!(messages[0], ServerMessage::Response(_)));
    match messages.into_iter().nth(1).unwrap() {
        ServerMessage::Notification(notification) => {
            assert_eq!(notification.method, "gitseer/snapshot");
            match notification.params.unwrap() {
                NotificationParams::Snapshot(params) => params,
                _ => panic!("expected snapshot params"),
            }
        },
        ServerMessage::Response(_) => panic!("expected snapshot notification"),
    }
}

fn refresh_messages(state: &mut ProcessState, plan: &RefreshPlan) -> Vec<ServerMessage> {
    let previous = state.latest_snapshot().unwrap().clone();
    let refresh = refresh_repository_with_plan(state.repo(), Some(&previous), plan, default_options()).unwrap();
    assert_eq!(&refresh.plan, plan);
    snapshot_update_messages(state, refresh.snapshot)
}

fn update_from_changes(state: &mut ProcessState, before: &Scan) -> (RefreshPlan, DeltaNotificationParams) {
    let paths = changed_paths(before);
    let plan = plan_for_paths(state, &paths);
    assert!(plan.should_refresh(), "changes to {paths:?} required no refresh");
    let messages = refresh_messages(state, &plan);
    (plan, only_delta_notification(messages))
}

fn only_delta_notification(messages: Vec<ServerMessage>) -> DeltaNotificationParams {
    assert_eq!(messages.len(), 1);
    match messages.into_iter().next().unwrap() {
        ServerMessage::Notification(notification) => {
            assert_eq!(notification.method, "gitseer/delta");
            match notification.params.unwrap() {
                NotificationParams::Delta(delta) => delta,
                _ => panic!("expected delta params"),
            }
        },
        ServerMessage::Response(_) => panic!("expected delta notification"),
    }
}

fn assert_incremental_refresh_plan(plan: &RefreshPlan) {
    assert!(plan.should_refresh(), "the changes did not request a refresh");
    assert_ne!(plan, &RefreshPlan::Full, "the changes fell back to a full rescan");
}

fn apply_patch_to_snapshot(mut snapshot: RepositorySnapshot, patch: SnapshotPatch) -> RepositorySnapshot {
    if let Some(identity) = patch.identity {
        snapshot.identity = identity;
    }
    if let Some(head) = patch.head {
        snapshot.head = head;
    }
    if let Some(head_commit) = patch.head_commit {
        snapshot.head_commit = head_commit;
    }
    if let Some(upstream) = patch.upstream {
        snapshot.upstream = upstream;
    }
    if let Some(paths) = patch.paths {
        snapshot.paths = paths;
    }
    if let Some(operation) = patch.operation {
        snapshot.operation = operation;
    }
    if let Some(remotes) = patch.remotes {
        snapshot.remotes = remotes;
    }
    if let Some(branches) = patch.branches {
        snapshot.branches = branches;
    }
    if let Some(tags) = patch.tags {
        snapshot.tags = tags;
    }
    if let Some(stashes) = patch.stashes {
        snapshot.stashes = stashes;
    }
    if let Some(worktrees) = patch.worktrees {
        snapshot.worktrees = worktrees;
    }
    if let Some(submodules) = patch.submodules {
        snapshot.submodules = submodules;
    }
    snapshot
}

fn committed_repo(file: &str, contents: &str) -> TestRepo {
    let repo = TestRepo::new();
    repo.write(file, contents);
    repo.add(&[file]);
    repo.commit("initial");
    repo
}

fn assert_patch_matches_fresh(repo: &TestRepo, baseline: SnapshotNotificationParams, patch: SnapshotPatch) {
    let patched = apply_patch_to_snapshot(baseline.snapshot, patch);
    let fresh = snapshot_repository(&repo.text()).unwrap();
    assert_eq!(patched, fresh);
}

#[test]
fn command_shape_edit_tracked_file_emits_patchable_delta() {
    let repo = committed_repo("tracked.txt", "base\n");
    let mut state = ProcessState::new(repo.text());
    let baseline = subscribe_for_deltas(&mut state);

    let before = start_scan(&state);
    repo.write("tracked.txt", "changed\n");
    let (plan, delta) = update_from_changes(&mut state, &before);

    assert_incremental_refresh_plan(&plan);
    assert_eq!(delta.previous_version, baseline.version);
    assert_eq!(delta.version, baseline.version + 1);
    assert_eq!(delta.delta.paths.unstaged.added, vec!["tracked.txt"]);
    assert_eq!(delta.delta.paths.unstaged.removed, Vec::<String>::new());
    assert!(delta.delta.paths.entries_changed.contains(&"tracked.txt".to_string()));
    assert_eq!(delta.patch.paths.as_ref().unwrap().unstaged, vec!["tracked.txt"]);
    assert_patch_matches_fresh(&repo, baseline, delta.patch);
}

#[test]
fn command_shape_create_untracked_file_emits_patchable_delta() {
    let repo = committed_repo("tracked.txt", "base\n");
    let mut state = ProcessState::new(repo.text());
    let baseline = subscribe_for_deltas(&mut state);

    let before = start_scan(&state);
    repo.write("new.txt", "new\n");
    let (plan, delta) = update_from_changes(&mut state, &before);

    assert_incremental_refresh_plan(&plan);
    assert_eq!(delta.previous_version, baseline.version);
    assert_eq!(delta.version, baseline.version + 1);
    assert_eq!(delta.delta.paths.untracked.added, vec!["new.txt"]);
    assert_eq!(delta.delta.paths.untracked.removed, Vec::<String>::new());
    assert_eq!(delta.patch.paths.as_ref().unwrap().untracked, vec!["new.txt"]);
    assert_patch_matches_fresh(&repo, baseline, delta.patch);
}

#[test]
fn command_shape_delete_tracked_file_emits_patchable_delta() {
    let repo = committed_repo("tracked.txt", "base\n");
    let mut state = ProcessState::new(repo.text());
    let baseline = subscribe_for_deltas(&mut state);

    let before = start_scan(&state);
    repo.remove("tracked.txt");
    let (plan, delta) = update_from_changes(&mut state, &before);

    assert_incremental_refresh_plan(&plan);
    assert_eq!(delta.previous_version, baseline.version);
    assert_eq!(delta.version, baseline.version + 1);
    assert_eq!(delta.delta.paths.unstaged.added, vec!["tracked.txt"]);
    assert_eq!(delta.delta.paths.unstaged.removed, Vec::<String>::new());
    assert!(delta.delta.paths.entries_changed.contains(&"tracked.txt".to_string()));
    assert_eq!(delta.patch.paths.as_ref().unwrap().unstaged, vec!["tracked.txt"]);
    assert_patch_matches_fresh(&repo, baseline, delta.patch);
}

#[test]
fn command_shape_git_add_path_emits_patchable_delta() {
    let repo = committed_repo("tracked.txt", "base\n");
    repo.write("tracked.txt", "changed\n");
    let mut state = ProcessState::new(repo.text());
    let baseline = subscribe_for_deltas(&mut state);

    let before = start_scan(&state);
    repo.add(&["tracked.txt"]);
    let (plan, delta) = update_from_changes(&mut state, &before);

    assert_incremental_refresh_plan(&plan);
    assert_eq!(delta.previous_version, baseline.version);
    assert_eq!(delta.version, baseline.version + 1);
    assert_eq!(delta.delta.paths.staged.added, vec!["tracked.txt"]);
    assert_eq!(delta.delta.paths.unstaged.removed, vec!["tracked.txt"]);
    assert!(delta.delta.paths.entries_changed.contains(&"tracked.txt".to_string()));
    let paths = delta.patch.paths.as_ref().unwrap();
    assert_eq!(paths.staged, vec!["tracked.txt"]);
    assert!(paths.unstaged.is_empty());
    assert_patch_matches_fresh(&repo, baseline, delta.patch);
}

#[test]
fn command_shape_git_add_all_emits_patchable_delta() {
    let repo = committed_repo("tracked.txt", "base\n");
    repo.write("tracked.txt", "changed\n");
    repo.write("new.txt", "new\n");
    let mut state = ProcessState::new(repo.text());
    let baseline = subscribe_for_deltas(&mut state);

    let before = start_scan(&state);
    repo.add_all();
    let (plan, delta) = update_from_changes(&mut state, &before);

    assert_incremental_refresh_plan(&plan);
    assert_eq!(delta.previous_version, baseline.version);
    assert_eq!(delta.version, baseline.version + 1);
    assert_eq!(delta.delta.paths.staged.added, vec!["new.txt", "tracked.txt"]);
    assert_eq!(delta.delta.paths.unstaged.removed, vec!["tracked.txt"]);
    assert_eq!(delta.delta.paths.untracked.removed, vec!["new.txt"]);
    let paths = delta.patch.paths.as_ref().unwrap();
    assert_eq!(paths.staged, vec!["new.txt", "tracked.txt"]);
    assert!(paths.unstaged.is_empty());
    assert!(paths.untracked.is_empty());
    assert_patch_matches_fresh(&repo, baseline, delta.patch);
}

#[test]
fn command_shape_git_restore_path_emits_patchable_delta() {
    let repo = committed_repo("tracked.txt", "base\n");
    repo.write("tracked.txt", "changed\n");
    let mut state = ProcessState::new(repo.text());
    let baseline = subscribe_for_deltas(&mut state);

    let before = start_scan(&state);
    repo.restore("tracked.txt");
    let (plan, delta) = update_from_changes(&mut state, &before);

    assert_incremental_refresh_plan(&plan);
    assert_eq!(delta.previous_version, baseline.version);
    assert_eq!(delta.version, baseline.version + 1);
    assert_eq!(delta.delta.paths.unstaged.removed, vec!["tracked.txt"]);
    assert!(delta.delta.paths.entries_changed.contains(&"tracked.txt".to_string()));
    let paths = delta.patch.paths.as_ref().unwrap();
    assert!(paths.staged.is_empty());
    assert!(paths.unstaged.is_empty());
    assert!(paths.untracked.is_empty());
    assert_patch_matches_fresh(&repo, baseline, delta.patch);
}

#[test]
fn command_shape_git_restore_staged_path_emits_patchable_delta() {
    let repo = committed_repo("tracked.txt", "base\n");
    repo.write("tracked.txt", "changed\n");
    repo.add(&["tracked.txt"]);
    let mut state = ProcessState::new(repo.text());
    let baseline = subscribe_for_deltas(&mut state);

    let before = start_scan(&state);
    repo.restore_staged("tracked.txt");
    let (plan, delta) = update_from_changes(&mut state, &before);

    assert_incremental_refresh_plan(&plan);
    assert_eq!(delta.previous_version, baseline.version);
    assert_eq!(delta.version, baseline.version + 1);
    assert_eq!(delta.delta.paths.staged.removed, vec!["tracked.txt"]);
    assert_eq!(delta.delta.paths.unstaged.added, vec!["tracked.txt"]);
    assert!(delta.delta.paths.entries_changed.contains(&"tracked.txt".to_string()));
    let paths = delta.patch.paths.as_ref().unwrap();
    assert!(paths.staged.is_empty());
    assert_eq!(paths.unstaged, vec!["tracked.txt"]);
    assert_patch_matches_fresh(&repo, baseline, delta.patch);
}

#[test]
fn command_shape_git_rm_path_emits_patchable_delta() {
    let repo = committed_repo("tracked.txt", "base\n");
    let mut state = ProcessState::new(repo.text());
    let baseline = subscribe_for_deltas(&mut state);

    let before = start_scan(&state);
    repo.rm("tracked.txt");
    let (plan, delta) = update_from_changes(&mut state, &before);

    assert_incremental_refresh_plan(&plan);
    assert_eq!(delta.previous_version, baseline.version);
    assert_eq!(delta.version, baseline.version + 1);
    assert_eq!(delta.delta.paths.staged.added, vec!["tracked.txt"]);
    assert!(delta.delta.paths.entries_changed.contains(&"tracked.txt".to_string()));
    let paths = delta.patch.paths.as_ref().unwrap();
    assert_eq!(paths.staged, vec!["tracked.txt"]);
    assert!(paths.unstaged.is_empty());
    assert!(paths.untracked.is_empty());
    assert_patch_matches_fresh(&repo, baseline, delta.patch);
}

#[test]
fn command_shape_git_mv_path_emits_patchable_delta() {
    let repo = committed_repo("old.txt", "base\n");
    let mut state = ProcessState::new(repo.text());
    let baseline = subscribe_for_deltas(&mut state);

    let before = start_scan(&state);
    repo.mv("old.txt", "new.txt");
    let (plan, delta) = update_from_changes(&mut state, &before);

    assert_incremental_refresh_plan(&plan);
    assert_eq!(delta.previous_version, baseline.version);
    assert_eq!(delta.version, baseline.version + 1);
    assert_eq!(delta.delta.paths.staged.added, vec!["old.txt"]);
    assert!(delta.delta.paths.entries_changed.contains(&"old.txt".to_string()));
    let paths = delta.patch.paths.as_ref().unwrap();
    assert_eq!(paths.staged, vec!["old.txt"]);
    assert!(paths.unstaged.is_empty());
    assert!(paths.untracked.is_empty());
    let entry = paths.entries.iter().find(|entry| entry.path == "old.txt").unwrap();
    assert_eq!(entry.staged_new_path.as_deref(), Some("new.txt"));
    assert_patch_matches_fresh(&repo, baseline, delta.patch);
}

#[test]
fn command_shape_git_clean_emits_patchable_delta() {
    let repo = committed_repo("tracked.txt", "base\n");
    repo.write("untracked.txt", "untracked\n");
    repo.write("scratch/nested.txt", "nested\n");
    let mut state = ProcessState::new(repo.text());
    let baseline = subscribe_for_deltas(&mut state);

    let before = start_scan(&state);
    repo.clean();
    let (plan, delta) = update_from_changes(&mut state, &before);

    assert_incremental_refresh_plan(&plan);
    assert_eq!(delta.previous_version, baseline.version);
    assert_eq!(delta.version, baseline.version + 1);
    assert_eq!(delta.delta.paths.untracked.removed, vec!["scratch/nested.txt", "untracked.txt"]);
    let paths = delta.patch.paths.as_ref().unwrap();
    assert!(paths.staged.is_empty());
    assert!(paths.unstaged.is_empty());
    assert!(paths.untracked.is_empty());
    assert_patch_matches_fresh(&repo, baseline, delta.patch);
}

#[test]
fn command_shape_git_checkout_path_emits_patchable_delta() {
    let repo = committed_repo("tracked.txt", "base\n");
    repo.write("tracked.txt", "changed\n");
    let mut state = ProcessState::new(repo.text());
    let baseline = subscribe_for_deltas(&mut state);

    let before = start_scan(&state);
    repo.restore("tracked.txt");
    let (plan, delta) = update_from_changes(&mut state, &before);

    assert_incremental_refresh_plan(&plan);
    assert_eq!(delta.previous_version, baseline.version);
    assert_eq!(delta.version, baseline.version + 1);
    assert_eq!(delta.delta.paths.unstaged.removed, vec!["tracked.txt"]);
    assert!(delta.delta.paths.entries_changed.contains(&"tracked.txt".to_string()));
    let paths = delta.patch.paths.as_ref().unwrap();
    assert!(paths.staged.is_empty());
    assert!(paths.unstaged.is_empty());
    assert!(paths.untracked.is_empty());
    assert_patch_matches_fresh(&repo, baseline, delta.patch);
}

#[test]
fn command_shape_update_index_assume_unchanged_emits_patchable_delta() {
    let repo = committed_repo("tracked.txt", "base\n");
    let mut state = ProcessState::new(repo.text());
    let baseline = subscribe_for_deltas(&mut state);

    let before = start_scan(&state);
    repo.set_index_flags("tracked.txt", Some(true), None);
    let (plan, delta) = update_from_changes(&mut state, &before);

    assert_incremental_refresh_plan(&plan);
    assert_eq!(delta.previous_version, baseline.version);
    assert_eq!(delta.version, baseline.version + 1);
    assert_eq!(delta.delta.paths.entries_changed, vec!["tracked.txt"]);
    let paths = delta.patch.paths.as_ref().unwrap();
    let entry = paths.entries.iter().find(|entry| entry.path == "tracked.txt").unwrap();
    assert!(entry.status.assume_unchanged);
    assert!(!entry.status.skip_worktree);
    assert_patch_matches_fresh(&repo, baseline, delta.patch);
}

#[test]
fn command_shape_update_index_no_assume_unchanged_emits_patchable_delta() {
    let repo = committed_repo("tracked.txt", "base\n");
    repo.set_index_flags("tracked.txt", Some(true), None);
    let mut state = ProcessState::new(repo.text());
    let baseline = subscribe_for_deltas(&mut state);

    let before = start_scan(&state);
    repo.set_index_flags("tracked.txt", Some(false), None);
    let (plan, delta) = update_from_changes(&mut state, &before);

    assert_incremental_refresh_plan(&plan);
    assert_eq!(delta.previous_version, baseline.version);
    assert_eq!(delta.version, baseline.version + 1);
    assert_eq!(delta.delta.paths.entries_changed, vec!["tracked.txt"]);
    let paths = delta.patch.paths.as_ref().unwrap();
    assert!(paths.entries.is_empty());
    assert_patch_matches_fresh(&repo, baseline, delta.patch);
}

#[test]
fn command_shape_update_index_skip_worktree_emits_patchable_delta() {
    let repo = committed_repo("tracked.txt", "base\n");
    let mut state = ProcessState::new(repo.text());
    let baseline = subscribe_for_deltas(&mut state);

    let before = start_scan(&state);
    repo.set_index_flags("tracked.txt", None, Some(true));
    let (plan, delta) = update_from_changes(&mut state, &before);

    assert_incremental_refresh_plan(&plan);
    assert_eq!(delta.previous_version, baseline.version);
    assert_eq!(delta.version, baseline.version + 1);
    assert_eq!(delta.delta.paths.entries_changed, vec!["tracked.txt"]);
    let paths = delta.patch.paths.as_ref().unwrap();
    let entry = paths.entries.iter().find(|entry| entry.path == "tracked.txt").unwrap();
    assert!(!entry.status.assume_unchanged);
    assert!(entry.status.skip_worktree);
    assert_patch_matches_fresh(&repo, baseline, delta.patch);
}

#[test]
fn command_shape_update_index_no_skip_worktree_emits_patchable_delta() {
    let repo = committed_repo("tracked.txt", "base\n");
    repo.set_index_flags("tracked.txt", None, Some(true));
    let mut state = ProcessState::new(repo.text());
    let baseline = subscribe_for_deltas(&mut state);

    let before = start_scan(&state);
    repo.set_index_flags("tracked.txt", None, Some(false));
    let (plan, delta) = update_from_changes(&mut state, &before);

    assert_incremental_refresh_plan(&plan);
    assert_eq!(delta.previous_version, baseline.version);
    assert_eq!(delta.version, baseline.version + 1);
    assert_eq!(delta.delta.paths.entries_changed, vec!["tracked.txt"]);
    let paths = delta.patch.paths.as_ref().unwrap();
    assert!(paths.entries.is_empty());
    assert_patch_matches_fresh(&repo, baseline, delta.patch);
}

fn branch_change_asserts(delta: &DeltaNotificationParams, baseline: &SnapshotNotificationParams) {
    assert_eq!(delta.previous_version, baseline.version);
    assert_eq!(delta.version, baseline.version + 1);
}

#[test]
fn command_shape_git_branch_name_emits_patchable_delta() {
    let repo = committed_repo("tracked.txt", "base\n");
    let mut state = ProcessState::new(repo.text());
    let baseline = subscribe_for_deltas(&mut state);

    let before = start_scan(&state);
    repo.branch("side");
    let (plan, delta) = update_from_changes(&mut state, &before);

    assert_incremental_refresh_plan(&plan);
    branch_change_asserts(&delta, &baseline);
    assert!(!delta.delta.head_changed);
    assert!(delta.delta.branches_changed);
    assert!(delta.patch.branches.as_ref().unwrap().iter().any(|branch| branch.name == "side"));
    assert_patch_matches_fresh(&repo, baseline, delta.patch);
}

fn assert_switched_to_side(delta: &DeltaNotificationParams) {
    assert!(delta.delta.head_changed);
    assert!(delta.delta.branches_changed);
    assert_eq!(delta.patch.head.as_ref().unwrap().branch.as_deref(), Some("side"));
    assert!(delta.patch.branches.as_ref().unwrap().iter().any(|branch| branch.name == "side" && branch.is_head));
}

#[test]
fn command_shape_git_switch_create_emits_patchable_delta() {
    let repo = committed_repo("tracked.txt", "base\n");
    let mut state = ProcessState::new(repo.text());
    let baseline = subscribe_for_deltas(&mut state);

    let before = start_scan(&state);
    repo.switch_create("side");
    let (plan, delta) = update_from_changes(&mut state, &before);

    assert_incremental_refresh_plan(&plan);
    branch_change_asserts(&delta, &baseline);
    assert_switched_to_side(&delta);
    assert_patch_matches_fresh(&repo, baseline, delta.patch);
}

#[test]
fn command_shape_git_switch_name_emits_patchable_delta() {
    let repo = committed_repo("tracked.txt", "base\n");
    repo.branch("side");
    let mut state = ProcessState::new(repo.text());
    let baseline = subscribe_for_deltas(&mut state);

    let before = start_scan(&state);
    repo.switch("side");
    let (plan, delta) = update_from_changes(&mut state, &before);

    assert_incremental_refresh_plan(&plan);
    branch_change_asserts(&delta, &baseline);
    assert_switched_to_side(&delta);
    assert_patch_matches_fresh(&repo, baseline, delta.patch);
}

#[test]
fn command_shape_git_checkout_create_branch_emits_patchable_delta() {
    let repo = committed_repo("tracked.txt", "base\n");
    let mut state = ProcessState::new(repo.text());
    let baseline = subscribe_for_deltas(&mut state);

    let before = start_scan(&state);
    repo.switch_create("side");
    let (plan, delta) = update_from_changes(&mut state, &before);

    assert_incremental_refresh_plan(&plan);
    branch_change_asserts(&delta, &baseline);
    assert_switched_to_side(&delta);
    assert_patch_matches_fresh(&repo, baseline, delta.patch);
}

#[test]
fn command_shape_git_checkout_commit_emits_patchable_delta() {
    let repo = committed_repo("tracked.txt", "base\n");
    let first_oid = repo.head_commit();
    repo.write("tracked.txt", "second\n");
    repo.commit_tracked("second");
    let mut state = ProcessState::new(repo.text());
    let baseline = subscribe_for_deltas(&mut state);

    let before = start_scan(&state);
    repo.checkout_detached(first_oid);
    let (plan, delta) = update_from_changes(&mut state, &before);

    assert_incremental_refresh_plan(&plan);
    branch_change_asserts(&delta, &baseline);
    assert!(delta.delta.head_changed);
    assert!(delta.delta.branches_changed);
    let head = delta.patch.head.as_ref().unwrap();
    assert_eq!(head.kind, HeadKind::Detached);
    assert_eq!(head.oid.as_deref(), Some(first_oid.to_string().as_str()));
    assert_patch_matches_fresh(&repo, baseline, delta.patch);
}

#[test]
fn command_shape_git_switch_previous_emits_patchable_delta() {
    let repo = committed_repo("tracked.txt", "base\n");
    repo.switch_create("side");
    repo.switch("main");
    let mut state = ProcessState::new(repo.text());
    let baseline = subscribe_for_deltas(&mut state);

    let before = start_scan(&state);
    repo.switch("side");
    let (plan, delta) = update_from_changes(&mut state, &before);

    assert_incremental_refresh_plan(&plan);
    branch_change_asserts(&delta, &baseline);
    assert_switched_to_side(&delta);
    assert_patch_matches_fresh(&repo, baseline, delta.patch);
}

#[test]
fn command_shape_git_branch_rename_emits_patchable_delta() {
    let repo = committed_repo("tracked.txt", "base\n");
    repo.branch("side");
    let mut state = ProcessState::new(repo.text());
    let baseline = subscribe_for_deltas(&mut state);

    let before = start_scan(&state);
    repo.rename_branch("side", "renamed");
    let (plan, delta) = update_from_changes(&mut state, &before);

    assert_incremental_refresh_plan(&plan);
    branch_change_asserts(&delta, &baseline);
    assert!(!delta.delta.head_changed);
    assert!(delta.delta.branches_changed);
    let branches = delta.patch.branches.as_ref().unwrap();
    assert!(branches.iter().any(|branch| branch.name == "renamed"));
    assert!(!branches.iter().any(|branch| branch.name == "side"));
    assert_patch_matches_fresh(&repo, baseline, delta.patch);
}

#[test]
fn command_shape_git_branch_delete_emits_patchable_delta() {
    let repo = committed_repo("tracked.txt", "base\n");
    repo.branch("side");
    let mut state = ProcessState::new(repo.text());
    let baseline = subscribe_for_deltas(&mut state);

    let before = start_scan(&state);
    repo.delete_branch("side");
    let (plan, delta) = update_from_changes(&mut state, &before);

    assert_incremental_refresh_plan(&plan);
    branch_change_asserts(&delta, &baseline);
    assert!(!delta.delta.head_changed);
    assert!(delta.delta.branches_changed);
    assert!(!delta.patch.branches.as_ref().unwrap().iter().any(|branch| branch.name == "side"));
    assert_patch_matches_fresh(&repo, baseline, delta.patch);
}

fn two_commit_repo() -> (TestRepo, Oid) {
    let repo = committed_repo("tracked.txt", "base\n");
    let first_oid = repo.head_commit();
    repo.write("tracked.txt", "second\n");
    repo.commit_tracked("second");
    (repo, first_oid)
}

#[test]
fn command_shape_git_reset_soft_emits_patchable_delta() {
    let (repo, first_oid) = two_commit_repo();
    let mut state = ProcessState::new(repo.text());
    let baseline = subscribe_for_deltas(&mut state);

    let before = start_scan(&state);
    repo.reset(first_oid, git2::ResetType::Soft);
    let (plan, delta) = update_from_changes(&mut state, &before);

    assert_incremental_refresh_plan(&plan);
    branch_change_asserts(&delta, &baseline);
    assert!(delta.delta.head_changed);
    assert!(delta.delta.branches_changed);
    assert_eq!(delta.patch.head.as_ref().unwrap().oid.as_deref(), Some(first_oid.to_string().as_str()));
    let paths = delta.patch.paths.as_ref().unwrap();
    assert_eq!(paths.staged, vec!["tracked.txt"]);
    assert!(paths.unstaged.is_empty());
    assert_patch_matches_fresh(&repo, baseline, delta.patch);
}

#[test]
fn command_shape_git_reset_mixed_emits_patchable_delta() {
    let (repo, first_oid) = two_commit_repo();
    let mut state = ProcessState::new(repo.text());
    let baseline = subscribe_for_deltas(&mut state);

    let before = start_scan(&state);
    repo.reset(first_oid, git2::ResetType::Mixed);
    let (plan, delta) = update_from_changes(&mut state, &before);

    assert_incremental_refresh_plan(&plan);
    branch_change_asserts(&delta, &baseline);
    assert!(delta.delta.head_changed);
    assert!(delta.delta.branches_changed);
    assert_eq!(delta.patch.head.as_ref().unwrap().oid.as_deref(), Some(first_oid.to_string().as_str()));
    let paths = delta.patch.paths.as_ref().unwrap();
    assert!(paths.staged.is_empty());
    assert_eq!(paths.unstaged, vec!["tracked.txt"]);
    assert_patch_matches_fresh(&repo, baseline, delta.patch);
}

#[test]
fn command_shape_git_reset_hard_emits_patchable_delta() {
    let (repo, first_oid) = two_commit_repo();
    let mut state = ProcessState::new(repo.text());
    let baseline = subscribe_for_deltas(&mut state);

    let before = start_scan(&state);
    repo.reset(first_oid, git2::ResetType::Hard);
    let (plan, delta) = update_from_changes(&mut state, &before);

    assert_incremental_refresh_plan(&plan);
    branch_change_asserts(&delta, &baseline);
    assert!(delta.delta.head_changed);
    assert!(delta.delta.branches_changed);
    assert!(!delta.delta.paths.has_changes());
    assert_eq!(delta.patch.head.as_ref().unwrap().oid.as_deref(), Some(first_oid.to_string().as_str()));
    assert!(delta.patch.paths.is_none());
    assert_patch_matches_fresh(&repo, baseline, delta.patch);
}

#[test]
fn command_shape_git_commit_amend_emits_patchable_delta() {
    let repo = committed_repo("tracked.txt", "base\n");
    repo.write("tracked.txt", "amended\n");
    repo.add(&["tracked.txt"]);
    let mut state = ProcessState::new(repo.text());
    let baseline = subscribe_for_deltas(&mut state);
    let previous_oid = baseline.snapshot.head.oid.clone();

    let before = start_scan(&state);
    repo.amend();
    let (plan, delta) = update_from_changes(&mut state, &before);

    assert_incremental_refresh_plan(&plan);
    branch_change_asserts(&delta, &baseline);
    assert!(delta.delta.head_changed);
    assert!(delta.delta.branches_changed);
    assert_eq!(delta.delta.paths.staged.removed, vec!["tracked.txt"]);
    let head = delta.patch.head.as_ref().unwrap();
    assert_ne!(head.oid, previous_oid);
    let paths = delta.patch.paths.as_ref().unwrap();
    assert!(paths.staged.is_empty());
    assert!(paths.unstaged.is_empty());
    assert_patch_matches_fresh(&repo, baseline, delta.patch);
}

#[test]
fn command_shape_add_root_gitignore_pattern_emits_patchable_delta() {
    let repo = committed_repo("tracked.txt", "base\n");
    repo.write("build/output.log", "artifact\n");
    let mut state = ProcessState::new(repo.text());
    let baseline = subscribe_for_deltas(&mut state);

    let before = start_scan(&state);
    repo.write(".gitignore", "build/\n");
    let (plan, delta) = update_from_changes(&mut state, &before);

    assert_incremental_refresh_plan(&plan);
    branch_change_asserts(&delta, &baseline);
    assert_eq!(delta.delta.paths.untracked.added, vec![".gitignore"]);
    assert_eq!(delta.delta.paths.untracked.removed, vec!["build/output.log"]);
    let paths = delta.patch.paths.as_ref().unwrap();
    assert_eq!(paths.untracked, vec![".gitignore"]);
    assert_patch_matches_fresh(&repo, baseline, delta.patch);
}

fn ignoring_repo() -> TestRepo {
    let repo = TestRepo::new();
    repo.write("tracked.txt", "base\n");
    repo.write(".gitignore", "build/\n");
    repo.add(&["tracked.txt", ".gitignore"]);
    repo.commit("initial");
    repo
}

#[test]
fn command_shape_modify_root_gitignore_pattern_emits_patchable_delta() {
    let repo = ignoring_repo();
    repo.write("build/output.log", "build\n");
    repo.write("cache/output.log", "cache\n");
    let mut state = ProcessState::new(repo.text());
    let baseline = subscribe_for_deltas(&mut state);

    let before = start_scan(&state);
    repo.write(".gitignore", "cache/\n");
    let (plan, delta) = update_from_changes(&mut state, &before);

    assert_incremental_refresh_plan(&plan);
    branch_change_asserts(&delta, &baseline);
    assert_eq!(delta.delta.paths.unstaged.added, vec![".gitignore"]);
    assert_eq!(delta.delta.paths.untracked.added, vec!["build/output.log"]);
    assert_eq!(delta.delta.paths.untracked.removed, vec!["cache/output.log"]);
    let paths = delta.patch.paths.as_ref().unwrap();
    assert_eq!(paths.unstaged, vec![".gitignore"]);
    assert_eq!(paths.untracked, vec!["build/output.log"]);
    assert_patch_matches_fresh(&repo, baseline, delta.patch);
}

#[test]
fn command_shape_remove_root_gitignore_pattern_emits_patchable_delta() {
    let repo = ignoring_repo();
    repo.write("build/output.log", "build\n");
    let mut state = ProcessState::new(repo.text());
    let baseline = subscribe_for_deltas(&mut state);

    let before = start_scan(&state);
    repo.remove(".gitignore");
    let (plan, delta) = update_from_changes(&mut state, &before);

    assert_incremental_refresh_plan(&plan);
    branch_change_asserts(&delta, &baseline);
    assert_eq!(delta.delta.paths.unstaged.added, vec![".gitignore"]);
    assert_eq!(delta.delta.paths.untracked.added, vec!["build/output.log"]);
    let paths = delta.patch.paths.as_ref().unwrap();
    assert_eq!(paths.unstaged, vec![".gitignore"]);
    assert_eq!(paths.untracked, vec!["build/output.log"]);
    assert_patch_matches_fresh(&repo, baseline, delta.patch);
}

#[test]
fn command_shape_add_nested_gitignore_pattern_emits_patchable_delta() {
    let repo = committed_repo("tracked.txt", "base\n");
    repo.write("module/output.log", "artifact\n");
    let mut state = ProcessState::new(repo.text());
    let baseline = subscribe_for_deltas(&mut state);

    let before = start_scan(&state);
    repo.write("module/.gitignore", "*.log\n");
    let (plan, delta) = update_from_changes(&mut state, &before);

    assert_incremental_refresh_plan(&plan);
    branch_change_asserts(&delta, &baseline);
    assert_eq!(delta.delta.paths.untracked.added, vec!["module/.gitignore"]);
    assert_eq!(delta.delta.paths.untracked.removed, vec!["module/output.log"]);
    let paths = delta.patch.paths.as_ref().unwrap();
    assert_eq!(paths.untracked, vec!["module/.gitignore"]);
    assert_patch_matches_fresh(&repo, baseline, delta.patch);
}

#[test]
fn command_shape_modify_git_info_exclude_emits_patchable_delta() {
    let repo = committed_repo("tracked.txt", "base\n");
    repo.write("build/output.log", "artifact\n");
    let mut state = ProcessState::new(repo.text());
    let baseline = subscribe_for_deltas(&mut state);

    let before = start_scan(&state);
    write_file(&repo.git_dir().join("info/exclude"), "build/\n");
    let (plan, delta) = update_from_changes(&mut state, &before);

    assert_incremental_refresh_plan(&plan);
    branch_change_asserts(&delta, &baseline);
    assert_eq!(delta.delta.paths.untracked.removed, vec!["build/output.log"]);
    let paths = delta.patch.paths.as_ref().unwrap();
    assert!(paths.untracked.is_empty());
    assert_patch_matches_fresh(&repo, baseline, delta.patch);
}

#[test]
fn command_shape_modify_core_excludesfile_emits_patchable_delta() {
    let excludes_dir = TempDir::new().unwrap();
    let excludes_path = excludes_dir.path().join("global-ignore");
    write_file(&excludes_path, "");
    let repo = committed_repo("tracked.txt", "base\n");
    repo.set_config("core.excludesfile", excludes_path.to_str().unwrap());
    repo.write("build/output.log", "artifact\n");
    let mut state = ProcessState::new(repo.text());
    let baseline = subscribe_for_deltas(&mut state);

    let mut roots = watch_roots(&state);
    roots.push(excludes_dir.path().to_path_buf());
    let before = scan(&roots);
    write_file(&excludes_path, "build/\n");
    let (plan, delta) = update_from_changes(&mut state, &before);

    assert_incremental_refresh_plan(&plan);
    branch_change_asserts(&delta, &baseline);
    assert_eq!(delta.delta.paths.untracked.removed, vec!["build/output.log"]);
    let paths = delta.patch.paths.as_ref().unwrap();
    assert!(paths.untracked.is_empty());
    assert_patch_matches_fresh(&repo, baseline, delta.patch);
}

#[test]
fn command_shape_create_ignored_build_file_emits_no_delta() {
    let repo = ignoring_repo();
    let mut state = ProcessState::new(repo.text());
    let baseline = subscribe_for_deltas(&mut state);

    let before = start_scan(&state);
    repo.write("build/output.log", "artifact\n");
    let plan = update_with_no_delta(&mut state, &before);

    assert_eq!(plan, RefreshPlan::Nothing);
    let fresh = snapshot_repository(&repo.text()).unwrap();
    assert_eq!(fresh, baseline.snapshot);
}

#[test]
fn command_shape_modify_ignored_build_file_emits_no_delta() {
    let repo = ignoring_repo();
    repo.write("build/output.log", "artifact\n");
    let mut state = ProcessState::new(repo.text());
    let baseline = subscribe_for_deltas(&mut state);

    let before = start_scan(&state);
    repo.write("build/output.log", "changed\n");
    let plan = update_with_no_delta(&mut state, &before);

    assert_eq!(plan, RefreshPlan::Nothing);
    let fresh = snapshot_repository(&repo.text()).unwrap();
    assert_eq!(fresh, baseline.snapshot);
}

#[test]
fn command_shape_delete_ignored_build_file_emits_no_delta() {
    let repo = ignoring_repo();
    repo.write("build/output.log", "artifact\n");
    let mut state = ProcessState::new(repo.text());
    let baseline = subscribe_for_deltas(&mut state);

    let before = start_scan(&state);
    repo.remove("build/output.log");
    let plan = update_with_no_delta(&mut state, &before);

    assert_eq!(plan, RefreshPlan::Nothing);
    let fresh = snapshot_repository(&repo.text()).unwrap();
    assert_eq!(fresh, baseline.snapshot);
}

#[test]
fn command_shape_git_add_force_ignored_path_emits_patchable_delta() {
    let repo = ignoring_repo();
    repo.write("build/output.log", "artifact\n");
    let mut state = ProcessState::new(repo.text());
    let baseline = subscribe_for_deltas(&mut state);

    let before = start_scan(&state);
    repo.add(&["build/output.log"]);
    let (plan, delta) = update_from_changes(&mut state, &before);

    assert_incremental_refresh_plan(&plan);
    branch_change_asserts(&delta, &baseline);
    assert_eq!(delta.delta.paths.staged.added, vec!["build/output.log"]);
    let paths = delta.patch.paths.as_ref().unwrap();
    assert_eq!(paths.staged, vec!["build/output.log"]);
    let entry = paths.entries.iter().find(|entry| entry.path == "build/output.log").unwrap();
    assert!(entry.status.index_new);
    assert_patch_matches_fresh(&repo, baseline, delta.patch);
}

#[test]
fn command_shape_unignore_path_emits_patchable_delta() {
    let repo = ignoring_repo();
    repo.write("build/output.log", "artifact\n");
    let mut state = ProcessState::new(repo.text());
    let baseline = subscribe_for_deltas(&mut state);

    let before = start_scan(&state);
    repo.write(".gitignore", "");
    let (plan, delta) = update_from_changes(&mut state, &before);

    assert_incremental_refresh_plan(&plan);
    branch_change_asserts(&delta, &baseline);
    assert_eq!(delta.delta.paths.unstaged.added, vec![".gitignore"]);
    assert_eq!(delta.delta.paths.untracked.added, vec!["build/output.log"]);
    let paths = delta.patch.paths.as_ref().unwrap();
    assert_eq!(paths.unstaged, vec![".gitignore"]);
    assert_eq!(paths.untracked, vec!["build/output.log"]);
    assert_patch_matches_fresh(&repo, baseline, delta.patch);
}

#[test]
fn command_shape_git_stash_push_message_emits_patchable_delta() {
    let repo = committed_repo("tracked.txt", "base\n");
    repo.write("tracked.txt", "work\n");
    let mut state = ProcessState::new(repo.text());
    let baseline = subscribe_for_deltas(&mut state);
    assert_eq!(baseline.snapshot.paths.unstaged, vec!["tracked.txt"]);

    let before = start_scan(&state);
    repo.stash("save work", false);
    let (plan, delta) = update_from_changes(&mut state, &before);

    assert_incremental_refresh_plan(&plan);
    branch_change_asserts(&delta, &baseline);
    assert!(delta.delta.paths.has_changes());
    assert!(delta.delta.stashes_changed);
    assert!(delta.patch.paths.as_ref().unwrap().unstaged.is_empty());
    let stashes = delta.patch.stashes.as_ref().unwrap();
    assert_eq!(stashes.len(), 1);
    assert!(stashes[0].message.contains("save work"));
    assert_patch_matches_fresh(&repo, baseline, delta.patch);
}

#[test]
fn command_shape_git_stash_push_include_untracked_emits_patchable_delta() {
    let repo = committed_repo("tracked.txt", "base\n");
    repo.write("untracked.txt", "new\n");
    let mut state = ProcessState::new(repo.text());
    let baseline = subscribe_for_deltas(&mut state);
    assert_eq!(baseline.snapshot.paths.untracked, vec!["untracked.txt"]);

    let before = start_scan(&state);
    repo.stash("save all", true);
    let (plan, delta) = update_from_changes(&mut state, &before);

    assert_incremental_refresh_plan(&plan);
    branch_change_asserts(&delta, &baseline);
    assert!(delta.delta.paths.has_changes());
    assert!(delta.delta.stashes_changed);
    assert!(delta.patch.paths.as_ref().unwrap().untracked.is_empty());
    let stashes = delta.patch.stashes.as_ref().unwrap();
    assert_eq!(stashes.len(), 1);
    assert!(stashes[0].message.contains("save all"));
    assert_patch_matches_fresh(&repo, baseline, delta.patch);
}

fn stashed_repo() -> TestRepo {
    let repo = committed_repo("tracked.txt", "base\n");
    repo.write("tracked.txt", "work\n");
    repo.stash("save work", false);
    repo
}

#[test]
fn command_shape_git_stash_pop_emits_patchable_delta() {
    let repo = stashed_repo();
    let mut state = ProcessState::new(repo.text());
    let baseline = subscribe_for_deltas(&mut state);
    assert_eq!(baseline.snapshot.stashes.len(), 1);
    assert!(baseline.snapshot.paths.unstaged.is_empty());

    let before = start_scan(&state);
    repo.stash_pop();
    let (plan, delta) = update_from_changes(&mut state, &before);

    assert_incremental_refresh_plan(&plan);
    branch_change_asserts(&delta, &baseline);
    assert!(delta.delta.paths.has_changes());
    assert!(delta.delta.stashes_changed);
    assert_eq!(delta.patch.paths.as_ref().unwrap().unstaged, vec!["tracked.txt"]);
    assert!(delta.patch.stashes.as_ref().unwrap().is_empty());
    assert_patch_matches_fresh(&repo, baseline, delta.patch);
}

#[test]
fn command_shape_git_stash_apply_emits_patchable_delta() {
    let repo = stashed_repo();
    let mut state = ProcessState::new(repo.text());
    let baseline = subscribe_for_deltas(&mut state);
    assert_eq!(baseline.snapshot.stashes.len(), 1);
    assert!(baseline.snapshot.paths.unstaged.is_empty());

    let before = start_scan(&state);
    repo.stash_apply();
    let (plan, delta) = update_from_changes(&mut state, &before);

    assert_incremental_refresh_plan(&plan);
    branch_change_asserts(&delta, &baseline);
    assert!(delta.delta.paths.has_changes());
    assert!(!delta.delta.stashes_changed);
    assert_eq!(delta.patch.paths.as_ref().unwrap().unstaged, vec!["tracked.txt"]);
    assert!(delta.patch.stashes.is_none());
    assert_patch_matches_fresh(&repo, baseline, delta.patch);
}

#[test]
fn command_shape_git_stash_drop_emits_patchable_delta() {
    let repo = stashed_repo();
    let mut state = ProcessState::new(repo.text());
    let baseline = subscribe_for_deltas(&mut state);
    assert_eq!(baseline.snapshot.stashes.len(), 1);
    assert!(baseline.snapshot.paths.unstaged.is_empty());

    let before = start_scan(&state);
    repo.stash_drop();
    let (plan, delta) = update_from_changes(&mut state, &before);

    assert_incremental_refresh_plan(&plan);
    branch_change_asserts(&delta, &baseline);
    assert!(!delta.delta.paths.has_changes());
    assert!(delta.delta.stashes_changed);
    assert!(delta.patch.paths.is_none());
    assert!(delta.patch.stashes.as_ref().unwrap().is_empty());
    assert_patch_matches_fresh(&repo, baseline, delta.patch);
}

#[test]
fn command_shape_git_stash_clear_emits_patchable_delta() {
    let repo = committed_repo("tracked.txt", "base\n");
    repo.write("tracked.txt", "first\n");
    repo.stash("first", false);
    repo.write("tracked.txt", "second\n");
    repo.stash("second", false);
    let mut state = ProcessState::new(repo.text());
    let baseline = subscribe_for_deltas(&mut state);
    assert_eq!(baseline.snapshot.stashes.len(), 2);
    assert!(baseline.snapshot.paths.unstaged.is_empty());

    let before = start_scan(&state);
    while repo.stash_count() > 0 {
        repo.stash_drop();
    }
    let (plan, delta) = update_from_changes(&mut state, &before);

    assert_incremental_refresh_plan(&plan);
    branch_change_asserts(&delta, &baseline);
    assert!(!delta.delta.paths.has_changes());
    assert!(delta.delta.stashes_changed);
    assert!(delta.patch.paths.is_none());
    assert!(delta.patch.stashes.as_ref().unwrap().is_empty());
    assert_patch_matches_fresh(&repo, baseline, delta.patch);
}

#[test]
fn command_shape_git_stash_branch_emits_patchable_delta() {
    let repo = stashed_repo();
    let mut state = ProcessState::new(repo.text());
    let baseline = subscribe_for_deltas(&mut state);
    assert_eq!(baseline.snapshot.head.branch.as_deref(), Some("main"));
    assert_eq!(baseline.snapshot.stashes.len(), 1);
    assert!(baseline.snapshot.paths.unstaged.is_empty());

    let before = start_scan(&state);
    repo.stash_branch("work");
    let (plan, delta) = update_from_changes(&mut state, &before);

    assert_incremental_refresh_plan(&plan);
    branch_change_asserts(&delta, &baseline);
    assert!(delta.delta.head_changed);
    assert!(delta.delta.paths.has_changes());
    assert!(delta.delta.branches_changed);
    assert!(delta.delta.stashes_changed);
    assert_eq!(delta.patch.head.as_ref().unwrap().branch.as_deref(), Some("work"));
    let head = delta.patch.branches.as_ref().unwrap().iter().find(|branch| branch.is_head).unwrap();
    assert_eq!(head.name, "work");
    assert_eq!(delta.patch.paths.as_ref().unwrap().unstaged, vec!["tracked.txt"]);
    assert!(delta.patch.stashes.as_ref().unwrap().is_empty());
    assert_patch_matches_fresh(&repo, baseline, delta.patch);
}

#[test]
fn command_shape_git_tag_lightweight_emits_patchable_delta() {
    let repo = committed_repo("tracked.txt", "base\n");
    let mut state = ProcessState::new(repo.text());
    let baseline = subscribe_for_deltas(&mut state);

    let before = start_scan(&state);
    repo.tag_lightweight("v1.0.0");
    let (plan, delta) = update_from_changes(&mut state, &before);

    assert_incremental_refresh_plan(&plan);
    branch_change_asserts(&delta, &baseline);
    assert!(delta.delta.tags_changed);
    let tags = delta.patch.tags.as_ref().unwrap();
    let tag = tags.iter().find(|tag| tag.name == "v1.0.0").unwrap();
    assert_eq!(tag.kind, TagKind::Lightweight);
    assert_patch_matches_fresh(&repo, baseline, delta.patch);
}

#[test]
fn command_shape_git_tag_annotated_emits_patchable_delta() {
    let repo = committed_repo("tracked.txt", "base\n");
    let mut state = ProcessState::new(repo.text());
    let baseline = subscribe_for_deltas(&mut state);

    let before = start_scan(&state);
    repo.tag_annotated("v1.0.0", "release\n");
    let (plan, delta) = update_from_changes(&mut state, &before);

    assert_incremental_refresh_plan(&plan);
    branch_change_asserts(&delta, &baseline);
    assert!(delta.delta.tags_changed);
    let tags = delta.patch.tags.as_ref().unwrap();
    let tag = tags.iter().find(|tag| tag.name == "v1.0.0").unwrap();
    assert_eq!(tag.kind, TagKind::Annotated);
    assert_eq!(tag.message.as_deref(), Some("release\n"));
    assert_eq!(tag.tagger_name.as_deref(), Some("Tester"));
    assert_eq!(tag.tagger_email.as_deref(), Some("tester@example.com"));
    assert_patch_matches_fresh(&repo, baseline, delta.patch);
}

#[test]
fn command_shape_git_tag_delete_emits_patchable_delta() {
    let repo = committed_repo("tracked.txt", "base\n");
    repo.tag_lightweight("v1.0.0");
    let mut state = ProcessState::new(repo.text());
    let baseline = subscribe_for_deltas(&mut state);
    assert!(baseline.snapshot.tags.iter().any(|tag| tag.name == "v1.0.0"));

    let before = start_scan(&state);
    repo.tag_delete("v1.0.0");
    let (plan, delta) = update_from_changes(&mut state, &before);

    assert_incremental_refresh_plan(&plan);
    branch_change_asserts(&delta, &baseline);
    assert!(delta.delta.tags_changed);
    assert!(delta.patch.tags.as_ref().unwrap().is_empty());
    assert_patch_matches_fresh(&repo, baseline, delta.patch);
}

#[test]
fn command_shape_create_local_bare_remote_repository_emits_no_delta() {
    let repo = committed_repo("tracked.txt", "base\n");
    let mut state = ProcessState::new(repo.text());
    let baseline = subscribe_for_deltas(&mut state);
    let remotes_dir = TempDir::new().unwrap();
    let remote_path = remotes_dir.path().join("origin.git");

    init_bare_repo(&remote_path);

    let fresh = snapshot_repository(&repo.text()).unwrap();
    assert_eq!(fresh, baseline.snapshot);
}

#[test]
fn command_shape_git_remote_add_emits_patchable_delta() {
    let remotes_dir = TempDir::new().unwrap();
    let remote_path = remotes_dir.path().join("origin.git");
    init_bare_repo(&remote_path);
    let repo = committed_repo("tracked.txt", "base\n");
    let mut state = ProcessState::new(repo.text());
    let baseline = subscribe_for_deltas(&mut state);

    let before = start_scan(&state);
    repo.remote_add("origin", remote_path.to_str().unwrap());
    let (plan, delta) = update_from_changes(&mut state, &before);

    assert_incremental_refresh_plan(&plan);
    branch_change_asserts(&delta, &baseline);
    assert!(delta.delta.remotes_changed);
    let remotes = delta.patch.remotes.as_ref().unwrap();
    assert_eq!(remotes.len(), 1);
    assert_eq!(remotes[0].name, "origin");
    assert_eq!(remotes[0].url.as_deref(), remote_path.to_str());
    assert_patch_matches_fresh(&repo, baseline, delta.patch);
}

#[test]
fn command_shape_git_remote_rename_emits_patchable_delta() {
    let remotes_dir = TempDir::new().unwrap();
    let remote_path = remotes_dir.path().join("origin.git");
    init_bare_repo(&remote_path);
    let repo = committed_repo("tracked.txt", "base\n");
    repo.remote_add("origin", remote_path.to_str().unwrap());
    let mut state = ProcessState::new(repo.text());
    let baseline = subscribe_for_deltas(&mut state);

    let before = start_scan(&state);
    repo.repo().remote_rename("origin", "upstream").unwrap();
    let (plan, delta) = update_from_changes(&mut state, &before);

    assert_incremental_refresh_plan(&plan);
    branch_change_asserts(&delta, &baseline);
    assert!(delta.delta.remotes_changed);
    let remotes = delta.patch.remotes.as_ref().unwrap();
    assert_eq!(remotes.len(), 1);
    assert_eq!(remotes[0].name, "upstream");
    assert!(!remotes.iter().any(|remote| remote.name == "origin"));
    assert_patch_matches_fresh(&repo, baseline, delta.patch);
}

#[test]
fn command_shape_git_remote_remove_emits_patchable_delta() {
    let remotes_dir = TempDir::new().unwrap();
    let remote_path = remotes_dir.path().join("origin.git");
    init_bare_repo(&remote_path);
    let repo = committed_repo("tracked.txt", "base\n");
    repo.remote_add("origin", remote_path.to_str().unwrap());
    let mut state = ProcessState::new(repo.text());
    let baseline = subscribe_for_deltas(&mut state);

    let before = start_scan(&state);
    repo.repo().remote_delete("origin").unwrap();
    let (plan, delta) = update_from_changes(&mut state, &before);

    assert_incremental_refresh_plan(&plan);
    branch_change_asserts(&delta, &baseline);
    assert!(delta.delta.remotes_changed);
    assert!(delta.patch.remotes.as_ref().unwrap().is_empty());
    assert_patch_matches_fresh(&repo, baseline, delta.patch);
}

fn two_remote_repo() -> (TempDir, PathBuf, PathBuf, TestRepo) {
    let remote_parent = TempDir::new().unwrap();
    let old_remote_path = remote_parent.path().join("old.git");
    let new_remote_path = remote_parent.path().join("new.git");
    init_bare_repo(&old_remote_path);
    init_bare_repo(&new_remote_path);
    let repo = committed_repo("tracked.txt", "base\n");
    repo.remote_add("origin", old_remote_path.to_str().unwrap());
    (remote_parent, old_remote_path, new_remote_path, repo)
}

#[test]
fn command_shape_git_remote_set_url_emits_patchable_delta() {
    let (_parent, _old, new_remote_path, repo) = two_remote_repo();
    let mut state = ProcessState::new(repo.text());
    let baseline = subscribe_for_deltas(&mut state);

    let before = start_scan(&state);
    repo.repo().remote_set_url("origin", new_remote_path.to_str().unwrap()).unwrap();
    let (plan, delta) = update_from_changes(&mut state, &before);

    assert_incremental_refresh_plan(&plan);
    branch_change_asserts(&delta, &baseline);
    assert!(delta.delta.remotes_changed);
    assert!(!delta.delta.paths.has_changes());
    let remotes = delta.patch.remotes.as_ref().unwrap();
    assert_eq!(remotes[0].name, "origin");
    assert_eq!(remotes[0].url.as_deref(), Some(new_remote_path.to_str().unwrap()));
    assert_patch_matches_fresh(&repo, baseline, delta.patch);
}

#[test]
fn command_shape_direct_remote_config_edit_emits_patchable_delta() {
    let (_parent, _old, new_remote_path, repo) = two_remote_repo();
    let mut state = ProcessState::new(repo.text());
    let baseline = subscribe_for_deltas(&mut state);

    let before = start_scan(&state);
    repo.set_config("remote.origin.url", new_remote_path.to_str().unwrap());
    let (plan, delta) = update_from_changes(&mut state, &before);

    assert_incremental_refresh_plan(&plan);
    branch_change_asserts(&delta, &baseline);
    assert!(delta.delta.remotes_changed);
    assert!(!delta.delta.paths.has_changes());
    assert_eq!(delta.patch.remotes.as_ref().unwrap()[0].url.as_deref(), Some(new_remote_path.to_str().unwrap()));
    assert_patch_matches_fresh(&repo, baseline, delta.patch);
}

/// Commands that run merges, cherry-picks, rebases and bisections through
/// libgit2, leaving the files the git command line leaves.
impl TestRepo {
    fn signature() -> Signature<'static> {
        Signature::now("Tester", "tester@example.com").unwrap()
    }

    fn branch_oid(&self, name: &str) -> Oid {
        self.repo().find_branch(name, git2::BranchType::Local).unwrap().get().target().unwrap()
    }

    /// `conflict.txt` changed one way on `side` and another on `main`; `main` is checked out.
    fn diverged_conflict(&self) -> Oid {
        self.write("conflict.txt", "base\n");
        self.add(&["conflict.txt"]);
        self.commit("initial");
        self.switch_create("side");
        self.write("conflict.txt", "side\n");
        let side = self.commit_tracked("side");
        self.switch("main");
        self.write("conflict.txt", "main\n");
        self.commit_tracked("main");
        side
    }

    fn has_conflicts(&self) -> bool {
        self.repo().index().unwrap().has_conflicts()
    }

    fn hard_reset_to_head(&self) {
        self.reset(self.head_commit(), git2::ResetType::Hard);
    }

    fn cleanup_state(&self) {
        self.repo().cleanup_state().unwrap();
    }

    /// `git merge <branch>`: a fast-forward when possible, else a merge that
    /// commits when clean and stops with the conflicts otherwise.
    fn merge(&self, branch: &str) {
        let repo = self.repo();
        let target = self.branch_oid(branch);
        let annotated = repo.find_annotated_commit(target).unwrap();
        let (analysis, _) = repo.merge_analysis(&[&annotated]).unwrap();
        if analysis.is_fast_forward() {
            let head = repo.head().unwrap();
            let name = head.name().unwrap().to_string();
            repo.reference(&name, target, true, "merge: fast-forward").unwrap();
            let mut checkout = git2::build::CheckoutBuilder::new();
            checkout.force();
            repo.checkout_head(Some(&mut checkout)).unwrap();
            return;
        }
        repo.merge(&[&annotated], None, None).unwrap();
        if !self.has_conflicts() {
            self.merge_continue();
        }
    }

    fn merge_head(&self) -> Oid {
        let mut heads = Vec::new();
        self.repo().mergehead_foreach(|oid| {
            heads.push(*oid);
            true
        }).unwrap();
        heads[0]
    }

    /// `git merge --abort`.
    fn merge_abort(&self) {
        self.hard_reset_to_head();
        self.cleanup_state();
    }

    /// `git merge --continue`: commits the merge with both parents.
    fn merge_continue(&self) -> Oid {
        let other = self.merge_head();
        let oid = {
            let repo = self.repo();
            let mut index = repo.index().unwrap();
            let tree = repo.find_tree(index.write_tree().unwrap()).unwrap();
            let head = repo.head().unwrap().peel_to_commit().unwrap();
            let other = repo.find_commit(other).unwrap();
            let message = repo.message().unwrap_or_else(|_| "merge".to_string());
            let sig = Self::signature();
            repo.commit(Some("HEAD"), &sig, &sig, &message, &tree, &[&head, &other]).unwrap()
        };
        self.cleanup_state();
        oid
    }

    /// `git cherry-pick <oid>`: commits when clean, stops with the conflicts otherwise.
    fn cherry_pick(&self, oid: Oid) {
        {
            let repo = self.repo();
            let commit = repo.find_commit(oid).unwrap();
            repo.cherrypick(&commit, None).unwrap();
        }
        if !self.has_conflicts() {
            self.cherry_pick_continue();
        }
    }

    /// `git cherry-pick --abort` and `git cherry-pick --skip` of the only commit.
    fn cherry_pick_abort(&self) {
        self.hard_reset_to_head();
        self.cleanup_state();
    }

    /// `git cherry-pick --continue`: commits with the picked commit's message.
    fn cherry_pick_continue(&self) -> Oid {
        let oid = {
            let repo = self.repo();
            let mut index = repo.index().unwrap();
            let tree = repo.find_tree(index.write_tree().unwrap()).unwrap();
            let head = repo.head().unwrap().peel_to_commit().unwrap();
            let message = repo.message().unwrap_or_else(|_| "picked".to_string());
            let sig = Self::signature();
            repo.commit(Some("HEAD"), &sig, &sig, &message, &tree, &[&head]).unwrap()
        };
        self.cleanup_state();
        oid
    }

    fn rebase_head_path(&self) -> PathBuf {
        self.git_dir().join("REBASE_HEAD")
    }

    /// Replays the operations left in the rebase; stops at a conflict,
    /// recording the commit being replayed in `REBASE_HEAD` as git does.
    fn rebase_run(&self, rebase: &mut git2::Rebase<'_>) -> bool {
        let sig = Self::signature();
        while let Some(operation) = rebase.next() {
            let operation = operation.unwrap();
            if self.has_conflicts() {
                write_file(&self.rebase_head_path(), &format!("{}\n", operation.id()));
                return false;
            }
            rebase.commit(None, &sig, None).unwrap();
        }
        rebase.finish(None).unwrap();
        true
    }

    /// `git rebase <upstream>` of the checked-out branch.
    fn rebase_onto(&self, upstream: &str) {
        let repo = self.repo();
        let branch = repo.find_branch(upstream, git2::BranchType::Local).unwrap();
        let upstream = repo.reference_to_annotated_commit(branch.get()).unwrap();
        let mut rebase = repo.rebase(None, Some(&upstream), None, None).unwrap();
        self.rebase_run(&mut rebase);
    }

    fn forget_rebase_head(&self) {
        if self.rebase_head_path().exists() {
            remove_file(&self.rebase_head_path());
        }
    }

    /// `git rebase --abort`.
    fn rebase_abort(&self) {
        {
            let repo = self.repo();
            let mut rebase = repo.open_rebase(None).unwrap();
            rebase.abort().unwrap();
        }
        self.forget_rebase_head();
    }

    /// `git rebase --continue` after the conflict was resolved and staged.
    fn rebase_continue(&self) {
        {
            let repo = self.repo();
            let mut rebase = repo.open_rebase(None).unwrap();
            rebase.commit(None, &Self::signature(), None).unwrap();
            self.forget_rebase_head();
            self.rebase_run(&mut rebase);
        }
        self.forget_rebase_head();
    }

    /// `git rebase --skip`: drops the commit being replayed.
    fn rebase_skip(&self) {
        {
            let repo = self.repo();
            let mut rebase = repo.open_rebase(None).unwrap();
            let tree = repo.head().unwrap().peel_to_tree().unwrap();
            let mut index = repo.index().unwrap();
            index.read_tree(&tree).unwrap();
            index.write().unwrap();
            let mut checkout = git2::build::CheckoutBuilder::new();
            checkout.force();
            repo.checkout_head(Some(&mut checkout)).unwrap();
            self.forget_rebase_head();
            self.rebase_run(&mut rebase);
        }
        self.forget_rebase_head();
    }

    fn append_bisect_log(&self, line: &str) {
        let mut log = self.bisect_log.borrow_mut();
        log.push_str(line);
        log.push('\n');
        write_file(&self.git_dir().join("BISECT_LOG"), &log);
    }

    /// `git bisect start` on `main`.
    fn bisect_start(&self) {
        write_file(&self.git_dir().join("BISECT_START"), "main\n");
        write_file(&self.git_dir().join("BISECT_NAMES"), "\n");
        self.append_bisect_log("git bisect start");
    }

    /// Marks a commit as `bad`, `good` or `skip`, as `git bisect <term> <oid>` does.
    fn bisect_mark(&self, term: &str, oid: Oid) {
        let name = if term == "bad" { "refs/bisect/bad".to_string() } else { format!("refs/bisect/{term}-{oid}") };
        self.repo().reference(&name, oid, true, "bisect").unwrap();
        self.append_bisect_log(&format!("# {term}: [{oid}]"));
        self.append_bisect_log(&format!("git bisect {term} {oid}"));
    }

    /// Checks out the commit bisection tests next.
    fn bisect_checkout(&self, oid: Oid) {
        write_file(&self.git_dir().join("BISECT_EXPECTED_REV"), &format!("{oid}\n"));
        self.checkout_detached(oid);
    }

    /// `git bisect reset`: back to `main`, every bisection file gone.
    fn bisect_reset(&self) {
        let refs: Vec<String> = {
            let repo = self.repo();
            let mut names = repo.references_glob("refs/bisect/*").unwrap();
            names.names().map(|name| name.unwrap().to_string()).collect()
        };
        for name in refs {
            self.repo().find_reference(&name).unwrap().delete().unwrap();
        }
        self.switch("main");
        self.bisect_log.borrow_mut().clear();
        for file in ["BISECT_LOG", "BISECT_START", "BISECT_NAMES", "BISECT_EXPECTED_REV", "BISECT_ANCESTORS_OK"] {
            let path = self.git_dir().join(file);
            if path.exists() {
                remove_file(&path);
            }
        }
    }
}

fn head_branch_summary(delta: &DeltaNotificationParams) -> gitseer::model::BranchSummary {
    delta.patch.branches.as_ref().unwrap().iter().find(|branch| branch.is_head).unwrap().clone()
}

fn patch_head_oid(delta: &DeltaNotificationParams) -> Option<String> {
    delta.patch.head.as_ref().unwrap().oid.clone()
}

fn assert_next_version(delta: &DeltaNotificationParams, baseline: &SnapshotNotificationParams) {
    assert_eq!(delta.previous_version, baseline.version);
    assert_eq!(delta.version, baseline.version + 1);
}

fn is_cherry_pick(kind: OperationKind) -> bool {
    matches!(kind, OperationKind::CherryPick | OperationKind::CherryPickSequence)
}

fn is_rebase(kind: OperationKind) -> bool {
    matches!(kind, OperationKind::Rebase | OperationKind::RebaseInteractive | OperationKind::RebaseMerge)
}

#[test]
fn command_shape_clean_git_merge_branch_emits_patchable_delta() {
    let repo = committed_repo("tracked.txt", "base\n");
    repo.switch_create("side");
    repo.write("tracked.txt", "side\n");
    let side_oid = repo.commit_tracked("side").to_string();
    repo.switch("main");
    let mut state = ProcessState::new(repo.text());
    let baseline = subscribe_for_deltas(&mut state);
    assert_ne!(baseline.snapshot.head.oid.as_deref(), Some(side_oid.as_str()));

    let before = start_scan(&state);
    repo.merge("side");
    let (plan, delta) = update_from_changes(&mut state, &before);

    assert_incremental_refresh_plan(&plan);
    assert_next_version(&delta, &baseline);
    assert!(delta.delta.head_changed);
    assert!(delta.delta.branches_changed);
    assert!(!delta.delta.paths.has_changes());
    assert_eq!(patch_head_oid(&delta).as_deref(), Some(side_oid.as_str()));
    let head = head_branch_summary(&delta);
    assert_eq!(head.name, "main");
    assert_eq!(head.oid.as_deref(), Some(side_oid.as_str()));
    assert_patch_matches_fresh(&repo, baseline, delta.patch);
}

#[test]
fn command_shape_conflicted_git_merge_branch_emits_patchable_delta() {
    let repo = TestRepo::new();
    let side_oid = repo.diverged_conflict().to_string();
    let mut state = ProcessState::new(repo.text());
    let baseline = subscribe_for_deltas(&mut state);

    let before = start_scan(&state);
    repo.merge("side");
    let (plan, delta) = update_from_changes(&mut state, &before);

    assert_incremental_refresh_plan(&plan);
    assert_next_version(&delta, &baseline);
    assert!(!delta.delta.head_changed);
    assert!(delta.delta.operation_changed);
    assert!(delta.delta.paths.has_changes());
    let operation = delta.patch.operation.as_ref().unwrap();
    assert_eq!(operation.kind, OperationKind::Merge);
    let merge_head = operation.heads.iter().find(|head| head.role == OperationHeadRole::Merge).unwrap();
    assert_eq!(merge_head.oid, side_oid);
    let paths = delta.patch.paths.as_ref().unwrap();
    assert_eq!(paths.conflicted, vec!["conflict.txt"]);
    assert_eq!(paths.conflicts.len(), 1);
    assert_patch_matches_fresh(&repo, baseline, delta.patch);
}

#[test]
fn command_shape_git_merge_abort_emits_patchable_delta() {
    let repo = TestRepo::new();
    repo.diverged_conflict();
    repo.merge("side");
    let mut state = ProcessState::new(repo.text());
    let baseline = subscribe_for_deltas(&mut state);
    assert_eq!(baseline.snapshot.operation.kind, OperationKind::Merge);
    assert_eq!(baseline.snapshot.paths.conflicted, vec!["conflict.txt"]);

    let before = start_scan(&state);
    repo.merge_abort();
    let (plan, delta) = update_from_changes(&mut state, &before);

    assert_incremental_refresh_plan(&plan);
    assert_next_version(&delta, &baseline);
    assert!(!delta.delta.head_changed);
    assert!(delta.delta.operation_changed);
    assert!(delta.delta.paths.has_changes());
    assert_eq!(delta.patch.operation.as_ref().unwrap().kind, OperationKind::Clean);
    let paths = delta.patch.paths.as_ref().unwrap();
    assert!(paths.conflicted.is_empty());
    assert!(paths.conflicts.is_empty());
    assert!(paths.unstaged.is_empty());
    assert_patch_matches_fresh(&repo, baseline, delta.patch);
}

#[test]
fn command_shape_git_merge_continue_emits_patchable_delta() {
    let repo = TestRepo::new();
    repo.diverged_conflict();
    let main_before_continue = repo.head_commit().to_string();
    repo.merge("side");
    let mut state = ProcessState::new(repo.text());
    let baseline = subscribe_for_deltas(&mut state);
    assert_eq!(baseline.snapshot.operation.kind, OperationKind::Merge);
    assert_eq!(baseline.snapshot.paths.conflicted, vec!["conflict.txt"]);

    let before = start_scan(&state);
    repo.write("conflict.txt", "resolved\n");
    repo.add(&["conflict.txt"]);
    let merge_oid = repo.merge_continue().to_string();
    let (plan, delta) = update_from_changes(&mut state, &before);

    assert_incremental_refresh_plan(&plan);
    assert_next_version(&delta, &baseline);
    assert!(delta.delta.head_changed);
    assert!(delta.delta.operation_changed);
    assert!(delta.delta.branches_changed);
    assert!(delta.delta.paths.has_changes());
    assert_ne!(merge_oid, main_before_continue);
    assert_eq!(delta.patch.operation.as_ref().unwrap().kind, OperationKind::Clean);
    assert_eq!(patch_head_oid(&delta).as_deref(), Some(merge_oid.as_str()));
    assert_eq!(head_branch_summary(&delta).oid.as_deref(), Some(merge_oid.as_str()));
    let paths = delta.patch.paths.as_ref().unwrap();
    assert!(paths.conflicted.is_empty());
    assert!(paths.staged.is_empty());
    assert!(paths.unstaged.is_empty());
    assert_patch_matches_fresh(&repo, baseline, delta.patch);
}

#[test]
fn command_shape_clean_git_cherry_pick_commit_emits_patchable_delta() {
    let repo = committed_repo("base.txt", "base\n");
    repo.switch_create("side");
    repo.write("side.txt", "side\n");
    repo.add(&["side.txt"]);
    let picked_oid = repo.commit("side");
    repo.switch("main");
    repo.write("main.txt", "main\n");
    repo.add(&["main.txt"]);
    let main_before_pick = repo.commit("main").to_string();
    let mut state = ProcessState::new(repo.text());
    let baseline = subscribe_for_deltas(&mut state);

    let before = start_scan(&state);
    repo.cherry_pick(picked_oid);
    let picked_main_oid = repo.branch_oid("main").to_string();
    let (plan, delta) = update_from_changes(&mut state, &before);

    assert_incremental_refresh_plan(&plan);
    assert_next_version(&delta, &baseline);
    assert!(delta.delta.head_changed);
    assert!(delta.delta.branches_changed);
    assert!(!delta.delta.paths.has_changes());
    assert_ne!(picked_main_oid, main_before_pick);
    assert_ne!(picked_main_oid, picked_oid.to_string());
    assert_eq!(patch_head_oid(&delta).as_deref(), Some(picked_main_oid.as_str()));
    let head = head_branch_summary(&delta);
    assert_eq!(head.name, "main");
    assert_eq!(head.oid.as_deref(), Some(picked_main_oid.as_str()));
    assert_patch_matches_fresh(&repo, baseline, delta.patch);
}

#[test]
fn command_shape_conflicted_git_cherry_pick_commit_emits_patchable_delta() {
    let repo = TestRepo::new();
    let picked_oid = repo.diverged_conflict();
    let mut state = ProcessState::new(repo.text());
    let baseline = subscribe_for_deltas(&mut state);

    let before = start_scan(&state);
    repo.cherry_pick(picked_oid);
    let (plan, delta) = update_from_changes(&mut state, &before);

    assert_incremental_refresh_plan(&plan);
    assert_next_version(&delta, &baseline);
    assert!(!delta.delta.head_changed);
    assert!(delta.delta.operation_changed);
    assert!(delta.delta.paths.has_changes());
    let operation = delta.patch.operation.as_ref().unwrap();
    assert!(is_cherry_pick(operation.kind));
    let head = operation.heads.iter().find(|head| head.role == OperationHeadRole::CherryPick).unwrap();
    assert_eq!(head.oid, picked_oid.to_string());
    let paths = delta.patch.paths.as_ref().unwrap();
    assert_eq!(paths.conflicted, vec!["conflict.txt"]);
    assert_eq!(paths.conflicts.len(), 1);
    assert_patch_matches_fresh(&repo, baseline, delta.patch);
}

/// A cherry-pick of `side` onto `main` stopped at its conflict.
fn conflicted_cherry_pick() -> (TestRepo, Oid, String) {
    let repo = TestRepo::new();
    let picked_oid = repo.diverged_conflict();
    let main_before = repo.head_commit().to_string();
    repo.cherry_pick(picked_oid);
    (repo, picked_oid, main_before)
}

fn assert_cherry_pick_baseline(baseline: &SnapshotNotificationParams) {
    assert!(is_cherry_pick(baseline.snapshot.operation.kind));
    assert_eq!(baseline.snapshot.paths.conflicted, vec!["conflict.txt"]);
}

#[test]
fn command_shape_git_cherry_pick_abort_emits_patchable_delta() {
    let (repo, _, _) = conflicted_cherry_pick();
    let mut state = ProcessState::new(repo.text());
    let baseline = subscribe_for_deltas(&mut state);
    assert_cherry_pick_baseline(&baseline);

    let before = start_scan(&state);
    repo.cherry_pick_abort();
    let (plan, delta) = update_from_changes(&mut state, &before);

    assert_incremental_refresh_plan(&plan);
    assert_next_version(&delta, &baseline);
    assert!(!delta.delta.head_changed);
    assert!(delta.delta.operation_changed);
    assert!(delta.delta.paths.has_changes());
    assert_eq!(delta.patch.operation.as_ref().unwrap().kind, OperationKind::Clean);
    let paths = delta.patch.paths.as_ref().unwrap();
    assert!(paths.conflicted.is_empty());
    assert!(paths.conflicts.is_empty());
    assert!(paths.unstaged.is_empty());
    assert_patch_matches_fresh(&repo, baseline, delta.patch);
}

#[test]
fn command_shape_git_cherry_pick_continue_emits_patchable_delta() {
    let (repo, picked_oid, main_before_continue) = conflicted_cherry_pick();
    let mut state = ProcessState::new(repo.text());
    let baseline = subscribe_for_deltas(&mut state);
    assert_cherry_pick_baseline(&baseline);

    let before = start_scan(&state);
    repo.write("conflict.txt", "resolved\n");
    repo.add(&["conflict.txt"]);
    let continued_oid = repo.cherry_pick_continue().to_string();
    let (plan, delta) = update_from_changes(&mut state, &before);

    assert_incremental_refresh_plan(&plan);
    assert_next_version(&delta, &baseline);
    assert!(delta.delta.head_changed);
    assert!(delta.delta.operation_changed);
    assert!(delta.delta.branches_changed);
    assert!(delta.delta.paths.has_changes());
    assert_ne!(continued_oid, main_before_continue);
    assert_ne!(continued_oid, picked_oid.to_string());
    assert_eq!(delta.patch.operation.as_ref().unwrap().kind, OperationKind::Clean);
    assert_eq!(patch_head_oid(&delta).as_deref(), Some(continued_oid.as_str()));
    let head = head_branch_summary(&delta);
    assert_eq!(head.name, "main");
    assert_eq!(head.oid.as_deref(), Some(continued_oid.as_str()));
    let paths = delta.patch.paths.as_ref().unwrap();
    assert!(paths.conflicted.is_empty());
    assert!(paths.staged.is_empty());
    assert!(paths.unstaged.is_empty());
    assert_patch_matches_fresh(&repo, baseline, delta.patch);
}

#[test]
fn command_shape_git_cherry_pick_skip_emits_patchable_delta() {
    let (repo, _, main_before_skip) = conflicted_cherry_pick();
    let mut state = ProcessState::new(repo.text());
    let baseline = subscribe_for_deltas(&mut state);
    assert_cherry_pick_baseline(&baseline);

    let before = start_scan(&state);
    repo.cherry_pick_abort();
    let (plan, delta) = update_from_changes(&mut state, &before);

    assert_incremental_refresh_plan(&plan);
    assert_next_version(&delta, &baseline);
    assert!(!delta.delta.head_changed);
    assert!(delta.delta.operation_changed);
    assert!(delta.delta.paths.has_changes());
    assert!(delta.patch.head.is_none());
    let fresh_head = snapshot_repository(&repo.text()).unwrap().head.oid;
    assert_eq!(fresh_head.as_deref(), Some(main_before_skip.as_str()));
    assert_eq!(delta.patch.operation.as_ref().unwrap().kind, OperationKind::Clean);
    assert!(delta.patch.paths.as_ref().unwrap().conflicted.is_empty());
    assert_patch_matches_fresh(&repo, baseline, delta.patch);
}

#[test]
fn command_shape_clean_git_rebase_branch_emits_patchable_delta() {
    let repo = committed_repo("base.txt", "base\n");
    repo.switch_create("side");
    repo.write("side.txt", "side\n");
    repo.add(&["side.txt"]);
    let side_before_rebase = repo.commit("side").to_string();
    repo.switch("main");
    repo.write("main.txt", "main\n");
    repo.add(&["main.txt"]);
    repo.commit("main");
    repo.switch("side");
    let mut state = ProcessState::new(repo.text());
    let baseline = subscribe_for_deltas(&mut state);
    assert_eq!(baseline.snapshot.head.oid.as_deref(), Some(side_before_rebase.as_str()));

    let before = start_scan(&state);
    repo.rebase_onto("main");
    let rebased_oid = repo.branch_oid("side").to_string();
    let (plan, delta) = update_from_changes(&mut state, &before);

    assert_incremental_refresh_plan(&plan);
    assert_next_version(&delta, &baseline);
    assert!(delta.delta.head_changed);
    assert!(delta.delta.branches_changed);
    assert!(!delta.delta.paths.has_changes());
    assert_ne!(rebased_oid, side_before_rebase);
    assert_eq!(patch_head_oid(&delta).as_deref(), Some(rebased_oid.as_str()));
    let head = head_branch_summary(&delta);
    assert_eq!(head.name, "side");
    assert_eq!(head.oid.as_deref(), Some(rebased_oid.as_str()));
    assert_patch_matches_fresh(&repo, baseline, delta.patch);
}

/// `side` checked out, its commit conflicting with `main`'s.
fn rebase_ready() -> (TestRepo, String, String) {
    let repo = TestRepo::new();
    let side_oid = repo.diverged_conflict().to_string();
    let main_oid = repo.head_commit().to_string();
    repo.switch("side");
    (repo, side_oid, main_oid)
}

#[test]
fn command_shape_conflicted_git_rebase_branch_emits_patchable_delta() {
    let (repo, side_oid, _) = rebase_ready();
    let mut state = ProcessState::new(repo.text());
    let baseline = subscribe_for_deltas(&mut state);
    assert_eq!(baseline.snapshot.head.oid.as_deref(), Some(side_oid.as_str()));

    let before = start_scan(&state);
    repo.rebase_onto("main");
    let (plan, delta) = update_from_changes(&mut state, &before);

    assert_incremental_refresh_plan(&plan);
    assert_next_version(&delta, &baseline);
    assert!(delta.delta.head_changed);
    assert!(delta.delta.operation_changed);
    assert!(delta.delta.paths.has_changes());
    let operation = delta.patch.operation.as_ref().unwrap();
    assert!(is_rebase(operation.kind));
    let rebase_head = operation.heads.iter().find(|head| head.role == OperationHeadRole::Rebase).unwrap();
    assert_eq!(rebase_head.oid, side_oid);
    let paths = delta.patch.paths.as_ref().unwrap();
    assert_eq!(paths.conflicted, vec!["conflict.txt"]);
    assert_eq!(paths.conflicts.len(), 1);
    assert_patch_matches_fresh(&repo, baseline, delta.patch);
}

fn assert_rebase_baseline(baseline: &SnapshotNotificationParams) {
    assert!(is_rebase(baseline.snapshot.operation.kind));
    assert_eq!(baseline.snapshot.paths.conflicted, vec!["conflict.txt"]);
}

#[test]
fn command_shape_git_rebase_abort_emits_patchable_delta() {
    let (repo, side_oid, _) = rebase_ready();
    repo.rebase_onto("main");
    let mut state = ProcessState::new(repo.text());
    let baseline = subscribe_for_deltas(&mut state);
    assert_rebase_baseline(&baseline);

    let before = start_scan(&state);
    repo.rebase_abort();
    let (plan, delta) = update_from_changes(&mut state, &before);

    assert_incremental_refresh_plan(&plan);
    assert_next_version(&delta, &baseline);
    assert!(delta.delta.head_changed);
    assert!(delta.delta.operation_changed);
    assert!(delta.delta.branches_changed);
    assert!(delta.delta.paths.has_changes());
    assert_eq!(delta.patch.operation.as_ref().unwrap().kind, OperationKind::Clean);
    assert_eq!(patch_head_oid(&delta).as_deref(), Some(side_oid.as_str()));
    assert_eq!(delta.patch.head.as_ref().unwrap().branch.as_deref(), Some("side"));
    let paths = delta.patch.paths.as_ref().unwrap();
    assert!(paths.conflicted.is_empty());
    assert!(paths.conflicts.is_empty());
    assert_patch_matches_fresh(&repo, baseline, delta.patch);
}

#[test]
fn command_shape_git_rebase_continue_emits_patchable_delta() {
    let (repo, side_before_rebase, _) = rebase_ready();
    repo.rebase_onto("main");
    let mut state = ProcessState::new(repo.text());
    let baseline = subscribe_for_deltas(&mut state);
    assert_rebase_baseline(&baseline);

    let before = start_scan(&state);
    repo.write("conflict.txt", "resolved\n");
    repo.add(&["conflict.txt"]);
    repo.rebase_continue();
    let rebased_oid = repo.branch_oid("side").to_string();
    let (plan, delta) = update_from_changes(&mut state, &before);

    assert_incremental_refresh_plan(&plan);
    assert_next_version(&delta, &baseline);
    assert!(delta.delta.head_changed);
    assert!(delta.delta.operation_changed);
    assert!(delta.delta.branches_changed);
    assert!(delta.delta.paths.has_changes());
    assert_ne!(rebased_oid, side_before_rebase);
    assert_eq!(delta.patch.operation.as_ref().unwrap().kind, OperationKind::Clean);
    assert_eq!(patch_head_oid(&delta).as_deref(), Some(rebased_oid.as_str()));
    assert_eq!(delta.patch.head.as_ref().unwrap().branch.as_deref(), Some("side"));
    let head = head_branch_summary(&delta);
    assert_eq!(head.name, "side");
    assert_eq!(head.oid.as_deref(), Some(rebased_oid.as_str()));
    let paths = delta.patch.paths.as_ref().unwrap();
    assert!(paths.conflicted.is_empty());
    assert!(paths.staged.is_empty());
    assert!(paths.unstaged.is_empty());
    assert_patch_matches_fresh(&repo, baseline, delta.patch);
}

#[test]
fn command_shape_git_rebase_skip_emits_patchable_delta() {
    let (repo, _, main_oid) = rebase_ready();
    repo.rebase_onto("main");
    let mut state = ProcessState::new(repo.text());
    let baseline = subscribe_for_deltas(&mut state);
    assert_rebase_baseline(&baseline);

    let before = start_scan(&state);
    repo.rebase_skip();
    let (plan, delta) = update_from_changes(&mut state, &before);

    assert_incremental_refresh_plan(&plan);
    assert_next_version(&delta, &baseline);
    assert!(delta.delta.head_changed);
    assert!(delta.delta.operation_changed);
    assert!(delta.delta.branches_changed);
    assert!(delta.delta.paths.has_changes());
    assert_eq!(delta.patch.operation.as_ref().unwrap().kind, OperationKind::Clean);
    assert_eq!(patch_head_oid(&delta).as_deref(), Some(main_oid.as_str()));
    assert_eq!(delta.patch.head.as_ref().unwrap().branch.as_deref(), Some("side"));
    assert!(delta.patch.paths.as_ref().unwrap().conflicted.is_empty());
    assert_patch_matches_fresh(&repo, baseline, delta.patch);
}

/// Commits `good`, `middle` and `bad` of `tracked.txt`.
fn bisect_repo() -> (TestRepo, Oid, Oid, Oid) {
    let repo = committed_repo("tracked.txt", "good\n");
    let good = repo.head_commit();
    repo.write("tracked.txt", "middle\n");
    let middle = repo.commit_tracked("middle");
    repo.write("tracked.txt", "bad\n");
    let bad = repo.commit_tracked("bad");
    (repo, good, middle, bad)
}

fn delta_bisect(delta: &DeltaNotificationParams) -> gitseer::model::BisectState {
    delta.patch.operation.as_ref().unwrap().bisect.clone().unwrap()
}

#[test]
fn command_shape_git_bisect_start_emits_patchable_delta() {
    let repo = committed_repo("tracked.txt", "base\n");
    repo.write("tracked.txt", "second\n");
    repo.commit_tracked("second");
    let mut state = ProcessState::new(repo.text());
    let baseline = subscribe_for_deltas(&mut state);

    let before = start_scan(&state);
    repo.bisect_start();
    let (plan, delta) = update_from_changes(&mut state, &before);

    assert_incremental_refresh_plan(&plan);
    assert_next_version(&delta, &baseline);
    assert!(!delta.delta.head_changed);
    assert!(delta.delta.operation_changed);
    assert!(!delta.delta.paths.has_changes());
    let operation = delta.patch.operation.as_ref().unwrap();
    assert_eq!(operation.kind, OperationKind::Bisect);
    assert!(operation.bisect.as_ref().unwrap().good_oids.is_empty());
    assert!(operation.bisect.as_ref().unwrap().bad_oids.is_empty());
    assert_patch_matches_fresh(&repo, baseline, delta.patch);
}

#[test]
fn command_shape_git_bisect_bad_emits_patchable_delta() {
    let repo = committed_repo("tracked.txt", "base\n");
    repo.write("tracked.txt", "second\n");
    let bad_oid = repo.commit_tracked("second");
    repo.bisect_start();
    let mut state = ProcessState::new(repo.text());
    let baseline = subscribe_for_deltas(&mut state);
    assert!(baseline.snapshot.operation.bisect.as_ref().unwrap().bad_oids.is_empty());

    let before = start_scan(&state);
    repo.bisect_mark("bad", bad_oid);
    let (plan, delta) = update_from_changes(&mut state, &before);

    assert_incremental_refresh_plan(&plan);
    assert_next_version(&delta, &baseline);
    assert!(delta.delta.operation_changed);
    let bisect = delta_bisect(&delta);
    assert_eq!(bisect.bad_oids, vec![bad_oid.to_string()]);
    assert!(bisect.good_oids.is_empty());
    assert_patch_matches_fresh(&repo, baseline, delta.patch);
}

#[test]
fn command_shape_git_bisect_good_commit_emits_patchable_delta() {
    let (repo, good_oid, middle_oid, bad_oid) = bisect_repo();
    repo.bisect_start();
    repo.bisect_mark("bad", bad_oid);
    let mut state = ProcessState::new(repo.text());
    let baseline = subscribe_for_deltas(&mut state);

    let before = start_scan(&state);
    repo.bisect_mark("good", good_oid);
    repo.bisect_checkout(middle_oid);
    let (plan, delta) = update_from_changes(&mut state, &before);

    assert_incremental_refresh_plan(&plan);
    assert_next_version(&delta, &baseline);
    assert!(delta.delta.head_changed);
    assert!(delta.delta.operation_changed);
    assert!(delta.delta.branches_changed);
    assert!(!delta.delta.paths.has_changes());
    assert_eq!(patch_head_oid(&delta).as_deref(), Some(middle_oid.to_string().as_str()));
    let bisect = delta_bisect(&delta);
    assert_eq!(bisect.good_oids, vec![good_oid.to_string()]);
    assert_eq!(bisect.bad_oids, vec![bad_oid.to_string()]);
    assert_patch_matches_fresh(&repo, baseline, delta.patch);
}

#[test]
fn command_shape_git_bisect_reset_emits_patchable_delta() {
    let (repo, good_oid, middle_oid, bad_oid) = bisect_repo();
    repo.bisect_start();
    repo.bisect_mark("bad", bad_oid);
    repo.bisect_mark("good", good_oid);
    repo.bisect_checkout(middle_oid);
    let mut state = ProcessState::new(repo.text());
    let baseline = subscribe_for_deltas(&mut state);
    assert_eq!(baseline.snapshot.head.oid.as_deref(), Some(middle_oid.to_string().as_str()));
    assert_eq!(baseline.snapshot.operation.kind, OperationKind::Bisect);

    let before = start_scan(&state);
    repo.bisect_reset();
    let (plan, delta) = update_from_changes(&mut state, &before);

    assert_incremental_refresh_plan(&plan);
    assert_next_version(&delta, &baseline);
    assert!(delta.delta.head_changed);
    assert!(delta.delta.operation_changed);
    assert!(delta.delta.branches_changed);
    assert!(!delta.delta.paths.has_changes());
    assert_eq!(delta.patch.operation.as_ref().unwrap().kind, OperationKind::Clean);
    assert_eq!(patch_head_oid(&delta).as_deref(), Some(bad_oid.to_string().as_str()));
    assert_eq!(delta.patch.head.as_ref().unwrap().branch.as_deref(), Some("main"));
    let head = head_branch_summary(&delta);
    assert_eq!(head.name, "main");
    assert_eq!(head.oid.as_deref(), Some(bad_oid.to_string().as_str()));
    assert_patch_matches_fresh(&repo, baseline, delta.patch);
}

#[test]
fn command_shape_git_bisect_skip_emits_patchable_delta() {
    let repo = committed_repo("tracked.txt", "one\n");
    let good_oid = repo.head_commit();
    repo.write("tracked.txt", "two\n");
    let two = repo.commit_tracked("two");
    repo.write("tracked.txt", "three\n");
    let three = repo.commit_tracked("three");
    repo.write("tracked.txt", "four\n");
    let bad_oid = repo.commit_tracked("four");
    repo.bisect_start();
    repo.bisect_mark("bad", bad_oid);
    repo.bisect_mark("good", good_oid);
    repo.bisect_checkout(three);
    let skipped_oid = repo.head_commit().to_string();
    let mut state = ProcessState::new(repo.text());
    let baseline = subscribe_for_deltas(&mut state);
    assert_eq!(baseline.snapshot.operation.kind, OperationKind::Bisect);

    let before = start_scan(&state);
    repo.bisect_mark("skip", three);
    repo.bisect_checkout(two);
    let (plan, delta) = update_from_changes(&mut state, &before);

    assert_incremental_refresh_plan(&plan);
    assert_next_version(&delta, &baseline);
    assert!(delta.delta.head_changed);
    assert!(delta.delta.operation_changed);
    assert!(delta_bisect(&delta).skipped_oids.contains(&skipped_oid));
    assert_patch_matches_fresh(&repo, baseline, delta.patch);
}

/// Clones, pushes and fetches over the local transport, the way the git
/// command line does them.
impl TestRepo {
    fn clone_from(remote: &Path) -> Self {
        let temp = TempDir::new().unwrap();
        let repo = Repository::clone(remote.to_str().unwrap(), temp.path()).unwrap();
        let mut config = repo.config().unwrap();
        config.set_str("user.email", "tester@example.com").unwrap();
        config.set_str("user.name", "Tester").unwrap();
        TestRepo { temp, bisect_log: std::cell::RefCell::new(String::new()) }
    }

    /// `git push origin <branch>`, and with `set_upstream` `git push -u`.
    fn push(&self, branch: &str, set_upstream: bool) {
        let repo = self.repo();
        let mut remote = repo.find_remote("origin").unwrap();
        remote.push(&[format!("refs/heads/{branch}:refs/heads/{branch}")], None).unwrap();
        if set_upstream {
            self.set_upstream(branch, Some(&format!("origin/{branch}")));
        }
    }

    /// `git branch --set-upstream-to` and `git branch --unset-upstream`.
    fn set_upstream(&self, branch: &str, upstream: Option<&str>) {
        let repo = self.repo();
        let mut local = repo.find_branch(branch, git2::BranchType::Local).unwrap();
        local.set_upstream(upstream).unwrap();
    }

    /// `git remote set-head origin --auto`: asks the remote for its HEAD.
    fn remote_set_head_auto(&self) {
        let repo = self.repo();
        let mut remote = repo.find_remote("origin").unwrap();
        remote.connect(git2::Direction::Fetch).unwrap();
        let default = remote.default_branch().unwrap();
        let branch = default.as_str().unwrap().strip_prefix("refs/heads/").unwrap().to_string();
        remote.disconnect().unwrap();
        let target = format!("refs/remotes/origin/{branch}");
        repo.reference_symbolic("refs/remotes/origin/HEAD", &target, true, "remote set-head").unwrap();
    }

    /// `git remote set-head origin -d`.
    fn remote_delete_head(&self) {
        self.repo().find_reference("refs/remotes/origin/HEAD").unwrap().delete().unwrap();
    }

    /// `git fetch origin`, with `--prune` when asked. Like current git, the
    /// fetch records the remote's HEAD when none is recorded yet.
    fn fetch(&self, prune: bool) {
        {
            let repo = self.repo();
            let mut remote = repo.find_remote("origin").unwrap();
            let mut options = git2::FetchOptions::new();
            if prune {
                options.prune(git2::FetchPrune::On);
            }
            remote.fetch(&[] as &[&str], Some(&mut options), None).unwrap();
        }
        if self.repo().find_reference("refs/remotes/origin/HEAD").is_err() {
            self.remote_set_head_auto();
        }
    }

    /// `git pack-refs --all`: every loose reference moves into `packed-refs`.
    fn pack_refs(&self) {
        let repo = self.repo();
        let mut loose = Vec::new();
        for reference in repo.references().unwrap() {
            let reference = reference.unwrap();
            if let Some(oid) = reference.target() {
                loose.push((reference.name().unwrap().to_string(), oid));
            }
        }
        loose.sort();
        let mut packed = String::from("# pack-refs with: peeled fully-peeled sorted \n");
        for (name, oid) in &loose {
            packed.push_str(&format!("{oid} {name}\n"));
        }
        write_file(&self.git_dir().join("packed-refs"), &packed);
        for (name, _) in &loose {
            remove_file(&self.git_dir().join(name));
        }
    }

    /// `git branch -f <name> <target>`.
    fn force_branch(&self, name: &str, target: &str) {
        let repo = self.repo();
        let commit = repo.find_commit(self.branch_oid(target)).unwrap();
        repo.branch(name, &commit, true).unwrap();
    }
}

fn bare_remote() -> (TempDir, PathBuf) {
    let remotes_dir = TempDir::new().unwrap();
    let remote_path = remotes_dir.path().join("origin.git");
    init_bare_repo(&remote_path);
    (remotes_dir, remote_path)
}

fn repo_with_origin(remote_path: &Path) -> TestRepo {
    let repo = committed_repo("tracked.txt", "base\n");
    repo.remote_add("origin", remote_path.to_str().unwrap());
    repo
}

fn upstream_of(delta: &DeltaNotificationParams) -> gitseer::model::UpstreamState {
    delta.patch.upstream.clone().unwrap().unwrap()
}

fn has_remote_branch(branches: &[gitseer::model::BranchSummary], name: &str) -> bool {
    branches.iter().any(|branch| branch.name == name && branch.kind == gitseer::model::BranchKind::Remote)
}

#[test]
fn command_shape_git_remote_set_head_auto_emits_patchable_delta() {
    let (_remote_parent, remote_path) = bare_remote();
    let repo = TestRepo::clone_from(&remote_path);
    // A clone of an empty remote starts on the remote's default branch.
    repo.repo().set_head("refs/heads/main").unwrap();
    repo.write("tracked.txt", "base\n");
    repo.add(&["tracked.txt"]);
    repo.commit("initial");
    repo.push("main", true);
    if repo.repo().find_reference("refs/remotes/origin/HEAD").is_ok() {
        repo.remote_delete_head();
    }
    let mut state = ProcessState::new(repo.text());
    let baseline = subscribe_for_deltas(&mut state);
    assert!(!baseline.snapshot.branches.iter().any(|branch| branch.name == "origin/HEAD"));

    let before = start_scan(&state);
    repo.remote_set_head_auto();
    let (plan, delta) = update_from_changes(&mut state, &before);

    assert_incremental_refresh_plan(&plan);
    assert_next_version(&delta, &baseline);
    assert!(delta.delta.branches_changed);
    assert!(delta.patch.branches.as_ref().unwrap().iter().any(|branch| branch.name == "origin/HEAD"));
    assert_patch_matches_fresh(&repo, baseline, delta.patch);
}

#[test]
fn command_shape_update_branch_with_packed_previous_ref_emits_patchable_delta() {
    let repo = committed_repo("tracked.txt", "base\n");
    repo.branch("side");
    repo.write("tracked.txt", "second\n");
    let main_oid = repo.commit_tracked("second").to_string();
    repo.pack_refs();
    let mut state = ProcessState::new(repo.text());
    let baseline = subscribe_for_deltas(&mut state);
    let baseline_side = baseline.snapshot.branches.iter().find(|branch| branch.name == "side").unwrap();
    assert_ne!(baseline_side.oid.as_deref(), Some(main_oid.as_str()));

    let before = start_scan(&state);
    repo.force_branch("side", "main");
    let (plan, delta) = update_from_changes(&mut state, &before);

    assert_incremental_refresh_plan(&plan);
    assert_next_version(&delta, &baseline);
    assert!(!delta.delta.head_changed);
    assert!(delta.delta.branches_changed);
    let side = delta.patch.branches.as_ref().unwrap().iter().find(|branch| branch.name == "side").unwrap().clone();
    assert_eq!(side.oid.as_deref(), Some(main_oid.as_str()));
    assert_patch_matches_fresh(&repo, baseline, delta.patch);
}

#[test]
fn command_shape_git_push_set_upstream_emits_patchable_delta() {
    let (_remotes_dir, remote_path) = bare_remote();
    let repo = repo_with_origin(&remote_path);
    let mut state = ProcessState::new(repo.text());
    let baseline = subscribe_for_deltas(&mut state);

    let before = start_scan(&state);
    repo.push("main", true);
    let (plan, delta) = update_from_changes(&mut state, &before);

    assert_incremental_refresh_plan(&plan);
    assert_next_version(&delta, &baseline);
    assert!(delta.delta.upstream_changed);
    assert!(delta.delta.branches_changed);
    let upstream = upstream_of(&delta);
    assert_eq!(upstream.name, "origin/main");
    assert_eq!(upstream.ahead, 0);
    assert_eq!(upstream.behind, 0);
    let branches = delta.patch.branches.as_ref().unwrap();
    assert!(has_remote_branch(branches, "origin/main"));
    let head = head_branch_summary(&delta);
    assert_eq!(head.upstream.as_deref(), Some("origin/main"));
    assert_eq!(head.upstream_ahead, Some(0));
    assert_eq!(head.upstream_behind, Some(0));
    assert_patch_matches_fresh(&repo, baseline, delta.patch);
}

#[test]
fn command_shape_git_branch_set_upstream_to_emits_patchable_delta() {
    let (_remotes_dir, remote_path) = bare_remote();
    let repo = repo_with_origin(&remote_path);
    repo.push("main", false);
    let mut state = ProcessState::new(repo.text());
    let baseline = subscribe_for_deltas(&mut state);
    assert!(baseline.snapshot.upstream.is_none());
    assert!(has_remote_branch(&baseline.snapshot.branches, "origin/main"));

    let before = start_scan(&state);
    repo.set_upstream("main", Some("origin/main"));
    let (plan, delta) = update_from_changes(&mut state, &before);

    assert_incremental_refresh_plan(&plan);
    assert_next_version(&delta, &baseline);
    assert!(delta.delta.upstream_changed);
    assert!(delta.delta.branches_changed);
    let upstream = upstream_of(&delta);
    assert_eq!(upstream.name, "origin/main");
    assert_eq!(upstream.ahead, 0);
    assert_eq!(upstream.behind, 0);
    let head = head_branch_summary(&delta);
    assert_eq!(head.upstream.as_deref(), Some("origin/main"));
    assert_eq!(head.upstream_ahead, Some(0));
    assert_eq!(head.upstream_behind, Some(0));
    assert_patch_matches_fresh(&repo, baseline, delta.patch);
}

#[test]
fn command_shape_git_branch_unset_upstream_emits_patchable_delta() {
    let (_remotes_dir, remote_path) = bare_remote();
    let repo = repo_with_origin(&remote_path);
    repo.push("main", true);
    let mut state = ProcessState::new(repo.text());
    let baseline = subscribe_for_deltas(&mut state);
    assert!(baseline.snapshot.upstream.is_some());

    let before = start_scan(&state);
    repo.set_upstream("main", None);
    let (plan, delta) = update_from_changes(&mut state, &before);

    assert_incremental_refresh_plan(&plan);
    assert_next_version(&delta, &baseline);
    assert!(delta.delta.upstream_changed);
    assert!(delta.delta.branches_changed);
    assert!(delta.patch.upstream.as_ref().unwrap().is_none());
    let head = head_branch_summary(&delta);
    assert!(head.upstream.is_none());
    assert!(head.upstream_ahead.is_none());
    assert!(head.upstream_behind.is_none());
    assert_patch_matches_fresh(&repo, baseline, delta.patch);
}

#[test]
fn command_shape_git_fetch_remote_emits_patchable_delta() {
    let remote = committed_repo("remote.txt", "remote\n");
    let repo = repo_with_origin(remote.path());
    let mut state = ProcessState::new(repo.text());
    let baseline = subscribe_for_deltas(&mut state);
    assert!(!baseline.snapshot.branches.iter().any(|branch| branch.name == "origin/main"));

    let before = start_scan(&state);
    repo.fetch(false);
    let (plan, delta) = update_from_changes(&mut state, &before);

    assert_incremental_refresh_plan(&plan);
    assert_next_version(&delta, &baseline);
    assert!(!delta.delta.upstream_changed);
    assert!(delta.delta.branches_changed);
    assert!(delta.delta.remotes_changed);
    let origin = delta.patch.remotes.as_ref().unwrap().iter().find(|remote| remote.name == "origin").unwrap().clone();
    assert_eq!(origin.default_branch.as_deref(), Some("main"));
    assert!(has_remote_branch(delta.patch.branches.as_ref().unwrap(), "origin/main"));
    assert_patch_matches_fresh(&repo, baseline, delta.patch);
}

#[test]
fn command_shape_git_fetch_prune_remote_emits_patchable_delta() {
    let remote = committed_repo("remote.txt", "remote\n");
    remote.branch("side");
    let repo = repo_with_origin(remote.path());
    repo.fetch(false);
    let mut state = ProcessState::new(repo.text());
    let baseline = subscribe_for_deltas(&mut state);
    assert!(baseline.snapshot.branches.iter().any(|branch| branch.name == "origin/side"));

    remote.delete_branch("side");
    let before = start_scan(&state);
    repo.fetch(true);
    let (plan, delta) = update_from_changes(&mut state, &before);

    assert_incremental_refresh_plan(&plan);
    assert_next_version(&delta, &baseline);
    assert!(!delta.delta.upstream_changed);
    assert!(delta.delta.branches_changed);
    let branches = delta.patch.branches.as_ref().unwrap();
    assert!(has_remote_branch(branches, "origin/main"));
    assert!(!branches.iter().any(|branch| branch.name == "origin/side"));
    assert_patch_matches_fresh(&repo, baseline, delta.patch);
}

#[test]
fn command_shape_local_ahead_after_commit_emits_patchable_delta() {
    let (_remotes_dir, remote_path) = bare_remote();
    let repo = repo_with_origin(&remote_path);
    repo.push("main", true);
    let mut state = ProcessState::new(repo.text());
    let baseline = subscribe_for_deltas(&mut state);
    let baseline_upstream = baseline.snapshot.upstream.clone().unwrap();
    assert_eq!(baseline_upstream.ahead, 0);
    assert_eq!(baseline_upstream.behind, 0);

    let before = start_scan(&state);
    repo.write("tracked.txt", "ahead\n");
    repo.commit_tracked("ahead");
    let (plan, delta) = update_from_changes(&mut state, &before);

    assert_incremental_refresh_plan(&plan);
    assert_next_version(&delta, &baseline);
    assert!(delta.delta.head_changed);
    assert!(delta.delta.upstream_changed);
    assert!(delta.delta.branches_changed);
    assert!(!delta.delta.paths.has_changes());
    let upstream = upstream_of(&delta);
    assert_eq!(upstream.name, "origin/main");
    assert_eq!(upstream.ahead, 1);
    assert_eq!(upstream.behind, 0);
    let head = head_branch_summary(&delta);
    assert_eq!(head.upstream_ahead, Some(1));
    assert_eq!(head.upstream_behind, Some(0));
    assert_patch_matches_fresh(&repo, baseline, delta.patch);
}

/// A bare `origin` that a first clone pushed `main` to.
fn seeded_remote() -> (TempDir, PathBuf) {
    let (remotes_dir, remote_path) = bare_remote();
    let seed = repo_with_origin(&remote_path);
    seed.push("main", true);
    (remotes_dir, remote_path)
}

/// Another clone commits `file` and pushes it.
fn push_from_other_clone(remote_path: &Path, file: &str) {
    let other = TestRepo::clone_from(remote_path);
    other.write(file, "remote\n");
    other.add(&[file]);
    other.commit("remote");
    other.push("main", false);
}

#[test]
fn command_shape_local_behind_after_remote_commit_and_fetch_emits_patchable_delta() {
    let (_remotes_dir, remote_path) = seeded_remote();
    let repo = TestRepo::clone_from(&remote_path);
    let mut state = ProcessState::new(repo.text());
    let baseline = subscribe_for_deltas(&mut state);
    let baseline_upstream = baseline.snapshot.upstream.clone().unwrap();
    assert_eq!(baseline_upstream.ahead, 0);
    assert_eq!(baseline_upstream.behind, 0);

    push_from_other_clone(&remote_path, "tracked.txt");
    let before = start_scan(&state);
    repo.fetch(false);
    let (plan, delta) = update_from_changes(&mut state, &before);

    assert_incremental_refresh_plan(&plan);
    assert_next_version(&delta, &baseline);
    assert!(!delta.delta.head_changed);
    assert!(delta.delta.upstream_changed);
    assert!(delta.delta.branches_changed);
    let upstream = upstream_of(&delta);
    assert_eq!(upstream.name, "origin/main");
    assert_eq!(upstream.ahead, 0);
    assert_eq!(upstream.behind, 1);
    let head = head_branch_summary(&delta);
    assert_eq!(head.upstream_ahead, Some(0));
    assert_eq!(head.upstream_behind, Some(1));
    assert_patch_matches_fresh(&repo, baseline, delta.patch);
}

#[test]
fn command_shape_diverged_after_local_and_remote_commits_emits_patchable_delta() {
    let (_remotes_dir, remote_path) = seeded_remote();
    let repo = TestRepo::clone_from(&remote_path);
    repo.write("local.txt", "local\n");
    repo.add(&["local.txt"]);
    repo.commit("local");
    let mut state = ProcessState::new(repo.text());
    let baseline = subscribe_for_deltas(&mut state);
    let baseline_upstream = baseline.snapshot.upstream.clone().unwrap();
    assert_eq!(baseline_upstream.ahead, 1);
    assert_eq!(baseline_upstream.behind, 0);

    push_from_other_clone(&remote_path, "remote.txt");
    let before = start_scan(&state);
    repo.fetch(false);
    let (plan, delta) = update_from_changes(&mut state, &before);

    assert_incremental_refresh_plan(&plan);
    assert_next_version(&delta, &baseline);
    assert!(!delta.delta.head_changed);
    assert!(delta.delta.upstream_changed);
    assert!(delta.delta.branches_changed);
    let upstream = upstream_of(&delta);
    assert_eq!(upstream.name, "origin/main");
    assert_eq!(upstream.ahead, 1);
    assert_eq!(upstream.behind, 1);
    let head = head_branch_summary(&delta);
    assert_eq!(head.upstream_ahead, Some(1));
    assert_eq!(head.upstream_behind, Some(1));
    assert_patch_matches_fresh(&repo, baseline, delta.patch);
}

/// Writes `file` in the repository at `path`, stages it and commits it.
fn commit_in(path: &Path, file: &str, contents: &str, message: &str) -> Oid {
    write_file(&path.join(file), contents);
    let repo = Repository::open(path).unwrap();
    let mut index = repo.index().unwrap();
    index.add_path(Path::new(file)).unwrap();
    index.write().unwrap();
    let tree = repo.find_tree(index.write_tree().unwrap()).unwrap();
    let sig = TestRepo::signature();
    let parent = repo.head().ok().and_then(|h| h.peel_to_commit().ok());
    let parents: Vec<&git2::Commit> = parent.iter().collect();
    repo.commit(Some("HEAD"), &sig, &sig, message, &tree, &parents).unwrap()
}

/// Submodules, linked worktrees, shallow clones and sparse checkouts.
impl TestRepo {
    /// `git submodule add <url> <path>`.
    fn submodule_add(&self, url: &str, path: &str) {
        submodule_add_in(self.path(), url, path);
    }

    /// `git submodule update --init`.
    fn submodule_update_init(&self) {
        submodule_update_init_in(self.path());
    }

    /// `git submodule deinit -f <path>`: the submodule's files and its
    /// configuration go; its directory stays, empty.
    fn submodule_deinit(&self, path: &str) {
        let dir = self.path().join(path);
        let mut files = Vec::new();
        for entry in dir.read_dir().unwrap().flatten() {
            files.push(entry.path());
        }
        for file in files {
            remove_file(&file);
        }
        let mut config = self.repo().config().unwrap();
        for key in ["url", "active"] {
            let _ = config.remove(&format!("submodule.{path}.{key}"));
        }
    }

    /// `git submodule set-url <path> <url>`, which also syncs the configuration.
    fn submodule_set_url(&self, name: &str, url: &str) {
        let mut repo = self.repo();
        repo.submodule_set_url(name, url).unwrap();
        self.set_config(&format!("submodule.{name}.url"), url);
    }

    /// `git submodule set-branch --branch <branch> <path>`.
    fn submodule_set_branch(&self, name: &str, branch: &str) {
        let mut repo = self.repo();
        repo.submodule_set_branch(name, branch).unwrap();
    }

    /// `git worktree add <path> <branch>`.
    fn worktree_add(&self, path: &Path, branch: &str) {
        let repo = self.repo();
        let branch = repo.find_branch(branch, git2::BranchType::Local).unwrap();
        let mut opts = git2::WorktreeAddOptions::new();
        opts.reference(Some(branch.get()));
        let name = path.file_name().unwrap().to_str().unwrap();
        repo.worktree(name, path, Some(&opts)).unwrap();
    }

    fn find_worktree(&self, name: &str) -> git2::Worktree {
        self.repo().find_worktree(name).unwrap()
    }

    /// `git worktree remove <path>`.
    fn worktree_remove(&self, name: &str) {
        let mut opts = git2::WorktreePruneOptions::new();
        opts.valid(true).working_tree(true);
        self.find_worktree(name).prune(Some(&mut opts)).unwrap();
    }

    /// `git worktree prune`: forgets linked worktrees whose directory is gone.
    fn worktree_prune(&self) {
        let repo = self.repo();
        let names = repo.worktrees().unwrap();
        for i in 0..names.len() {
            let worktree = repo.find_worktree(names.get(i).unwrap().unwrap()).unwrap();
            if worktree.validate().is_err() {
                worktree.prune(None).unwrap();
            }
        }
    }

    /// A clone that only has the tip commit's history, as `git clone --depth 1` leaves it.
    fn shallow_clone_from(remote: &Path) -> Self {
        let repo = Self::clone_from(remote);
        let tip = repo.head_commit();
        write_file(&repo.git_dir().join("shallow"), &format!("{tip}\n"));
        repo
    }

    /// `git fetch --deepen 1`: the shallow boundary moves one commit back.
    fn deepen(&self, origin: &TestRepo) {
        let boundary = {
            let remote = origin.repo();
            let tip = remote.find_commit(self.head_commit()).unwrap();
            tip.parent_id(0).unwrap()
        };
        write_file(&self.git_dir().join("shallow"), &format!("{boundary}\n"));
    }

    /// `git fetch --unshallow`.
    fn unshallow(&self) {
        remove_file(&self.git_dir().join("shallow"));
    }

    /// `git sparse-checkout set <dir>`: every other tracked file leaves the
    /// working tree and is marked skip-worktree.
    fn sparse_checkout_set(&self, keep: &str, hidden: &[&str]) {
        self.set_config("core.sparseCheckout", "true");
        write_file(&self.git_dir().join("info/sparse-checkout"), &format!("/*\n!/*/\n/{keep}/\n"));
        for path in hidden {
            self.set_index_flags(path, None, Some(true));
            self.remove(path);
        }
    }

    /// `git sparse-checkout disable`: every file is back.
    fn sparse_checkout_disable(&self, hidden: &[&str]) {
        write_file(&self.git_dir().join("info/sparse-checkout"), "/*\n");
        for path in hidden {
            self.set_index_flags(path, None, Some(false));
            self.restore(path);
        }
        self.set_config("core.sparseCheckout", "false");
    }
}

fn submodule_add_in(parent: &Path, url: &str, path: &str) {
    let repo = Repository::open(parent).unwrap();
    let mut submodule = repo.submodule(url, Path::new(path), true).unwrap();
    submodule.clone(None).unwrap();
    submodule.add_finalize().unwrap();
}

fn submodule_update_init_in(parent: &Path) {
    let repo = Repository::open(parent).unwrap();
    for mut submodule in repo.submodules().unwrap() {
        submodule.init(false).unwrap();
        submodule.update(true, None).unwrap();
    }
}

fn submodule_source(contents: &str) -> TestRepo {
    committed_repo("README.md", contents)
}

/// A repository with `deps/sub` added from `source` and committed.
fn repo_with_submodule(source: &TestRepo) -> TestRepo {
    let repo = committed_repo("tracked.txt", "base\n");
    repo.submodule_add(&source.text(), "deps/sub");
    repo.commit("add submodule");
    repo
}

fn delta_submodule(delta: &DeltaNotificationParams) -> gitseer::model::SubmoduleSummary {
    delta.patch.submodules.as_ref().unwrap().iter().find(|submodule| submodule.name == "deps/sub").unwrap().clone()
}

#[test]
fn command_shape_git_init_bare_external_repo_emits_no_delta() {
    let repo = committed_repo("tracked.txt", "base\n");
    let mut state = ProcessState::new(repo.text());
    let baseline = subscribe_for_deltas(&mut state);

    let remote_parent = TempDir::new().unwrap();
    init_bare_repo(&remote_parent.path().join("remote.git"));

    let fresh = snapshot_repository(&repo.text()).unwrap();
    assert_eq!(fresh, baseline.snapshot);
}

#[test]
fn command_shape_git_commit_allow_empty_emits_patchable_delta() {
    let repo = committed_repo("tracked.txt", "base\n");
    let mut state = ProcessState::new(repo.text());
    let baseline = subscribe_for_deltas(&mut state);
    let baseline_oid = baseline.snapshot.head.oid.clone();

    let before = start_scan(&state);
    repo.commit("empty");
    let (plan, delta) = update_from_changes(&mut state, &before);

    assert_incremental_refresh_plan(&plan);
    assert_next_version(&delta, &baseline);
    assert!(delta.delta.head_changed);
    assert!(delta.delta.branches_changed);
    assert!(!delta.delta.paths.has_changes());
    assert_eq!(delta.patch.paths, None);
    assert_ne!(delta.patch.head.as_ref().unwrap().oid, baseline_oid);
    let head_commit = delta.patch.head_commit.clone().unwrap().unwrap();
    assert_ne!(head_commit.parent_oids, Vec::<String>::new());
    assert_patch_matches_fresh(&repo, baseline, delta.patch);
}

#[test]
fn opening_nested_path_after_directory_creation_uses_repository_snapshot() {
    let repo = committed_repo("tracked.txt", "base\n");
    let nested = repo.path().join("nested/deep");
    ensure_dir(&nested);

    let mut state = ProcessState::new(nested.to_str().unwrap().to_string());
    let baseline = subscribe_for_deltas(&mut state);
    let fresh = snapshot_repository(&repo.text()).unwrap();

    assert_eq!(baseline.snapshot, fresh);
    assert_eq!(Path::new(state.repo()), nested.as_path());
    assert_eq!(baseline.snapshot.identity.worktree_root.as_deref().map(Path::new), Some(repo.path()));
}

#[test]
fn opening_linked_worktree_path_uses_linked_worktree_snapshot() {
    let repo = committed_repo("tracked.txt", "base\n");
    repo.branch("side");
    let linked_parent = TempDir::new().unwrap();
    let linked_path = linked_parent.path().join("linked");
    repo.worktree_add(&linked_path, "side");
    let linked_text = linked_path.to_str().unwrap().to_string();

    let mut state = ProcessState::new(linked_text.clone());
    let baseline = subscribe_for_deltas(&mut state);
    let fresh = snapshot_repository(&linked_text).unwrap();

    assert_eq!(baseline.snapshot, fresh);
    assert_eq!(Path::new(state.repo()), linked_path.as_path());
    assert!(baseline.snapshot.identity.is_linked_worktree);
    assert_eq!(baseline.snapshot.identity.worktree_root.as_deref().map(Path::new), Some(linked_path.as_path()));
    assert_eq!(baseline.snapshot.head.branch.as_deref(), Some("side"));
}

#[test]
fn opening_bare_repository_path_uses_bare_snapshot() {
    let bare_parent = TempDir::new().unwrap();
    let bare_path = bare_parent.path().join("repo.git");
    init_bare_repo(&bare_path);
    let bare_text = bare_path.to_str().unwrap().to_string();

    let mut state = ProcessState::new(bare_text.clone());
    let baseline = subscribe_for_deltas(&mut state);
    let fresh = snapshot_repository(&bare_text).unwrap();

    assert_eq!(baseline.snapshot, fresh);
    assert_eq!(Path::new(state.repo()), bare_path.as_path());
    assert!(baseline.snapshot.identity.is_bare);
    assert!(baseline.snapshot.identity.worktree_root.is_none());
    assert!(baseline.snapshot.paths.entries.is_empty());
}

#[test]
fn opening_shallow_clone_path_uses_shallow_snapshot() {
    let remote = committed_repo("tracked.txt", "base\n");
    remote.write("tracked.txt", "second\n");
    remote.commit_tracked("second");

    let repo = TestRepo::shallow_clone_from(remote.path());
    let mut state = ProcessState::new(repo.text());
    let baseline = subscribe_for_deltas(&mut state);
    let fresh = snapshot_repository(&repo.text()).unwrap();

    assert_eq!(baseline.snapshot, fresh);
    assert!(baseline.snapshot.identity.is_shallow);
    assert_eq!(baseline.snapshot.head.branch.as_deref(), Some("main"));
}

#[test]
fn command_shape_git_fetch_deepen_emits_patchable_delta() {
    let remote = committed_repo("tracked.txt", "one\n");
    remote.write("tracked.txt", "two\n");
    remote.commit_tracked("two");
    remote.write("tracked.txt", "three\n");
    remote.commit_tracked("three");
    let repo = TestRepo::shallow_clone_from(remote.path());
    let mut state = ProcessState::new(repo.text());
    let baseline = subscribe_for_deltas(&mut state);
    assert!(baseline.snapshot.identity.is_shallow);

    let before = start_scan(&state);
    repo.deepen(&remote);
    let (plan, delta) = update_from_changes(&mut state, &before);

    assert_incremental_refresh_plan(&plan);
    assert_next_version(&delta, &baseline);
    assert!(!delta.delta.identity_changed);
    assert!(delta.delta.head_changed);
    assert!(delta.delta.branches_changed);
    assert!(!delta.delta.paths.has_changes());
    assert_eq!(delta.patch.identity, None);
    assert_eq!(delta.patch.paths, None);
    assert!(!delta.patch.head_commit.clone().unwrap().unwrap().parent_oids.is_empty());
    assert_patch_matches_fresh(&repo, baseline, delta.patch);
}

#[test]
fn command_shape_git_fetch_unshallow_emits_patchable_delta() {
    let remote = committed_repo("tracked.txt", "one\n");
    remote.write("tracked.txt", "two\n");
    remote.commit_tracked("two");
    let repo = TestRepo::shallow_clone_from(remote.path());
    let mut state = ProcessState::new(repo.text());
    let baseline = subscribe_for_deltas(&mut state);
    assert!(baseline.snapshot.identity.is_shallow);

    let before = start_scan(&state);
    repo.unshallow();
    let (plan, delta) = update_from_changes(&mut state, &before);

    assert_incremental_refresh_plan(&plan);
    assert_next_version(&delta, &baseline);
    assert!(delta.delta.identity_changed);
    assert!(delta.delta.head_changed);
    assert!(delta.delta.branches_changed);
    assert!(!delta.delta.paths.has_changes());
    assert!(!delta.patch.identity.as_ref().unwrap().is_shallow);
    assert_patch_matches_fresh(&repo, baseline, delta.patch);
}

fn sparse_repo() -> TestRepo {
    let repo = TestRepo::new();
    repo.write("visible/file.txt", "visible\n");
    repo.write("hidden/file.txt", "hidden\n");
    repo.add(&["visible/file.txt", "hidden/file.txt"]);
    repo.commit("initial");
    repo
}

#[test]
fn command_shape_sparse_checkout_set_emits_patchable_delta() {
    let repo = sparse_repo();
    let mut state = ProcessState::new(repo.text());
    let baseline = subscribe_for_deltas(&mut state);

    let before = start_scan(&state);
    repo.sparse_checkout_set("visible", &["hidden/file.txt"]);
    let (plan, delta) = update_from_changes(&mut state, &before);

    assert_incremental_refresh_plan(&plan);
    assert_next_version(&delta, &baseline);
    assert!(delta.delta.paths.has_changes());
    assert!(delta.delta.paths.entries_changed.contains(&"hidden/file.txt".to_string()));
    let paths = delta.patch.paths.as_ref().unwrap();
    let hidden = paths.entries.iter().find(|entry| entry.path == "hidden/file.txt").unwrap();
    assert!(hidden.status.skip_worktree);
    assert_patch_matches_fresh(&repo, baseline, delta.patch);
}

#[test]
fn command_shape_sparse_checkout_disable_emits_patchable_delta() {
    let repo = sparse_repo();
    repo.sparse_checkout_set("visible", &["hidden/file.txt"]);
    let mut state = ProcessState::new(repo.text());
    let baseline = subscribe_for_deltas(&mut state);
    assert!(baseline
        .snapshot
        .paths
        .entries
        .iter()
        .any(|entry| entry.path == "hidden/file.txt" && entry.status.skip_worktree));

    let before = start_scan(&state);
    repo.sparse_checkout_disable(&["hidden/file.txt"]);
    let (plan, delta) = update_from_changes(&mut state, &before);

    assert_incremental_refresh_plan(&plan);
    assert_next_version(&delta, &baseline);
    assert!(delta.delta.paths.has_changes());
    let paths = delta.patch.paths.as_ref().unwrap();
    let hidden = paths.entries.iter().find(|entry| entry.path == "hidden/file.txt");
    assert!(hidden.is_none_or(|entry| !entry.status.skip_worktree));
    assert_patch_matches_fresh(&repo, baseline, delta.patch);
}

#[test]
fn command_shape_create_local_submodule_repository_emits_no_delta() {
    let repo = committed_repo("tracked.txt", "base\n");
    let mut state = ProcessState::new(repo.text());
    let baseline = subscribe_for_deltas(&mut state);

    let _submodule_repo = submodule_source("submodule\n");

    let fresh = snapshot_repository(&repo.text()).unwrap();
    assert_eq!(fresh, baseline.snapshot);
}

#[test]
fn command_shape_git_submodule_add_emits_patchable_delta() {
    let submodule_repo = submodule_source("submodule\n");
    let submodule_url = submodule_repo.text();
    let repo = committed_repo("tracked.txt", "base\n");
    let mut state = ProcessState::new(repo.text());
    let baseline = subscribe_for_deltas(&mut state);

    let before = start_scan(&state);
    repo.submodule_add(&submodule_url, "deps/sub");
    let (plan, delta) = update_from_changes(&mut state, &before);

    assert_incremental_refresh_plan(&plan);
    assert_next_version(&delta, &baseline);
    assert!(delta.delta.paths.has_changes());
    assert!(delta.delta.submodules_changed);
    assert!(delta.patch.paths.as_ref().unwrap().staged.contains(&".gitmodules".to_string()));
    let submodules = delta.patch.submodules.as_ref().unwrap();
    assert_eq!(submodules.len(), 1);
    let submodule = &submodules[0];
    assert_eq!(submodule.name, "deps/sub");
    assert_eq!(submodule.path, "deps/sub");
    assert_eq!(submodule.url.as_deref(), Some(submodule_url.as_str()));
    assert!(submodule.status.in_config);
    assert!(submodule.status.in_index);
    assert!(submodule.status.in_workdir);
    assert!(submodule.status.index_added);
    assert!(!submodule.status.in_head);
    assert_patch_matches_fresh(&repo, baseline, delta.patch);
}

#[test]
fn command_shape_git_submodule_update_init_emits_patchable_delta() {
    let submodule_repo = submodule_source("submodule\n");
    let super_repo = repo_with_submodule(&submodule_repo);
    let repo = TestRepo::clone_from(super_repo.path());
    let mut state = ProcessState::new(repo.text());
    let baseline = subscribe_for_deltas(&mut state);
    let baseline_submodule = baseline.snapshot.submodules.iter().find(|submodule| submodule.name == "deps/sub").unwrap();
    assert!(baseline_submodule.status.workdir_uninitialized);

    let before = start_scan(&state);
    repo.submodule_update_init();
    let (plan, delta) = update_from_changes(&mut state, &before);

    assert_incremental_refresh_plan(&plan);
    assert_next_version(&delta, &baseline);
    assert!(delta.delta.submodules_changed);
    let submodule = delta_submodule(&delta);
    assert!(submodule.status.in_workdir);
    assert!(!submodule.status.workdir_uninitialized);
    assert!(submodule.workdir_oid.is_some());
    assert_patch_matches_fresh(&repo, baseline, delta.patch);
}

#[test]
fn command_shape_submodule_commit_emits_parent_patchable_delta() {
    let submodule_repo = submodule_source("submodule\n");
    let repo = repo_with_submodule(&submodule_repo);
    let mut state = ProcessState::new(repo.text());
    let baseline = subscribe_for_deltas(&mut state);
    let baseline_submodule = baseline.snapshot.submodules.iter().find(|submodule| submodule.name == "deps/sub").unwrap();
    let baseline_workdir_oid = baseline_submodule.workdir_oid.clone();

    let before = start_scan(&state);
    commit_in(&repo.path().join("deps/sub"), "README.md", "submodule changed\n", "submodule change");
    let (plan, delta) = update_from_changes(&mut state, &before);

    assert_incremental_refresh_plan(&plan);
    assert_next_version(&delta, &baseline);
    assert!(delta.delta.paths.has_changes());
    assert!(delta.delta.submodules_changed);
    let submodule = delta_submodule(&delta);
    assert_ne!(submodule.workdir_oid, baseline_workdir_oid);
    assert!(submodule.status.workdir_modified);
    assert_patch_matches_fresh(&repo, baseline, delta.patch);
}

#[test]
fn command_shape_git_submodule_deinit_emits_patchable_delta() {
    let submodule_repo = submodule_source("submodule\n");
    let repo = repo_with_submodule(&submodule_repo);
    let mut state = ProcessState::new(repo.text());
    let baseline = subscribe_for_deltas(&mut state);
    let baseline_submodule = baseline.snapshot.submodules.iter().find(|submodule| submodule.name == "deps/sub").unwrap();
    assert!(baseline_submodule.status.in_workdir);

    let before = start_scan(&state);
    repo.submodule_deinit("deps/sub");
    let (plan, delta) = update_from_changes(&mut state, &before);

    assert_incremental_refresh_plan(&plan);
    assert_next_version(&delta, &baseline);
    assert!(delta.delta.submodules_changed);
    let submodule = delta_submodule(&delta);
    assert!(!submodule.status.in_workdir);
    assert!(submodule.status.workdir_uninitialized);
    assert_patch_matches_fresh(&repo, baseline, delta.patch);
}

#[test]
fn command_shape_git_submodule_set_url_emits_patchable_delta() {
    let submodule_repo = submodule_source("submodule\n");
    let replacement_repo = submodule_source("replacement\n");
    let replacement_url = replacement_repo.text();
    let repo = repo_with_submodule(&submodule_repo);
    let mut state = ProcessState::new(repo.text());
    let baseline = subscribe_for_deltas(&mut state);

    let before = start_scan(&state);
    repo.submodule_set_url("deps/sub", &replacement_url);
    let (plan, delta) = update_from_changes(&mut state, &before);

    assert_incremental_refresh_plan(&plan);
    assert_next_version(&delta, &baseline);
    assert!(delta.delta.paths.has_changes());
    assert!(delta.delta.submodules_changed);
    assert_eq!(delta_submodule(&delta).url.as_deref(), Some(replacement_url.as_str()));
    assert_patch_matches_fresh(&repo, baseline, delta.patch);
}

#[test]
fn command_shape_git_submodule_set_branch_emits_patchable_delta() {
    let submodule_repo = submodule_source("submodule\n");
    let repo = repo_with_submodule(&submodule_repo);
    let mut state = ProcessState::new(repo.text());
    let baseline = subscribe_for_deltas(&mut state);

    let before = start_scan(&state);
    repo.submodule_set_branch("deps/sub", "stable");
    let (plan, delta) = update_from_changes(&mut state, &before);

    assert_incremental_refresh_plan(&plan);
    assert_next_version(&delta, &baseline);
    assert!(delta.delta.paths.has_changes());
    assert!(delta.delta.submodules_changed);
    assert_eq!(delta_submodule(&delta).branch.as_deref(), Some("stable"));
    assert_patch_matches_fresh(&repo, baseline, delta.patch);
}

#[test]
fn command_shape_nested_submodule_change_emits_parent_patchable_delta() {
    let nested_repo = submodule_source("nested\n");
    let submodule_repo = submodule_source("submodule\n");
    submodule_repo.submodule_add(&nested_repo.text(), "deps/nested");
    submodule_repo.commit("add nested submodule");
    let repo = repo_with_submodule(&submodule_repo);
    let submodule_path = repo.path().join("deps/sub");
    submodule_update_init_in(&submodule_path);
    let nested_path = submodule_path.join("deps/nested");
    let mut state = ProcessState::new(repo.text());
    let baseline = subscribe_for_deltas(&mut state);
    let baseline_submodule =
        baseline.snapshot.submodules.iter().find(|submodule| submodule.name == "deps/sub").cloned().unwrap();
    assert!(!baseline_submodule.status.workdir_modified);

    let before = start_scan(&state);
    commit_in(&nested_path, "README.md", "nested changed\n", "nested change");
    let (plan, delta) = update_from_changes(&mut state, &before);

    assert_incremental_refresh_plan(&plan);
    assert_next_version(&delta, &baseline);
    assert!(delta.delta.submodules_changed);
    let submodule = delta_submodule(&delta);
    assert_ne!(submodule, baseline_submodule);
    assert!(
        submodule.status.workdir_modified
            || submodule.status.workdir_worktree_modified
            || submodule.status.workdir_untracked
    );
    assert_patch_matches_fresh(&repo, baseline, delta.patch);
}

fn linked_repo() -> (TestRepo, TempDir, PathBuf) {
    let repo = committed_repo("tracked.txt", "base\n");
    repo.branch("side");
    let linked_parent = TempDir::new().unwrap();
    let linked_path = linked_parent.path().join("linked");
    (repo, linked_parent, linked_path)
}

#[test]
fn command_shape_git_worktree_add_branch_emits_patchable_delta() {
    let (repo, _linked_parent, linked_path) = linked_repo();
    let mut state = ProcessState::new(repo.text());
    let baseline = subscribe_for_deltas(&mut state);

    let before = start_scan(&state);
    repo.worktree_add(&linked_path, "side");
    let (plan, delta) = update_from_changes(&mut state, &before);

    assert_incremental_refresh_plan(&plan);
    assert_next_version(&delta, &baseline);
    assert!(!delta.delta.identity_changed);
    assert!(delta.delta.worktrees_changed);
    let worktrees = delta.patch.worktrees.as_ref().unwrap();
    assert_eq!(worktrees.len(), 1);
    assert_eq!(worktrees[0].name, "linked");
    assert_eq!(Path::new(&worktrees[0].path), linked_path.as_path());
    assert!(!worktrees[0].locked);
    assert_patch_matches_fresh(&repo, baseline, delta.patch);
}

#[test]
fn command_shape_git_worktree_add_new_branch_emits_patchable_delta() {
    let repo = committed_repo("tracked.txt", "base\n");
    let linked_parent = TempDir::new().unwrap();
    let linked_path = linked_parent.path().join("linked");
    let mut state = ProcessState::new(repo.text());
    let baseline = subscribe_for_deltas(&mut state);

    let before = start_scan(&state);
    repo.branch("feature");
    repo.worktree_add(&linked_path, "feature");
    let (plan, delta) = update_from_changes(&mut state, &before);

    assert_incremental_refresh_plan(&plan);
    assert_next_version(&delta, &baseline);
    assert!(!delta.delta.identity_changed);
    assert!(delta.delta.branches_changed);
    assert!(delta.delta.worktrees_changed);
    assert!(delta.patch.branches.as_ref().unwrap().iter().any(|branch| branch.name == "feature"));
    let worktrees = delta.patch.worktrees.as_ref().unwrap();
    assert_eq!(worktrees.len(), 1);
    assert_eq!(worktrees[0].name, "linked");
    assert_eq!(Path::new(&worktrees[0].path), linked_path.as_path());
    assert_patch_matches_fresh(&repo, baseline, delta.patch);
}

#[test]
fn command_shape_git_worktree_remove_emits_patchable_delta() {
    let (repo, _linked_parent, linked_path) = linked_repo();
    repo.worktree_add(&linked_path, "side");
    let mut state = ProcessState::new(repo.text());
    let baseline = subscribe_for_deltas(&mut state);
    assert_eq!(baseline.snapshot.worktrees.len(), 1);

    let before = start_scan(&state);
    repo.worktree_remove("linked");
    let (plan, delta) = update_from_changes(&mut state, &before);

    assert_incremental_refresh_plan(&plan);
    assert_next_version(&delta, &baseline);
    assert!(!delta.delta.identity_changed);
    assert!(!delta.delta.branches_changed);
    assert!(delta.delta.worktrees_changed);
    assert!(delta.patch.branches.is_none());
    assert!(delta.patch.worktrees.as_ref().unwrap().is_empty());
    assert_patch_matches_fresh(&repo, baseline, delta.patch);
}

#[test]
fn command_shape_git_worktree_prune_emits_patchable_delta() {
    let (repo, linked_parent, linked_path) = linked_repo();
    repo.worktree_add(&linked_path, "side");
    drop(linked_parent);
    let mut state = ProcessState::new(repo.text());
    let baseline = subscribe_for_deltas(&mut state);
    assert_eq!(baseline.snapshot.worktrees.len(), 1);

    let before = start_scan(&state);
    repo.worktree_prune();
    let (plan, delta) = update_from_changes(&mut state, &before);

    assert_incremental_refresh_plan(&plan);
    assert_next_version(&delta, &baseline);
    assert!(delta.delta.worktrees_changed);
    assert!(delta.patch.worktrees.as_ref().unwrap().is_empty());
    assert_patch_matches_fresh(&repo, baseline, delta.patch);
}

#[test]
fn command_shape_linked_worktree_branch_commit_emits_patchable_delta() {
    let (repo, _linked_parent, linked_path) = linked_repo();
    repo.worktree_add(&linked_path, "side");
    let mut state = ProcessState::new(repo.text());
    let baseline = subscribe_for_deltas(&mut state);
    let baseline_side =
        baseline.snapshot.branches.iter().find(|branch| branch.name == "side").unwrap().oid.clone();

    let before = start_scan(&state);
    let linked_oid = commit_in(&linked_path, "linked.txt", "linked\n", "linked").to_string();
    let (plan, delta) = update_from_changes(&mut state, &before);

    assert_incremental_refresh_plan(&plan);
    assert_next_version(&delta, &baseline);
    assert!(!delta.delta.head_changed);
    assert!(delta.delta.branches_changed);
    assert_ne!(baseline_side.as_deref(), Some(linked_oid.as_str()));
    let side = delta.patch.branches.as_ref().unwrap().iter().find(|branch| branch.name == "side").unwrap().clone();
    assert_eq!(side.oid.as_deref(), Some(linked_oid.as_str()));
    assert_patch_matches_fresh(&repo, baseline, delta.patch);
}

#[test]
fn command_shape_git_worktree_lock_emits_patchable_delta() {
    let (repo, _linked_parent, linked_path) = linked_repo();
    repo.worktree_add(&linked_path, "side");
    let mut state = ProcessState::new(repo.text());
    let baseline = subscribe_for_deltas(&mut state);
    assert!(!baseline.snapshot.worktrees[0].locked);

    let before = start_scan(&state);
    repo.find_worktree("linked").lock(Some("testing")).unwrap();
    let (plan, delta) = update_from_changes(&mut state, &before);

    assert_incremental_refresh_plan(&plan);
    assert_next_version(&delta, &baseline);
    assert!(delta.delta.worktrees_changed);
    let worktree = &delta.patch.worktrees.as_ref().unwrap()[0];
    assert!(worktree.locked);
    assert_eq!(worktree.lock_reason.as_deref(), Some("testing"));
    assert_patch_matches_fresh(&repo, baseline, delta.patch);
}

#[test]
fn command_shape_git_worktree_unlock_emits_patchable_delta() {
    let (repo, _linked_parent, linked_path) = linked_repo();
    repo.worktree_add(&linked_path, "side");
    repo.find_worktree("linked").lock(Some("testing")).unwrap();
    let mut state = ProcessState::new(repo.text());
    let baseline = subscribe_for_deltas(&mut state);
    assert!(baseline.snapshot.worktrees[0].locked);

    let before = start_scan(&state);
    repo.find_worktree("linked").unlock().unwrap();
    let (plan, delta) = update_from_changes(&mut state, &before);

    assert_incremental_refresh_plan(&plan);
    assert_next_version(&delta, &baseline);
    assert!(delta.delta.worktrees_changed);
    let worktree = &delta.patch.worktrees.as_ref().unwrap()[0];
    assert!(!worktree.locked);
    assert!(worktree.lock_reason.is_none());
    assert_patch_matches_fresh(&repo, baseline, delta.patch);
}

/// Refreshes with `plan` from the recorded baseline and checks that nothing
/// goes out and the repository reads as it did.
fn assert_no_semantic_change(repo: &TestRepo, state: &mut ProcessState, baseline: &SnapshotNotificationParams, plan: &RefreshPlan) {
    assert_incremental_refresh_plan(plan);
    let refresh =
        refresh_repository_with_plan(state.repo(), Some(&baseline.snapshot), plan, default_options()).unwrap();
    assert_eq!(&refresh.plan, plan);
    assert!(snapshot_update_messages(state, refresh.snapshot).is_empty());
    let fresh = snapshot_repository(&repo.text()).unwrap();
    assert_eq!(fresh, baseline.snapshot);
}

#[test]
fn command_shape_git_pack_refs_all_emits_no_semantic_delta() {
    let repo = committed_repo("tracked.txt", "base\n");
    repo.branch("side");
    repo.tag_lightweight("v1.0.0");
    let mut state = ProcessState::new(repo.text());
    let baseline = subscribe_for_deltas(&mut state);

    let before = start_scan(&state);
    repo.pack_refs();
    let plan = update_with_no_delta(&mut state, &before);

    assert_no_semantic_change(&repo, &mut state, &baseline, &plan);
}

#[test]
fn command_shape_git_init_nested_repo_emits_no_delta() {
    let repo = committed_repo("tracked.txt", "base\n");
    let mut state = ProcessState::new(repo.text());
    let baseline = subscribe_for_deltas(&mut state);

    let before = start_scan(&state);
    let mut opts = RepositoryInitOptions::new();
    opts.initial_head("main");
    Repository::init_opts(repo.path().join("nested"), &opts).unwrap();
    let plan = update_with_no_delta(&mut state, &before);

    assert_no_semantic_change(&repo, &mut state, &baseline, &plan);
}

#[test]
fn command_shape_git_config_user_identity_emits_no_delta() {
    let repo = committed_repo("tracked.txt", "base\n");
    let mut state = ProcessState::new(repo.text());
    let baseline = subscribe_for_deltas(&mut state);

    let before = start_scan(&state);
    repo.set_config("user.name", "Renamed Tester");
    repo.set_config("user.email", "renamed@example.com");
    let plan = update_with_no_delta(&mut state, &before);

    assert_no_semantic_change(&repo, &mut state, &baseline, &plan);
}

#[test]
fn command_shape_git_submodule_sync_emits_no_semantic_delta() {
    let submodule_repo = submodule_source("submodule\n");
    let replacement_repo = submodule_source("replacement\n");
    let replacement_url = replacement_repo.text();
    let repo = repo_with_submodule(&submodule_repo);
    repo.repo().submodule_set_url("deps/sub", &replacement_url).unwrap();
    let mut state = ProcessState::new(repo.text());
    let baseline = subscribe_for_deltas(&mut state);
    assert_eq!(baseline.snapshot.submodules[0].url.as_deref(), Some(replacement_url.as_str()));

    let before = start_scan(&state);
    {
        let git = repo.repo();
        let mut submodule = git.find_submodule("deps/sub").unwrap();
        submodule.sync().unwrap();
    }
    let plan = update_with_no_delta(&mut state, &before);

    assert_no_semantic_change(&repo, &mut state, &baseline, &plan);
}

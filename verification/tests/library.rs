use std::io::Write;
use std::path::Path;

use git2::{Repository, RepositoryInitOptions, Signature};
use tempfile::{Builder, NamedTempFile, TempDir};

use gitseer::delta::{path_set_delta, snapshot_delta};
use gitseer::error::{GitError, GitErrorCode, SnapshotError};
use gitseer::git::{BranchRef, HeadRef, StatusScope, SubmoduleInfo, TagObject, TaggerInfo, UpstreamRef, WorktreeInfo};
use gitseer::watch::{head_branch_from, ignore_probe, inside_submodules};
use gitseer::model::{BranchKind, GitObjectKind, SnapshotOptions, TagKind};
use gitseer::plan::RefreshPlan;
use gitseer::watch::{fold_settling_event, MAX_DEBOUNCE_DRAIN_EVENTS};
use gitseer::protocol::{handle_request, ProcessState, ResponseResult, ServerMessage, METHOD_NOT_FOUND};
use gitseer::serve::{ServeEvent, Worker};
use gitseer::sections::{
    branch_lookups, branch_summaries, lock_state, merge_message_path, tag_ref, tag_refs, tag_summaries,
    worktree_lock_path, worktree_summary, BranchRead,
};
use gitseer::roots::{existing_targets, targets_from, watch_targets_for_snapshot, WatchMode, WatchTarget};
use gitseer::plan::{DomainSet, RefreshDomain};
use gitseer::model::SnapshotPatch;
use gitseer::snapshot::{
    branches_from, read_paths_of, snapshot_repository, snapshot_repository_with_options, status_request,
    tags_named,
};
use gitseer::Config;
use gitseer::heads::{first_word_text, head_oids};
use gitseer::model::OperationHeadRole;
use gitseer::ProtocolCapabilities;
use gitseer::model::SubmoduleState;
use gitseer::git::RemoteInfo;
use gitseer::protocol::{goodbye_message, snapshot_update_messages, NotificationParams};
use gitseer::sections::{remote_summaries, submodule_summaries, worktree_summaries, RemoteRead, SubmoduleRead, WorktreeRead};
use gitseer::snapshot::{refresh_domains, remotes_named, submodules_from, worktrees_named};
use gitseer::roots::{watch_children_of, worktree_watch_dirs_from};
use gitseer::sys::DirEntryInfo;

fn git_error(code: GitErrorCode, message: &str) -> GitError {
    GitError { code, message: message.to_string() }
}

fn write_file(path: &Path, contents: &str) {
    let mut file = NamedTempFile::new_in(path.parent().unwrap()).unwrap();
    file.write_all(contents.as_bytes()).unwrap();
    file.persist(path).unwrap();
}

fn make_dir(path: &Path) {
    let name = path.file_name().unwrap();
    let _ = Builder::new().prefix(name).rand_bytes(0).tempdir_in(path.parent().unwrap()).unwrap().keep();
}

fn committed_repo() -> TempDir {
    let temp = TempDir::new().unwrap();
    let mut opts = RepositoryInitOptions::new();
    opts.initial_head("main");
    let repo = Repository::init_opts(temp.path(), &opts).unwrap();
    write_file(&temp.path().join("README.md"), "hello\n");
    write_file(&temp.path().join(".gitignore"), "build/\n");
    let mut index = repo.index().unwrap();
    index.add_path(Path::new("README.md")).unwrap();
    index.add_path(Path::new(".gitignore")).unwrap();
    index.write().unwrap();
    let tree = repo.find_tree(index.write_tree().unwrap()).unwrap();
    let sig = Signature::now("Tester", "tester@example.com").unwrap();
    repo.commit(Some("HEAD"), &sig, &sig, "initial", &tree, &[]).unwrap();
    temp
}

fn branch(name: &str, kind: BranchKind, target: &str) -> BranchRef {
    BranchRef {
        name: Ok(Some(name.to_string())),
        kind,
        is_head: false,
        target: Some(target.to_string()),
        upstream: Err(git_error(GitErrorCode::NotFound, "no upstream")),
    }
}

#[test]
fn tag_ref_names_the_tag_reference() {
    assert_eq!(tag_ref("v1.0"), "refs/tags/v1.0");
    assert_eq!(tag_ref(""), "refs/tags/");
}

#[test]
fn tag_summaries_give_one_sorted_summary_per_name() {
    let names = vec!["v2".to_string(), "v1".to_string()];
    let resolved = vec![
        Ok(TagObject::Plain { oid: "bbb".to_string(), kind: Some(GitObjectKind::Commit) }),
        Ok(TagObject::Annotated {
            oid: "aaa".to_string(),
            target_oid: "ccc".to_string(),
            target_kind: Some(GitObjectKind::Commit),
            tagger: Some(TaggerInfo { name: Some("T".to_string()), email: None, time_seconds: 7 }),
            message: Some("release\n".to_string()),
        }),
    ];
    let tags = tag_summaries(names, resolved).unwrap();
    assert_eq!(tags.len(), 2);
    assert_eq!(tags[0].name, "v1");
    assert_eq!(tags[0].kind, TagKind::Annotated);
    assert_eq!(tags[0].target_oid, "ccc");
    assert_eq!(tags[0].tagger_name.as_deref(), Some("T"));
    assert_eq!(tags[0].tagger_time_seconds, Some(7));
    assert_eq!(tags[1].name, "v2");
    assert_eq!(tags[1].kind, TagKind::Lightweight);
    assert_eq!(tags[1].oid, "bbb");
    assert_eq!(tags[1].target_oid, "bbb");
    assert_eq!(tags[1].message, None);
}

#[test]
fn tag_summaries_stop_at_the_first_unresolved_tag() {
    let first = git_error(GitErrorCode::NotFound, "first");
    let second = git_error(GitErrorCode::Other, "second");
    let names = vec!["a".to_string(), "b".to_string(), "c".to_string()];
    let resolved = vec![
        Ok(TagObject::Plain { oid: "1".to_string(), kind: None }),
        Err(first.clone()),
        Err(second),
    ];
    assert_eq!(tag_summaries(names, resolved), Err(SnapshotError::Git(first)));
    assert_eq!(tag_summaries(Vec::new(), Vec::new()), Ok(Vec::new()));
}

#[test]
fn branch_summaries_give_one_sorted_summary_per_branch() {
    let reads = vec![
        Ok(BranchRead { branch: branch("topic", BranchKind::Local, "2"), tip: None, counts: None }),
        Ok(BranchRead { branch: branch("origin/main", BranchKind::Remote, "1"), tip: None, counts: None }),
        Ok(BranchRead {
            branch: BranchRef {
                name: Ok(Some("main".to_string())),
                kind: BranchKind::Local,
                is_head: true,
                target: Some("1".to_string()),
                upstream: Ok(UpstreamRef { name: Ok(Some("origin/main".to_string())), target: Some("0".to_string()) }),
            },
            tip: None,
            counts: Some(Ok((3, 1))),
        }),
    ];
    let branches = branch_summaries(reads).unwrap();
    let names: Vec<&str> = branches.iter().map(|b| b.name.as_str()).collect();
    assert_eq!(names, vec!["main", "origin/main", "topic"]);
    assert!(branches[0].is_head);
    assert_eq!(branches[0].upstream.as_deref(), Some("origin/main"));
    assert_eq!((branches[0].upstream_ahead, branches[0].upstream_behind), (Some(3), Some(1)));
    assert_eq!(branches[1].kind, BranchKind::Remote);
    assert_eq!(branches[1].upstream, None);
    assert_eq!(branches[2].upstream, None);
    assert_eq!(branches[2].upstream_ahead, None);
}

#[test]
fn branch_summaries_report_the_first_failed_read() {
    let unreadable = git_error(GitErrorCode::Other, "unreadable");
    let bad_counts = git_error(GitErrorCode::Other, "counts");
    let reads = vec![
        Ok(BranchRead { branch: branch("a", BranchKind::Local, "1"), tip: None, counts: None }),
        Ok(BranchRead { branch: branch("b", BranchKind::Local, "1"), tip: None, counts: Some(Err(bad_counts.clone())) }),
        Err(unreadable),
    ];
    assert_eq!(branch_summaries(reads), Err(SnapshotError::Git(bad_counts)));
    let broken_name = git_error(GitErrorCode::Other, "name");
    let mut b = branch("c", BranchKind::Local, "1");
    b.name = Err(broken_name.clone());
    let reads = vec![Ok(BranchRead { branch: b, tip: None, counts: None })];
    assert_eq!(branch_summaries(reads), Err(SnapshotError::Git(broken_name)));
}

#[test]
fn status_request_lists_ignored_files_only_on_request() {
    let plain = status_request(false);
    assert_eq!(plain.scope, StatusScope::IndexAndWorkdir);
    assert!(plain.include_untracked && plain.recurse_untracked_dirs);
    assert!(plain.renames_head_to_index && plain.renames_index_to_workdir);
    assert!(!plain.include_ignored);
    assert!(status_request(true).include_ignored);
}

#[test]
fn bare_repository_reads_the_empty_path_state() {
    let temp = TempDir::new().unwrap();
    let repo = Repository::init_bare(temp.path()).unwrap();
    let paths = read_paths_of(&repo, true, SnapshotOptions { include_ignored: true }).unwrap();
    assert!(paths.staged.is_empty() && paths.unstaged.is_empty() && paths.untracked.is_empty());
    assert!(paths.ignored.is_empty() && paths.conflicted.is_empty());
    assert!(paths.conflicts.is_empty() && paths.entries.is_empty());
    let snapshot = snapshot_repository(temp.path().to_str().unwrap()).unwrap();
    assert!(snapshot.identity.is_bare);
    assert!(snapshot.paths.entries.is_empty());
}

#[test]
fn ignored_paths_are_listed_only_when_asked_for() {
    let temp = committed_repo();
    make_dir(&temp.path().join("build"));
    write_file(&temp.path().join("build/out.o"), "x");
    let path = temp.path().to_str().unwrap();
    let plain = snapshot_repository(path).unwrap();
    assert!(plain.paths.ignored.is_empty());
    let asked = snapshot_repository_with_options(path, SnapshotOptions { include_ignored: true }).unwrap();
    assert!(!asked.paths.ignored.is_empty());
}

#[test]
fn validated_passes_the_read_error_on() {
    let config = Config::new("/somewhere".to_string());
    let error = SnapshotError::NotRepository { path: "/somewhere".to_string() };
    assert_eq!(config.clone().validated(Err(error.clone())), Err(error));
    let temp = committed_repo();
    let snapshot = snapshot_repository(temp.path().to_str().unwrap()).unwrap();
    assert_eq!(config.clone().validated(Ok(snapshot)), Ok(config));
}

#[test]
fn delta_reports_no_change_exactly_for_the_same_snapshot() {
    let temp = committed_repo();
    let path = temp.path().to_str().unwrap();
    let first = snapshot_repository(path).unwrap();
    let again = snapshot_repository(path).unwrap();
    assert_eq!(first, again);
    assert!(!snapshot_delta(&first, &again).has_changes());
    write_file(&temp.path().join("README.md"), "changed\n");
    let changed = snapshot_repository(path).unwrap();
    assert_ne!(first, changed);
    assert!(snapshot_delta(&first, &changed).has_changes());
}

#[test]
fn set_delta_turns_the_previous_set_into_the_current_one() {
    let previous = vec!["a".to_string(), "b".to_string(), "c".to_string()];
    let current = vec!["b".to_string(), "d".to_string()];
    let d = path_set_delta(&previous, &current);
    assert_eq!(d.added, vec!["d".to_string()]);
    assert_eq!(d.removed, vec!["a".to_string(), "c".to_string()]);
    let mut applied: Vec<String> = previous.into_iter().filter(|p| !d.removed.contains(p)).collect();
    applied.extend(d.added.iter().cloned());
    applied.sort();
    assert_eq!(applied, current);
}

#[test]
fn listed_methods_are_never_reported_unknown() {
    let temp = committed_repo();
    let mut state = ProcessState::new(temp.path().to_str().unwrap().to_string());
    for method in ["initialize", "gitseer/getSnapshot", "gitseer/refresh", "gitseer/subscribe", "gitseer/unsubscribe"] {
        let line = format!("{{\"jsonrpc\":\"2.0\",\"id\":1,\"method\":\"{method}\"}}");
        for message in handle_request(&mut state, &line) {
            if let ServerMessage::Response(r) = message {
                assert!(r.error.map(|e| e.code) != Some(METHOD_NOT_FOUND), "{method}");
            }
        }
    }
}

#[test]
fn failed_subscription_read_sends_one_response_and_keeps_the_version() {
    let temp = TempDir::new().unwrap();
    let mut state = ProcessState::new(temp.path().join("missing").to_str().unwrap().to_string());
    let messages = handle_request(&mut state, r#"{"jsonrpc":"2.0","id":2,"method":"gitseer/subscribe"}"#);
    assert_eq!(messages.len(), 1);
    match &messages[0] {
        ServerMessage::Response(r) => {
            assert_eq!(r.result, Some(ResponseResult::Subscription { subscribed: true }));
            assert!(r.error.is_none());
        },
        ServerMessage::Notification(_) => panic!("expected a response"),
    }
    assert!(state.is_subscribed());
    assert_eq!(state.latest_version(), 0);
    assert!(state.latest_snapshot().is_none());
}

#[test]
fn initialize_reports_the_build_capabilities() {
    let mut state = ProcessState::new("/tmp/repo".to_string());
    let messages = handle_request(&mut state, r#"{"jsonrpc":"2.0","id":1,"method":"initialize"}"#);
    assert_eq!(messages.len(), 1);
    match &messages[0] {
        ServerMessage::Response(r) => match &r.result {
            Some(ResponseResult::Capabilities(c)) => {
                assert_eq!(c.name, "gitseer");
                assert_eq!(c.version, "0.1.0");
                assert!(c.repository.single_repository_process && c.repository.libgit2_backed);
                assert!(c.repository.filesystem_watch);
                assert_eq!(c.protocol.transport, "stdio");
            },
            other => panic!("unexpected result {other:?}"),
        },
        ServerMessage::Notification(_) => panic!("expected a response"),
    }
}

#[test]
fn settling_folds_events_until_the_drain_cap() {
    let (plan, taken, more) = fold_settling_event(RefreshPlan::Nothing, RefreshPlan::Full, 0);
    assert_eq!(plan, RefreshPlan::Full);
    assert_eq!(taken, 1);
    assert!(more);
    let (plan, taken, more) =
        fold_settling_event(RefreshPlan::Nothing, RefreshPlan::Nothing, MAX_DEBOUNCE_DRAIN_EVENTS - 1);
    assert_eq!(plan, RefreshPlan::Nothing);
    assert_eq!(taken, MAX_DEBOUNCE_DRAIN_EVENTS);
    assert!(!more);
}

#[test]
fn lock_reason_summary_drops_trailing_unicode_spaces() {
    let info = WorktreeInfo { path: "/w".to_string(), lock: Ok(Some(Some("moving disks \u{3000}\t\n".to_string()))) };
    let summary = worktree_summary("w".to_string(), info).unwrap();
    assert!(summary.locked);
    assert_eq!(summary.lock_reason.as_deref(), Some("moving disks"));
    let info = WorktreeInfo { path: "/w".to_string(), lock: Ok(Some(None)) };
    assert_eq!(worktree_summary("w".to_string(), info).unwrap().lock_reason, None);
}

#[test]
fn serving_versions_never_go_back_nor_skip() {
    let temp = committed_repo();
    let mut worker = Worker::new(temp.path().to_str().unwrap().to_string());
    let events = vec![
        ServeEvent::Line(r#"{"jsonrpc":"2.0","id":1,"method":"gitseer/subscribe"}"#.to_string()),
        ServeEvent::WatcherStarted,
        ServeEvent::Settled(RefreshPlan::Full),
        ServeEvent::Line(r#"{"jsonrpc":"2.0","id":2,"method":"gitseer/refresh"}"#.to_string()),
        ServeEvent::Tick,
        ServeEvent::Line(r#"{"jsonrpc":"2.0","id":3,"method":"gitseer/getSnapshot"}"#.to_string()),
    ];
    let mut versions = vec![worker.state().latest_version()];
    for event in events {
        worker.step(event).unwrap();
        versions.push(worker.state().latest_version());
    }
    for pair in versions.windows(2) {
        assert!(pair[0] <= pair[1] && pair[1] <= pair[0] + 1, "{versions:?}");
    }
    assert_eq!(versions[1], 1);
    assert_eq!(versions[4], 2);
}

#[test]
fn tags_named_gives_one_summary_per_text_name() {
    let temp = committed_repo();
    let repo = Repository::open(temp.path()).unwrap();
    let head = repo.head().unwrap().peel_to_commit().unwrap();
    repo.tag_lightweight("v1", head.as_object(), false).unwrap();
    let sig = Signature::now("Tester", "tester@example.com").unwrap();
    repo.tag("v2", head.as_object(), &sig, "second\n", false).unwrap();
    let names = vec![Some("v2".to_string()), None, Some("v1".to_string())];
    let tags = tags_named(&repo, names).unwrap();
    let found: Vec<&str> = tags.iter().map(|t| t.name.as_str()).collect();
    assert_eq!(found, vec!["v1", "v2"]);
    assert_eq!(tags[0].kind, TagKind::Lightweight);
    assert_eq!(tags[1].kind, TagKind::Annotated);
    assert_eq!(tags[1].target_oid, head.id().to_string());
    let missing = tags_named(&repo, vec![Some("nope".to_string())]);
    assert!(matches!(missing, Err(SnapshotError::Git(_))));
}

#[test]
fn branches_from_reads_one_summary_per_branch() {
    let temp = committed_repo();
    let repo = Repository::open(temp.path()).unwrap();
    let head = repo.head().unwrap().peel_to_commit().unwrap().id().to_string();
    let refs = vec![Ok(branch("zeta", BranchKind::Local, &head)), Ok(branch("main", BranchKind::Local, &head))];
    let branches = branches_from(&repo, refs).unwrap();
    assert_eq!(branches.len(), 2);
    assert_eq!(branches[0].name, "main");
    assert_eq!(branches[1].name, "zeta");
    assert_eq!(branches[0].tip_commit.as_ref().map(|c| c.oid.clone()), Some(head.clone()));
    assert_eq!(branches[0].tip_commit.as_ref().and_then(|c| c.summary.clone()).as_deref(), Some("initial"));
    let failed = git_error(GitErrorCode::Other, "unreadable");
    let refs = vec![Ok(branch("main", BranchKind::Local, &head)), Err(failed.clone())];
    assert_eq!(branches_from(&repo, refs), Err(SnapshotError::Git(failed)));
}

fn write_bytes(path: &Path, bytes: &[u8]) {
    let mut file = NamedTempFile::new_in(path.parent().unwrap()).unwrap();
    file.write_all(bytes).unwrap();
    file.persist(path).unwrap();
}

#[test]
fn merge_message_that_is_not_utf8_is_read_lossily() {
    let temp = committed_repo();
    write_bytes(&temp.path().join(".git").join("MERGE_MSG"), b"Merge \xff branch\n");
    let snapshot = snapshot_repository(temp.path().to_str().unwrap()).unwrap();
    assert_eq!(snapshot.operation.message.as_deref(), Some("Merge \u{fffd} branch\n"));
    let plain = committed_repo();
    let snapshot = snapshot_repository(plain.path().to_str().unwrap()).unwrap();
    assert_eq!(snapshot.operation.message, None);
}

#[test]
fn worktree_lock_reason_that_is_not_utf8_is_read_lossily() {
    let temp = committed_repo();
    let outside = TempDir::new().unwrap();
    let repo = Repository::open(temp.path()).unwrap();
    repo.worktree("side", &outside.path().join("side"), None).unwrap();
    let lock = temp.path().join(".git").join("worktrees").join("side").join("locked");
    write_bytes(&lock, b"moved \xfe disk \n");
    let snapshot = snapshot_repository(temp.path().to_str().unwrap()).unwrap();
    assert_eq!(snapshot.worktrees.len(), 1);
    assert!(snapshot.worktrees[0].locked);
    assert_eq!(snapshot.worktrees[0].lock_reason.as_deref(), Some("moved \u{fffd} disk"));
    write_bytes(&lock, b"");
    let snapshot = snapshot_repository(temp.path().to_str().unwrap()).unwrap();
    assert!(snapshot.worktrees[0].locked);
    assert_eq!(snapshot.worktrees[0].lock_reason, None);
}

#[test]
fn lock_state_follows_the_lock_file() {
    assert_eq!(lock_state(None), None);
    assert_eq!(lock_state(Some(String::new())), Some(None));
    assert_eq!(lock_state(Some("busy".to_string())), Some(Some("busy".to_string())));
    assert_eq!(worktree_lock_path("/r/.git", "side"), "/r/.git/worktrees/side/locked");
    assert_eq!(merge_message_path("/r/.git/"), "/r/.git/MERGE_MSG");
}

#[test]
fn tag_refs_and_branch_lookups_name_what_is_read() {
    assert_eq!(tag_refs(&vec!["a".to_string(), "b/c".to_string()]), vec!["refs/tags/a", "refs/tags/b/c"]);
    let mut b = branch("main", BranchKind::Local, "111");
    assert_eq!(branch_lookups(&b), (Some("111".to_string()), None));
    b.upstream = Ok(UpstreamRef { name: Ok(Some("origin/main".to_string())), target: Some("222".to_string()) });
    assert_eq!(branch_lookups(&b), (Some("111".to_string()), Some(("111".to_string(), "222".to_string()))));
}

#[test]
fn existing_targets_keep_the_present_ones_sorted() {
    let t = |p: &str, mode: WatchMode| WatchTarget { path: p.to_string(), mode };
    let requested = vec![
        t("/w", WatchMode::NonRecursive),
        t("/w/.git", WatchMode::Recursive),
        t("/w/a", WatchMode::NonRecursive),
        t("/excl", WatchMode::NonRecursive),
    ];
    let kept = existing_targets(requested, vec![true, true, false, true]);
    assert_eq!(kept, vec![t("/excl", WatchMode::NonRecursive), t("/w", WatchMode::NonRecursive), t("/w/.git", WatchMode::Recursive)]);
    assert!(existing_targets(vec![t("/x", WatchMode::Recursive)], vec![false]).is_empty());
}

#[test]
fn requested_targets_watch_only_git_directories_recursively() {
    let dirs = vec!["/w".to_string(), "/w/src".to_string(), "/w/.git".to_string()];
    let targets = targets_from(dirs, "/w/.git".to_string(), "/w/.git".to_string(), Some("/w/src".to_string()));
    assert_eq!(targets[0].path, "/w");
    for target in &targets {
        let expected = if target.path == "/w/.git" { WatchMode::Recursive } else { WatchMode::NonRecursive };
        assert_eq!(target.mode, expected, "{}", target.path);
    }
    assert_eq!(targets.len(), 3);
}

#[test]
fn watch_targets_of_a_repository_hold_its_root_and_git_directory() {
    let temp = committed_repo();
    let snapshot = snapshot_repository(temp.path().to_str().unwrap()).unwrap();
    let targets = watch_targets_for_snapshot(&snapshot);
    let root = snapshot.identity.worktree_root.clone().unwrap();
    assert!(targets.iter().any(|t| t.path == root && t.mode == WatchMode::NonRecursive));
    assert!(targets.iter().any(|t| t.path == snapshot.identity.git_dir && t.mode == WatchMode::Recursive));
    for pair in targets.windows(2) {
        assert!(pair[0].path < pair[1].path);
    }
}

#[test]
fn refresh_records_exactly_as_a_baseline() {
    let temp = committed_repo();
    let snapshot = snapshot_repository(temp.path().to_str().unwrap()).unwrap();
    let mut a = ProcessState::new("/r".to_string());
    let mut b = ProcessState::new("/r".to_string());
    let ra = a.record_baseline(snapshot.clone());
    let rb = b.record_refresh(snapshot.clone());
    assert_eq!(ra, rb);
    assert_eq!(a.latest_version(), b.latest_version());
    assert_eq!(a.latest_snapshot(), b.latest_snapshot());
    assert_eq!(ra.version, 1);
}

#[test]
fn delta_changes_exactly_when_its_patch_carries_something() {
    let temp = committed_repo();
    let path = temp.path().to_str().unwrap();
    let first = snapshot_repository(path).unwrap();
    let same = snapshot_delta(&first, &first);
    assert!(!same.has_changes());
    assert_eq!(SnapshotPatch::from_delta(&first, &same), SnapshotPatch::default());
    write_file(&temp.path().join("new.txt"), "x\n");
    let second = snapshot_repository(path).unwrap();
    let changed = snapshot_delta(&first, &second);
    assert!(changed.has_changes() && changed.paths.has_changes());
    assert_eq!(changed.paths.untracked.added, vec!["new.txt".to_string()]);
    assert_ne!(SnapshotPatch::from_delta(&second, &changed), SnapshotPatch::default());
}

#[test]
fn event_plan_does_not_depend_on_path_order() {
    let mut heads = DomainSet::empty();
    heads.insert(RefreshDomain::Head);
    let mut tags = DomainSet::empty();
    tags.insert(RefreshDomain::Tags);
    let plans = [RefreshPlan::Domains(heads), RefreshPlan::Nothing, RefreshPlan::Domains(tags)];
    let forward = plans.iter().cloned().fold(RefreshPlan::Nothing, |p, q| p.combine(q));
    let backward = plans.iter().rev().cloned().fold(RefreshPlan::Nothing, |p, q| p.combine(q));
    assert_eq!(forward, backward);
    match forward {
        RefreshPlan::Domains(d) => assert!(d.contains(&RefreshDomain::Head) && d.contains(&RefreshDomain::Tags)),
        other => panic!("unexpected {other:?}"),
    }
}

#[test]
fn requests_with_an_id_get_one_response_first() {
    let temp = committed_repo();
    let mut state = ProcessState::new(temp.path().to_str().unwrap().to_string());
    let messages = handle_request(&mut state, r#"{"jsonrpc":"2.0","id":"s","method":"gitseer/subscribe"}"#);
    assert_eq!(messages.len(), 2);
    match &messages[0] {
        ServerMessage::Response(r) => assert_eq!(r.id, gitseer::json::JsonValue::Str("s".to_string())),
        ServerMessage::Notification(_) => panic!("expected a response first"),
    }
    assert!(matches!(messages[1], ServerMessage::Notification(_)));
    let version = state.latest_version();
    let messages = handle_request(&mut state, r#"{"jsonrpc":"2.0","id":3,"method":"gitseer/getSnapshot","params":{"includeIgnored":true}}"#);
    assert_eq!(messages.len(), 1);
    assert_eq!(state.latest_version(), version);
    assert!(state.is_subscribed());
}

#[test]
fn submodule_membership_and_ignore_probe() {
    let sub = |p: &str| SubmoduleInfo {
        name: Some(p.to_string()),
        path: p.to_string(),
        url: None,
        branch: None,
        head_oid: None,
        index_oid: None,
        workdir_oid: None,
    };
    let subs = vec![sub("vendor/lib"), sub("tools")];
    assert!(inside_submodules("vendor/lib/src/a.c", &subs));
    assert!(inside_submodules("tools", &subs));
    assert!(!inside_submodules("vendor/other", &subs));
    assert!(!inside_submodules("tools", &Vec::new()));
    assert_eq!(ignore_probe("build"), "build/__gitseer_directory_probe__");
    assert_eq!(head_branch_from(Err(git_error(GitErrorCode::Other, "no head"))), None);
    let head = HeadRef { is_branch: true, name: Some("refs/heads/main".to_string()), shorthand: Some("main".to_string()), target: None };
    assert_eq!(head_branch_from(Ok(head)).as_deref(), Some("main"));
}

#[test]
fn remote_summaries_give_one_sorted_summary_per_remote() {
    let info = |url: &str| RemoteInfo {
        url: Some(url.to_string()),
        push_url: None,
        fetch_refspecs: vec![Some("+refs/heads/*:refs/remotes/x/*".to_string()), None],
        push_refspecs: Vec::new(),
    };
    let reads = vec![
        Ok(RemoteRead { name: "zeta".to_string(), info: info("z"), head_target: None }),
        Ok(RemoteRead {
            name: "origin".to_string(),
            info: info("o"),
            head_target: Some("refs/remotes/origin/main".to_string()),
        }),
    ];
    let remotes = remote_summaries(reads).unwrap();
    assert_eq!(remotes.len(), 2);
    assert_eq!(remotes[0].name, "origin");
    assert_eq!(remotes[0].default_branch.as_deref(), Some("main"));
    assert_eq!(remotes[0].fetch_refspecs, vec!["+refs/heads/*:refs/remotes/x/*".to_string()]);
    assert_eq!(remotes[1].name, "zeta");
    assert_eq!(remotes[1].default_branch, None);
    let failed = git_error(GitErrorCode::NotFound, "no remote");
    let reads = vec![Ok(RemoteRead { name: "a".to_string(), info: info("a"), head_target: None }), Err(failed.clone())];
    assert_eq!(remote_summaries(reads), Err(SnapshotError::Git(failed)));
}

#[test]
fn worktree_summaries_give_one_sorted_summary_per_worktree() {
    let reads = vec![
        Ok(WorktreeRead { name: "b".to_string(), path: "/b".to_string(), lock_file: None }),
        Ok(WorktreeRead { name: "a".to_string(), path: "/a".to_string(), lock_file: Some("why \n".to_string()) }),
    ];
    let worktrees = worktree_summaries(reads).unwrap();
    assert_eq!(worktrees.len(), 2);
    assert_eq!(worktrees[0].name, "a");
    assert!(worktrees[0].locked);
    assert_eq!(worktrees[0].lock_reason.as_deref(), Some("why"));
    assert!(!worktrees[1].locked);
    let failed = git_error(GitErrorCode::Other, "gone");
    assert_eq!(worktree_summaries(vec![Err(failed.clone())]), Err(SnapshotError::Git(failed)));
}

#[test]
fn submodule_summaries_give_one_sorted_summary_per_submodule() {
    let sub = |name: Option<&str>, path: &str| SubmoduleInfo {
        name: name.map(|n| n.to_string()),
        path: path.to_string(),
        url: Some("u".to_string()),
        branch: None,
        head_oid: None,
        index_oid: None,
        workdir_oid: None,
    };
    let state = SubmoduleState {
        in_head: true,
        in_index: true,
        in_config: true,
        in_workdir: true,
        index_added: false,
        index_deleted: false,
        index_modified: false,
        workdir_uninitialized: false,
        workdir_added: false,
        workdir_deleted: false,
        workdir_modified: false,
        workdir_worktree_modified: false,
        workdir_untracked: false,
    };
    let reads = vec![
        Ok(SubmoduleRead { info: sub(Some("lib"), "vendor/lib"), status: state }),
        Ok(SubmoduleRead { info: sub(None, "odd"), status: state }),
    ];
    let subs = submodule_summaries(reads).unwrap();
    assert_eq!(subs.len(), 2);
    assert_eq!(subs[0].name, "<invalid-utf8>");
    assert_eq!(subs[0].path, "odd");
    assert_eq!(subs[1].name, "lib");
    let failed = git_error(GitErrorCode::Other, "status");
    assert_eq!(submodule_summaries(vec![Err(failed.clone())]), Err(SnapshotError::Git(failed)));
}

#[test]
fn named_readers_give_one_summary_per_text_name() {
    let temp = committed_repo();
    let repo = Repository::open(temp.path()).unwrap();
    repo.remote("origin", "https://example.com/o.git").unwrap();
    repo.remote("backup", "https://example.com/b.git").unwrap();
    let remotes = remotes_named(&repo, vec![Some("origin".to_string()), None, Some("backup".to_string())]).unwrap();
    let names: Vec<&str> = remotes.iter().map(|r| r.name.as_str()).collect();
    assert_eq!(names, vec!["backup", "origin"]);
    assert!(matches!(remotes_named(&repo, vec![Some("missing".to_string())]), Err(SnapshotError::Git(_))));
    let outside = TempDir::new().unwrap();
    repo.worktree("side", &outside.path().join("side"), None).unwrap();
    let worktrees = worktrees_named(&repo, vec![Some("side".to_string()), None]).unwrap();
    assert_eq!(worktrees.len(), 1);
    assert_eq!(worktrees[0].name, "side");
    assert!(!worktrees[0].locked);
    assert!(matches!(worktrees_named(&repo, vec![Some("ghost".to_string())]), Err(SnapshotError::Git(_))));
    assert_eq!(submodules_from(&repo, Vec::new()).unwrap(), Vec::new());
}

#[test]
fn watch_children_keep_unignored_directories_in_order() {
    let e = |name: &str, dir: Option<bool>| Some(DirEntryInfo { path: format!("/w/{name}"), name: name.to_string(), is_dir: dir });
    let entries = vec![e("src", Some(true)), e(".git", Some(true)), e("build", Some(true)), e("a.txt", Some(false)), None, e("doc", None), e("lib", Some(true))];
    let ignored = vec![false, false, true, false, false, false, false];
    assert_eq!(watch_children_of(&entries, &ignored), vec!["/w/src".to_string(), "/w/lib".to_string()]);
}

#[test]
fn worktree_walk_skips_ignored_directories_and_their_descendants() {
    let temp = committed_repo();
    for dir in ["src", "src/nested", "build", "build/generated", "build/generated/deep"] {
        make_dir(&temp.path().join(dir));
    }
    let root = temp.path().to_str().unwrap();
    let dirs = worktree_watch_dirs_from(root, root);
    assert_eq!(dirs[0], root);
    assert!(dirs.iter().any(|d| d.ends_with("src/nested")));
    assert!(!dirs.iter().any(|d| d.contains("build")));
    assert!(!dirs.iter().any(|d| d.ends_with(".git")));
    let src = temp.path().join("src");
    let src = src.to_str().unwrap();
    let from_src = worktree_watch_dirs_from(root, src);
    assert_eq!(from_src[0], src);
    assert!(from_src[1].ends_with("src/nested"));
    assert!(worktree_watch_dirs_from(root, temp.path().join("build").to_str().unwrap()).is_empty());
}

#[test]
fn refreshing_no_domain_reads_nothing() {
    let temp = committed_repo();
    let path = temp.path().to_str().unwrap();
    let before = snapshot_repository(path).unwrap();
    let mut after = before.clone();
    let mut repo = Repository::open(temp.path()).unwrap();
    refresh_domains(&mut repo, &mut after, &DomainSet::empty(), SnapshotOptions { include_ignored: false }).unwrap();
    assert_eq!(after, before);
}

#[test]
fn sent_notifications_are_listed_and_versions_increase() {
    let temp = committed_repo();
    let path = temp.path().to_str().unwrap();
    let listed = ProtocolCapabilities::current().notifications;
    let mut state = ProcessState::new(path.to_string());
    let mut sent = handle_request(&mut state, r#"{"jsonrpc":"2.0","id":1,"method":"gitseer/subscribe"}"#);
    write_file(&temp.path().join("more.txt"), "x\n");
    sent.extend(snapshot_update_messages(&mut state, snapshot_repository(path).unwrap()));
    write_file(&temp.path().join("again.txt"), "y\n");
    sent.extend(snapshot_update_messages(&mut state, snapshot_repository(path).unwrap()));
    sent.push(goodbye_message("stdin closed".to_string()));
    let mut versions = Vec::new();
    for message in &sent {
        if let ServerMessage::Notification(n) = message {
            assert!(listed.contains(&n.method), "{}", n.method);
            match &n.params {
                Some(NotificationParams::Snapshot(p)) => versions.push(p.version),
                Some(NotificationParams::Delta(d)) => {
                    assert_eq!(d.previous_version + 1, d.version);
                    versions.push(d.version);
                },
                _ => {},
            }
        }
    }
    assert_eq!(versions, vec![1, 2, 3]);
}

#[test]
fn head_files_give_the_first_valid_id_of_each_line() {
    let a = "0123456789abcdef0123456789abcdef01234567";
    let b = "89ABCDEF0123456789abcdef0123456789abcdef";
    let text = format!("{a}\tbranch 'x' of y\r\n\n   not-an-id\n  {b}\n{a}0\nabc");
    assert_eq!(head_oids(&text), vec![a.to_string(), b.to_string(), "abc".to_string()]);
    assert!(head_oids("").is_empty());
    assert!(head_oids(" \n\t\n").is_empty());
    assert_eq!(first_word_text("  main\nrest"), Some("main".to_string()));
    assert_eq!(first_word_text(" \n "), None);
}

#[test]
fn malformed_merge_head_lines_are_skipped() {
    let temp = committed_repo();
    let repo = Repository::open(temp.path()).unwrap();
    let head = repo.head().unwrap().peel_to_commit().unwrap().id().to_string();
    write_file(&temp.path().join(".git").join("MERGE_HEAD"), &format!("garbage line\n{head}\n"));
    write_file(&temp.path().join(".git").join("REVERT_HEAD"), &format!("{head}\n{head}\n"));
    let snapshot = snapshot_repository(temp.path().to_str().unwrap()).unwrap();
    let heads: Vec<(OperationHeadRole, &str)> =
        snapshot.operation.heads.iter().map(|h| (h.role, h.oid.as_str())).collect();
    assert_eq!(
        heads,
        vec![(OperationHeadRole::Merge, head.as_str()), (OperationHeadRole::Revert, head.as_str()), (OperationHeadRole::Revert, head.as_str())]
    );
}

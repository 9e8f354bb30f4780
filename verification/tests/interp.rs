use workspace_status::action::{Action, Effect, ExternalDiffKind};
use workspace_status::branches::LocalBranch;
use workspace_status::checkout::{CheckoutCompute, MergeCompute};
use workspace_status::diff::DiffContent;
use workspace_status::drill::{CommitFile, CommitFileSource, DrillView};
use workspace_status::graph_load::{Commit, GraphModel};
use workspace_status::interp::{
    apply_outcome, busy_for_writes, focused_repo_needs_pane, drop_undiscovered_checkouts, loop_step, queue_autoload, schedule_effect, schedule_headless, take_pending_diff,
    take_pending_edit, write_ok_status, AppModel, InterpState, JobOutcome, JobRequest, LoopAction,
    LoopEvent, LoopState, RunningOp, StatusLine, CheckoutBranchRow, PaneLoad, PaneTarget,
};
use workspace_status::keys::InputMode;

fn commit_source() -> CommitFileSource {
    CommitFileSource::Commit { commit_id: "aaa1111bbbbbbbbbbbbbbbbbbbbbbbbbbbbbbb".into() }
}

fn commit_file(path: &str) -> CommitFile {
    CommitFile { status: "M".into(), path: path.into(), old_path: None }
}

fn local_branch(name: &str) -> LocalBranch {
    LocalBranch { name: name.into(), current: name == "main", authordate: 0 }
}

fn mini_graph(ids: &[&str]) -> GraphModel {
    GraphModel {
        uncommitted: Some(false),
        commits: ids
            .iter()
            .map(|id| Commit {
                id: (*id).into(),
                subject: format!("s-{id}"),
                parents: Vec::new(),
                refs: Vec::new(),
                author_name: String::new(),
                author_date_unix: 0,
            })
            .collect(),
        window: ids.len(),
        skip: 0,
        limit: 300,
        ..GraphModel::default()
    }
}

fn graph_target() -> PaneTarget {
    PaneTarget { in_graph: true, file: None, graph_repo: None, follow_files: None, follow_diff: None }
}

fn ids(state: &AppModel) -> Vec<String> {
    state.graph.as_ref().unwrap().commits.iter().map(|c| c.id.clone()).collect()
}

fn focused(state: &mut AppModel, repo: &str) {
    state.focused_checkout = Some(repo.into());
}

fn request_gen(interp: &mut InterpState, state: &mut AppModel, effect: Effect) -> u64 {
    let jobs = schedule_effect(interp, state, effect);
    match jobs.last() {
        Some(JobRequest::PrepareStash { gen, .. })
        | Some(JobRequest::PrepareBranches { gen, .. })
        | Some(JobRequest::CommitFiles { gen, .. })
        | Some(JobRequest::CommitDiff { gen, .. }) => *gen,
        other => panic!("no generation in {other:?}"),
    }
}

fn diff_outcome(gen: u64, path: &str, files: Vec<CommitFile>) -> JobOutcome {
    JobOutcome::CommitDiff {
        gen,
        repo: "app".into(),
        source: commit_source(),
        files,
        file_cursor: 0,
        path: path.into(),
        content: DiffContent::from_unified(format!("diff --git a/{path}")),
    }
}

fn open_files(state: &mut AppModel, files: Vec<CommitFile>) {
    state.drill = DrillView::Files { repo: "app".into(), source: commit_source(), files, cursor: 0 };
}

#[test]
fn schedule_external_diff_sets_pending() {
    let mut state = AppModel::new();
    let mut interp = InterpState::new();
    let jobs = schedule_effect(
        &mut interp,
        &mut state,
        Effect::ExternalDiff { repo: "app".into(), path: "README.md".into(), kind: ExternalDiffKind::Worktree },
    );
    assert!(jobs.is_empty());
    assert_eq!(take_pending_diff(&mut interp), Some(("app".into(), "README.md".into(), ExternalDiffKind::Worktree)));
    assert_eq!(take_pending_diff(&mut interp), None);
}

#[test]
fn interpret_sync_drops_pending_external_diff() {
    let mut state = AppModel::new();
    let mut interp = InterpState::new();
    let _ = schedule_headless(
        &mut interp,
        &mut state,
        Effect::ExternalDiff { repo: "app".into(), path: "README.md".into(), kind: ExternalDiffKind::Rev },
    );
    assert!(take_pending_diff(&mut interp).is_none());
}

#[test]
fn edit_file_leaves_pending_edit_for_live_loop() {
    let mut state = AppModel::new();
    let mut interp = InterpState::new();
    let _ = schedule_effect(&mut interp, &mut state, Effect::EditFile { repo: "app".into(), path: "a.rs".into() });
    assert!(interp.dirty);
    assert_eq!(take_pending_edit(&mut interp), Some(("app".into(), "a.rs".into())));
    let mut interp = InterpState::new();
    let _ = schedule_headless(&mut interp, &mut state, Effect::EditFile { repo: "app".into(), path: "a.rs".into() });
    assert_eq!(take_pending_edit(&mut interp), None);
}

#[test]
fn late_commit_files_after_graph_does_not_reopen_files() {
    let mut state = AppModel::new();
    let mut interp = InterpState::new();
    let gen = request_gen(
        &mut interp,
        &mut state,
        Effect::LoadCommitFiles { repo: "app".into(), source: commit_source() },
    );
    state.drill = DrillView::Graph;
    let _ = apply_outcome(
        &mut interp,
        &mut state,
        JobOutcome::CommitFiles {
            gen,
            repo: "app".into(),
            source: commit_source(),
            files: vec![commit_file("README.md")],
        },
    );
    assert!(state.drill.is_graph(), "late CommitFiles must not reopen Files after drill=Graph, got {:?}", state.drill);
}

#[test]
fn matching_commit_files_still_applies() {
    let mut state = AppModel::new();
    let mut interp = InterpState::new();
    let gen = request_gen(
        &mut interp,
        &mut state,
        Effect::LoadCommitFiles { repo: "app".into(), source: commit_source() },
    );
    match &state.drill {
        DrillView::Files { files, cursor, .. } => {
            assert!(files.is_empty());
            assert_eq!(*cursor, 0);
        },
        other => panic!("LoadCommitFiles must open an empty Files drill, got {other:?}"),
    }
    let _ = apply_outcome(
        &mut interp,
        &mut state,
        JobOutcome::CommitFiles {
            gen,
            repo: "app".into(),
            source: commit_source(),
            files: vec![commit_file("README.md")],
        },
    );
    match &state.drill {
        DrillView::Files { repo, files, .. } => {
            assert_eq!(repo, "app");
            assert_eq!(files.len(), 1);
            assert_eq!(files[0].path, "README.md");
        },
        other => panic!("matching CommitFiles must open Files, got {other:?}"),
    }
}

#[test]
fn stale_commit_files_gen_does_not_fill_when_drill_still_matches() {
    let mut state = AppModel::new();
    let mut interp = InterpState::new();
    let old = request_gen(&mut interp, &mut state, Effect::LoadCommitFiles { repo: "app".into(), source: commit_source() });
    let _latest =
        request_gen(&mut interp, &mut state, Effect::LoadCommitFiles { repo: "app".into(), source: commit_source() });
    let _ = apply_outcome(
        &mut interp,
        &mut state,
        JobOutcome::CommitFiles {
            gen: old,
            repo: "app".into(),
            source: commit_source(),
            files: vec![commit_file("README.md")],
        },
    );
    match &state.drill {
        DrillView::Files { files, .. } => {
            assert!(files.is_empty(), "stale CommitFiles gen must not fill the list when drill still matches")
        },
        other => panic!("expected Files drill, got {other:?}"),
    }
}

#[test]
fn late_autoload_wrong_identity_does_not_replace_graph() {
    let mut state = AppModel::new();
    state.graph = Some(mini_graph(&["aaa"]));
    state.graph_identity = Some(("app".into(), "head-app".into()));
    let mut interp = InterpState::new();
    interp.autoload_gen = 1;
    let _ = apply_outcome(
        &mut interp,
        &mut state,
        JobOutcome::Autoload {
            gen: 1,
            page: mini_graph(&["zzz"]),
            identity: ("lib".into(), "head-lib".into()),
            prev_status: StatusLine::Text(String::new()),
        },
    );
    assert_eq!(
        state.graph_identity,
        Some(("app".into(), "head-app".into())),
        "late Autoload must not replace live graph_identity"
    );
    assert_eq!(ids(&state), vec!["aaa"], "late Autoload must not merge a foreign page");
}

#[test]
fn matching_autoload_still_merges() {
    let mut state = AppModel::new();
    state.graph = Some(mini_graph(&["aaa"]));
    state.graph_identity = Some(("app".into(), "head-app".into()));
    state.graph_loading_older = true;
    state.status = StatusLine::LoadingOlder;
    let mut interp = InterpState::new();
    interp.autoload_gen = 1;
    let _ = apply_outcome(
        &mut interp,
        &mut state,
        JobOutcome::Autoload {
            gen: 1,
            page: mini_graph(&["bbb"]),
            identity: ("app".into(), "head-app".into()),
            prev_status: StatusLine::Text("ready".into()),
        },
    );
    assert_eq!(state.graph_identity, Some(("app".into(), "head-app".into())));
    assert_eq!(ids(&state), vec!["aaa", "bbb"]);
    assert!(!state.graph_loading_older);
    assert_eq!(state.status, StatusLine::Text("ready".into()));
}

#[test]
fn stale_autoload_gen_does_not_merge_when_identity_still_matches() {
    let mut state = AppModel::new();
    state.graph = Some(mini_graph(&["aaa"]));
    state.graph_identity = Some(("app".into(), "head-app".into()));
    let mut interp = InterpState::new();
    interp.autoload_gen = 2;
    let _ = apply_outcome(
        &mut interp,
        &mut state,
        JobOutcome::Autoload {
            gen: 1,
            page: mini_graph(&["zzz"]),
            identity: ("app".into(), "head-app".into()),
            prev_status: StatusLine::Text(String::new()),
        },
    );
    assert_eq!(state.graph_identity, Some(("app".into(), "head-app".into())));
    assert_eq!(ids(&state), vec!["aaa"], "stale autoload gen must not merge when live identity still matches");
}

#[test]
fn late_commit_diff_after_graph_does_not_reopen_diff() {
    let mut state = AppModel::new();
    let mut interp = InterpState::new();
    let gen = request_gen(
        &mut interp,
        &mut state,
        Effect::LoadCommitDiff { repo: "app".into(), source: commit_source(), path: "README.md".into() },
    );
    state.drill = DrillView::Graph;
    let _ = apply_outcome(&mut interp, &mut state, diff_outcome(gen, "README.md", vec![commit_file("README.md")]));
    assert!(state.drill.is_graph(), "late CommitDiff must not reopen Diff after drill=Graph, got {:?}", state.drill);
}

#[test]
fn late_commit_diff_after_other_path_does_not_reopen_old_diff() {
    let mut state = AppModel::new();
    state.drill = DrillView::Diff {
        repo: "app".into(),
        source: commit_source(),
        files: vec![commit_file("README.md"), commit_file("src.rs")],
        file_cursor: 1,
        path: "src.rs".into(),
        content: DiffContent::from_unified("diff --git a/src.rs".into()),
    };
    let mut interp = InterpState::new();
    let gen = request_gen(
        &mut interp,
        &mut state,
        Effect::LoadCommitDiff { repo: "app".into(), source: commit_source(), path: "README.md".into() },
    );
    let _ = apply_outcome(&mut interp, &mut state, diff_outcome(gen, "README.md", vec![commit_file("README.md")]));
    match &state.drill {
        DrillView::Diff { path, .. } => assert_eq!(path, "src.rs", "late CommitDiff must not reopen the old path"),
        other => panic!("expected Diff for src.rs, got {other:?}"),
    }
}

#[test]
fn matching_commit_diff_still_applies() {
    let mut state = AppModel::new();
    open_files(&mut state, vec![commit_file("README.md")]);
    let mut interp = InterpState::new();
    let gen = request_gen(
        &mut interp,
        &mut state,
        Effect::LoadCommitDiff { repo: "app".into(), source: commit_source(), path: "README.md".into() },
    );
    let _ = apply_outcome(&mut interp, &mut state, diff_outcome(gen, "README.md", vec![commit_file("README.md")]));
    match &state.drill {
        DrillView::Diff { path, content, .. } => {
            assert_eq!(path, "README.md");
            assert!(content.unstaged.contains("README.md"));
        },
        other => panic!("matching CommitDiff must open Diff, got {other:?}"),
    }
}

#[test]
fn stale_commit_diff_gen_does_not_open_when_files_drill_still_matches() {
    let mut state = AppModel::new();
    open_files(&mut state, vec![commit_file("README.md")]);
    let mut interp = InterpState::new();
    let load = || Effect::LoadCommitDiff { repo: "app".into(), source: commit_source(), path: "README.md".into() };
    let old = request_gen(&mut interp, &mut state, load());
    let _latest = request_gen(&mut interp, &mut state, load());
    let _ = apply_outcome(&mut interp, &mut state, diff_outcome(old, "README.md", vec![commit_file("README.md")]));
    assert!(
        state.drill.is_files(),
        "stale CommitDiff gen must not open Diff when Files target still matches, got {:?}",
        state.drill
    );
}

#[test]
fn drop_commit_diff_makes_pending_diff_stale() {
    let mut state = AppModel::new();
    open_files(&mut state, vec![commit_file("README.md")]);
    let mut interp = InterpState::new();
    let gen = request_gen(
        &mut interp,
        &mut state,
        Effect::LoadCommitDiff { repo: "app".into(), source: commit_source(), path: "README.md".into() },
    );
    let _ = schedule_effect(&mut interp, &mut state, Effect::DropCommitDiff);
    let _ = apply_outcome(&mut interp, &mut state, diff_outcome(gen, "README.md", vec![commit_file("README.md")]));
    assert!(state.drill.is_files());
}

#[test]
fn late_prepare_stash_after_repo_change_does_not_open_menu() {
    let mut state = AppModel::new();
    focused(&mut state, "lib");
    let mut interp = InterpState::new();
    let gen = request_gen(&mut interp, &mut state, Effect::PrepareStashMenu { repo: "app".into() });
    let _ = apply_outcome(
        &mut interp,
        &mut state,
        JobOutcome::PrepareStash { gen, repo: "app".into(), latest: Some("stash@{0}".into()) },
    );
    assert!(state.stash_menu.is_none(), "late PrepareStash must not open stash menu after leaving app");
}

#[test]
fn matching_prepare_stash_still_opens_menu() {
    let mut state = AppModel::new();
    focused(&mut state, "app");
    let mut interp = InterpState::new();
    let gen = request_gen(&mut interp, &mut state, Effect::PrepareStashMenu { repo: "app".into() });
    let _ = apply_outcome(
        &mut interp,
        &mut state,
        JobOutcome::PrepareStash { gen, repo: "app".into(), latest: Some("stash@{0}".into()) },
    );
    assert!(state.stash_menu.is_some(), "matching PrepareStash must open stash menu");
    assert_eq!(state.stash_menu, Some(("app".into(), Some("stash@{0}".into()))));
}

#[test]
fn stale_prepare_stash_gen_does_not_open_when_repo_still_matches() {
    let mut state = AppModel::new();
    focused(&mut state, "app");
    let mut interp = InterpState::new();
    let old = request_gen(&mut interp, &mut state, Effect::PrepareStashMenu { repo: "app".into() });
    let _latest = request_gen(&mut interp, &mut state, Effect::PrepareStashMenu { repo: "app".into() });
    let _ = apply_outcome(
        &mut interp,
        &mut state,
        JobOutcome::PrepareStash { gen: old, repo: "app".into(), latest: Some("stash@{0}".into()) },
    );
    assert!(state.stash_menu.is_none(), "stale PrepareStash gen must not open the menu when the repo still matches");
}

fn branches_outcome(gen: u64, graph_focus: bool) -> JobOutcome {
    JobOutcome::PrepareBranches { gen, repo: "app".into(), branches: vec![local_branch("main")], graph_focus }
}

#[test]
fn late_prepare_branches_after_repo_change_does_not_open_picker() {
    let mut state = AppModel::new();
    focused(&mut state, "lib");
    let mut interp = InterpState::new();
    let gen = request_gen(&mut interp, &mut state, Effect::PrepareBranchPicker { repo: "app".into() });
    let _ = apply_outcome(&mut interp, &mut state, branches_outcome(gen, false));
    assert!(state.branch_picker.is_none(), "late PrepareBranches must not open branch picker after leaving app");
}

#[test]
fn late_prepare_graph_focus_after_identity_change_does_not_open_picker() {
    let mut state = AppModel::new();
    state.graph = Some(mini_graph(&["aaa"]));
    state.graph_identity = Some(("lib".into(), "head-lib".into()));
    focused(&mut state, "lib");
    let mut interp = InterpState::new();
    let gen = request_gen(&mut interp, &mut state, Effect::PrepareGraphFocusPicker { repo: "app".into() });
    let _ = apply_outcome(&mut interp, &mut state, branches_outcome(gen, true));
    assert!(
        state.graph_focus_picker.is_none(),
        "late graph-focus PrepareBranches must not open picker after leaving app"
    );
}

#[test]
fn matching_prepare_branches_still_opens_picker() {
    let mut state = AppModel::new();
    focused(&mut state, "app");
    let mut interp = InterpState::new();
    let gen = request_gen(&mut interp, &mut state, Effect::PrepareBranchPicker { repo: "app".into() });
    let _ = apply_outcome(&mut interp, &mut state, branches_outcome(gen, false));
    let picker = state.branch_picker.as_ref().expect("matching PrepareBranches must open branch picker");
    assert_eq!(picker.0, "app");
}

#[test]
fn matching_prepare_graph_focus_still_opens_picker() {
    let mut state = AppModel::new();
    state.graph = Some(mini_graph(&["aaa"]));
    state.graph_identity = Some(("app".into(), "head-app".into()));
    focused(&mut state, "app");
    let mut interp = InterpState::new();
    let gen = request_gen(&mut interp, &mut state, Effect::PrepareGraphFocusPicker { repo: "app".into() });
    let _ = apply_outcome(&mut interp, &mut state, branches_outcome(gen, true));
    let picker = state.graph_focus_picker.as_ref().expect("matching graph-focus PrepareBranches must open picker");
    assert_eq!(picker.0, "app");
}

#[test]
fn stale_prepare_branches_gen_does_not_open_when_repo_still_matches() {
    let mut state = AppModel::new();
    focused(&mut state, "app");
    let mut interp = InterpState::new();
    let old = request_gen(&mut interp, &mut state, Effect::PrepareBranchPicker { repo: "app".into() });
    let _latest = request_gen(&mut interp, &mut state, Effect::PrepareBranchPicker { repo: "app".into() });
    let _ = apply_outcome(&mut interp, &mut state, branches_outcome(old, false));
    assert!(
        state.branch_picker.is_none(),
        "stale PrepareBranches gen must not open the picker when the repo still matches"
    );
}

#[test]
fn stale_prepare_graph_focus_gen_does_not_open_when_identity_still_matches() {
    let mut state = AppModel::new();
    state.graph = Some(mini_graph(&["aaa"]));
    state.graph_identity = Some(("app".into(), "head-app".into()));
    focused(&mut state, "app");
    let mut interp = InterpState::new();
    let old = request_gen(&mut interp, &mut state, Effect::PrepareGraphFocusPicker { repo: "app".into() });
    let _latest = request_gen(&mut interp, &mut state, Effect::PrepareGraphFocusPicker { repo: "app".into() });
    let _ = apply_outcome(&mut interp, &mut state, branches_outcome(old, true));
    assert!(
        state.graph_focus_picker.is_none(),
        "stale graph-focus gen must not open the picker when identity still matches"
    );
}

#[test]
fn write_status_texts() {
    let stash = |n: usize| Effect::StashCreate {
        repo: "app".into(),
        paths: (0..n).map(|k| format!("f{k}")).collect(),
    };
    assert_eq!(write_ok_status(&stash(1)), "Stashed 1 file");
    assert_eq!(write_ok_status(&stash(0)), "Stashed");
    assert_eq!(write_ok_status(&stash(3)), "Stashed 3 files");
    let revert = |t: &[&str], u: &[&str]| Effect::Revert {
        repo: "app".into(),
        tracked_paths: t.iter().map(|p| p.to_string()).collect(),
        untracked_paths: u.iter().map(|p| p.to_string()).collect(),
    };
    assert_eq!(write_ok_status(&revert(&[], &["new.txt"])), "deleted new.txt");
    assert_eq!(write_ok_status(&revert(&["a.rs"], &[])), "reverted a.rs");
    assert_eq!(write_ok_status(&revert(&["a.rs", "b.rs"], &["c"])), "reverted 2 tracked, 1 untracked");
    assert_eq!(
        write_ok_status(&Effect::Stage { repo: "app".into(), paths: vec!["a".into(), "b".into()] }),
        "staged b"
    );
    assert_eq!(write_ok_status(&Effect::Unstage { repo: "app".into(), paths: vec![] }), "unstaged ");
    assert_eq!(
        write_ok_status(&Effect::StashPop { repo: "app".into(), stash_ref: "stash@{1}".into() }),
        "popped stash@{1}"
    );
    assert_eq!(
        write_ok_status(&Effect::CreateBranchAt {
            repo: "app".into(),
            name: "topic".into(),
            commit_id: "0123456789abcdef".into(),
        }),
        "created topic at 0123456"
    );
    assert_eq!(
        write_ok_status(&Effect::CreateBranchAt { repo: "app".into(), name: "t".into(), commit_id: "abc".into() }),
        "created t at abc"
    );
    assert_eq!(
        write_ok_status(&Effect::CreateBranchAt { repo: "app".into(), name: "t".into(), commit_id: "abcdefé12".into() }),
        "created t at abcdefé12"
    );
    assert_eq!(
        write_ok_status(&Effect::CreateBranchAt { repo: "app".into(), name: "t".into(), commit_id: "abcdeé12".into() }),
        "created t at abcdeé"
    );
    assert_eq!(
        write_ok_status(&Effect::RemoveWorktree { primary: "app".into(), path: "wt".into(), force: false }),
        "removed worktree wt"
    );
}

#[test]
fn write_then_outcome_refreshes_and_clears_busy() {
    let mut state = AppModel::new();
    focused(&mut state, "app");
    let mut interp = InterpState::new();
    let jobs = schedule_effect(
        &mut interp,
        &mut state,
        Effect::StashApply { repo: "app".into(), stash_ref: "stash@{0}".into() },
    );
    assert_eq!(jobs.len(), 1);
    assert!(matches!(jobs[0], JobRequest::Write { .. }));
    assert!(busy_for_writes(&interp));
    let jobs = apply_outcome(&mut interp, &mut state, JobOutcome::Write { status: "applied stash@{0}".into() });
    assert!(!busy_for_writes(&interp));
    assert_eq!(state.status, StatusLine::Text("applied stash@{0}".into()));
    assert_eq!(
        jobs,
        vec![JobRequest::ReloadSnapshot { focused: Some("app".into()), gen: 1 }, JobRequest::LoadPane { req_id: 1, target: graph_target() }]
    );
}

#[test]
fn bulk_fetch_counts_and_completes() {
    let mut state = AppModel::new();
    let mut interp = InterpState::new();
    let jobs = schedule_effect(&mut interp, &mut state, Effect::Fetch { repos: vec!["a".into(), "b".into()] });
    assert_eq!(
        jobs,
        vec![
            JobRequest::Bulk { kind: RunningOp::Fetch, repo: "a".into() },
            JobRequest::Bulk { kind: RunningOp::Fetch, repo: "b".into() },
        ]
    );
    assert_eq!(state.status, StatusLine::Running { op: RunningOp::Fetch, done: 0, total: 2 });
    assert!(busy_for_writes(&interp));
    let jobs = apply_outcome(&mut interp, &mut state, JobOutcome::BulkRemote { ok: true });
    assert!(jobs.is_empty());
    assert_eq!(state.status, StatusLine::Running { op: RunningOp::Fetch, done: 1, total: 2 });
    let jobs = apply_outcome(&mut interp, &mut state, JobOutcome::BulkRemote { ok: false });
    assert_eq!(jobs.len(), 2);
    assert_eq!(state.status, StatusLine::Completed { op: RunningOp::Fetch, ok: 1, failed: 1 });
    assert_eq!(state.flashed, vec!["a".to_string(), "b".to_string()]);
    assert!(!busy_for_writes(&interp));
}

#[test]
fn empty_bulk_does_nothing() {
    let mut state = AppModel::new();
    let mut interp = InterpState::new();
    let jobs = schedule_effect(&mut interp, &mut state, Effect::Push { repos: vec![] });
    assert!(jobs.is_empty());
    assert_eq!(state.status, StatusLine::Text(String::new()));
    assert!(!busy_for_writes(&interp));
}

#[test]
fn default_branch_runs_one_repo_at_a_time() {
    let mut state = AppModel::new();
    let mut interp = InterpState::new();
    let jobs = schedule_effect(&mut interp, &mut state, Effect::DefaultBranch { repos: vec!["a".into(), "b".into()] });
    assert_eq!(jobs, vec![JobRequest::DefaultBranch { repo: "a".into(), task: None }]);
    assert_eq!(state.status, StatusLine::Running { op: RunningOp::DefaultBranch, done: 0, total: 2 });
    let jobs = apply_outcome(&mut interp, &mut state, JobOutcome::DefaultBranch { ok: true });
    assert_eq!(jobs, vec![JobRequest::DefaultBranch { repo: "b".into(), task: None }]);
    assert_eq!(state.status, StatusLine::Running { op: RunningOp::DefaultBranch, done: 1, total: 2 });
    let jobs = apply_outcome(&mut interp, &mut state, JobOutcome::DefaultBranch { ok: false });
    assert_eq!(jobs.len(), 2);
    assert_eq!(state.status, StatusLine::Completed { op: RunningOp::DefaultBranch, ok: 1, failed: 1 });
    assert_eq!(state.flashed, vec!["a".to_string(), "b".to_string()]);
    assert!(!busy_for_writes(&interp));
}

#[test]
fn batch_schedules_children_in_order() {
    let mut state = AppModel::new();
    let mut interp = InterpState::new();
    let jobs = schedule_effect(
        &mut interp,
        &mut state,
        Effect::Batch(vec![
            Effect::Stage { repo: "a".into(), paths: vec!["x".into()] },
            Effect::Batch(vec![Effect::ReloadRepo { repo: "b".into() }]),
            Effect::LoadRightPane,
        ]),
    );
    assert_eq!(
        jobs,
        vec![
            JobRequest::Write { effect: Effect::Stage { repo: "a".into(), paths: vec!["x".into()] } },
            JobRequest::ReloadRepo { repo: "b".into(), gen: 0 },
            JobRequest::LoadPane { req_id: 1, target: graph_target() },
        ]
    );
    assert_eq!(interp.writes_pending, 1);
}

#[test]
fn clipboard_outcome_sets_status() {
    let mut state = AppModel::new();
    let mut interp = InterpState::new();
    let jobs = schedule_effect(&mut interp, &mut state, Effect::CopyClipboard { text: "ref".into(), announce: true });
    assert_eq!(jobs, vec![JobRequest::CopyClipboard { text: "ref".into(), announce: true }]);
    let _ = apply_outcome(&mut interp, &mut state, JobOutcome::Clipboard { ok: false, announce: true });
    assert_eq!(state.status, StatusLine::CopyFailed);
    let _ = apply_outcome(&mut interp, &mut state, JobOutcome::Clipboard { ok: true, announce: true });
    assert_eq!(state.status, StatusLine::Copied);
    let _ = apply_outcome(&mut interp, &mut state, JobOutcome::Clipboard { ok: false, announce: false });
    assert_eq!(state.status, StatusLine::Copied, "an unannounced copy leaves the status line");
}

fn normal() -> InputMode {
    InputMode::Normal { search_active: false }
}

fn clock() -> LoopState {
    LoopState {
        watch_ms: 2000,
        fetch_ms: 60_000,
        last_watch_ms: 1000,
        last_fetch_ms: 1000,
        flash_tick_ms: 100,
        dirty: false,
        last_draw_ms: 1000,
        quit: false,
    }
}

fn idle(now_ms: u64, mode: InputMode) -> LoopEvent {
    LoopEvent::Idle { now_ms, mode, ctrl_c_armed_until: None, flashes: false }
}

fn wait(watch: Option<u64>, fetch: Option<u64>) -> LoopAction {
    LoopAction::Wait { watch, fetch, ctrl_c: None, present: None }
}

#[test]
fn loop_waits_for_watch_and_fetch() {
    let (st, acts) = loop_step(clock(), idle(1500, normal()));
    assert_eq!(st, clock());
    assert_eq!(acts, vec![wait(Some(1500), Some(59_500))]);
    let (_, acts) = loop_step(clock(), idle(90_000, normal()));
    assert_eq!(acts, vec![wait(Some(0), Some(0))]);
}

#[test]
fn zero_fetch_interval_sets_no_fetch_timer() {
    let st = LoopState { fetch_ms: 0, ..clock() };
    let (_, acts) = loop_step(st, idle(1500, normal()));
    assert_eq!(acts, vec![wait(Some(1500), None)]);
}

#[test]
fn fetch_tick_skipped_while_writes_busy() {
    let (st, acts) = loop_step(clock(), LoopEvent::FetchDue { now_ms: 61_000, mode: normal(), busy_for_writes: true });
    assert!(acts.is_empty());
    assert_eq!(st.last_fetch_ms, 61_000);
    let (_, acts) = loop_step(clock(), LoopEvent::FetchDue { now_ms: 61_000, mode: normal(), busy_for_writes: false });
    assert_eq!(acts, vec![LoopAction::Dispatch(Action::FetchTick)]);
}

#[test]
fn watch_tick_dispatches_and_restarts_timer() {
    let (st, acts) = loop_step(clock(), LoopEvent::WatchDue { now_ms: 3000, mode: normal() });
    assert_eq!(st.last_watch_ms, 3000);
    assert_eq!(acts, vec![LoopAction::Dispatch(Action::WatchTick)]);
}

#[test]
fn busy_input_quits_resizes_or_drains() {
    let (st, acts) = loop_step(clock(), LoopEvent::Input { action: Action::Quit, busy_for_writes: true });
    assert!(st.quit);
    assert_eq!(acts, vec![LoopAction::Stop]);
    let (_, acts) =
        loop_step(clock(), LoopEvent::Input { action: Action::Resize { cols: 80, rows: 24 }, busy_for_writes: true });
    assert_eq!(
        acts,
        vec![LoopAction::Resize { cols: 80, rows: 24 }, LoopAction::Dispatch(Action::Resize { cols: 80, rows: 24 })]
    );
    let (_, acts) = loop_step(clock(), LoopEvent::Input { action: Action::Stage, busy_for_writes: true });
    assert!(acts.is_empty());
    let (st, acts) = loop_step(clock(), LoopEvent::Input { action: Action::Stage, busy_for_writes: false });
    assert_eq!(acts, vec![LoopAction::Dispatch(Action::Stage)]);
    assert!(st.dirty);
    let (st, acts) = loop_step(clock(), LoopEvent::QuitEffect);
    assert!(st.quit);
    assert_eq!(acts, vec![LoopAction::Stop]);
}

#[test]
fn overlay_holds_background_timers() {
    let (_, acts) = loop_step(clock(), idle(1500, InputMode::Help));
    assert_eq!(acts, vec![wait(None, None)]);
    let (st, acts) = loop_step(clock(), LoopEvent::WatchDue { now_ms: 3000, mode: InputMode::Confirm });
    assert!(acts.is_empty());
    assert_eq!(st.last_watch_ms, 3000);
}

fn queue_autoload_state(state: &mut AppModel, interp: &mut InterpState) -> Vec<JobRequest> {
    focused(state, "app");
    state.drill = DrillView::Graph;
    let mut graph = mini_graph(&["aaa"]);
    graph.has_more = true;
    state.graph = Some(graph);
    state.graph_rows = 1;
    state.graph_cursor = 10;
    state.graph_identity = Some(("app".into(), "head-app".into()));
    let jobs = queue_autoload(interp, state);
    assert!(state.graph_loading_older, "maybe_queue_autoload must enqueue");
    jobs
}

#[test]
fn autoload_spawn_keeps_enqueued_identity_when_live_graph_moves() {
    let mut state = AppModel::new();
    let mut interp = InterpState::new();
    let jobs = queue_autoload_state(&mut state, &mut interp);
    state.graph_identity = Some(("lib".into(), "head-lib".into()));
    let identity = jobs.into_iter().find_map(|job| match job {
        JobRequest::Autoload { identity, .. } => Some(identity),
        _ => None,
    });
    let identity = identity.expect("spawned Autoload");
    assert_eq!(
        identity,
        ("app".to_string(), "head-app".to_string()),
        "autoload JobOutcome identity must be the enqueue-time graph, not live recapture"
    );
}

#[test]
fn queued_autoload_merges_and_restores_status() {
    let mut state = AppModel::new();
    let mut interp = InterpState::new();
    let jobs = queue_autoload_state(&mut state, &mut interp);
    assert_eq!(state.status, StatusLine::LoadingOlder);
    let (gen, identity) = match &jobs[..] {
        [JobRequest::Autoload { gen, identity }] => (*gen, identity.clone()),
        other => panic!("expected one Autoload job, got {other:?}"),
    };
    assert!(queue_autoload(&mut interp, &mut state).is_empty(), "no second page while one loads");
    let _ = apply_outcome(
        &mut interp,
        &mut state,
        JobOutcome::Autoload { gen, page: mini_graph(&["bbb"]), identity, prev_status: StatusLine::Text("idle".into()) },
    );
    assert_eq!(ids(&state), vec!["aaa", "bbb"]);
    assert!(!state.graph_loading_older);
    assert_eq!(state.status, StatusLine::Text("idle".into()));
}

#[test]
fn autoload_not_due_before_last_row() {
    let mut state = AppModel::new();
    let mut interp = InterpState::new();
    let mut graph = mini_graph(&["aaa", "bbb"]);
    graph.has_more = true;
    state.graph = Some(graph);
    state.graph_rows = 2;
    state.graph_cursor = 0;
    state.graph_identity = Some(("app".into(), "head-app".into()));
    assert!(queue_autoload(&mut interp, &mut state).is_empty());
    assert!(!state.graph_loading_older);
    state.graph_cursor = 1;
    state.plain_diff_on_right = true;
    assert!(queue_autoload(&mut interp, &mut state).is_empty());
}

#[test]
fn checkout_outcomes_set_status_picker_and_confirm() {
    let mut state = AppModel::new();
    focused(&mut state, "app");
    state.branch_picker = Some(("app".into(), vec![local_branch("main")]));
    let mut interp = InterpState::new();
    let _ = schedule_effect(
        &mut interp,
        &mut state,
        Effect::CheckoutBranch { repo: "app".into(), selected_name: "topic".into(), fast_forward_ref: None },
    );
    assert!(busy_for_writes(&interp));
    let jobs = apply_outcome(
        &mut interp,
        &mut state,
        JobOutcome::Checkout {
            repo: "app".into(),
            result: CheckoutCompute::Failed { status: "Checkout failed: topic".into(), clear_picker: false },
        },
    );
    assert!(!busy_for_writes(&interp));
    assert_eq!(state.status, StatusLine::Text("Checkout failed: topic".into()));
    assert!(state.branch_picker.is_some());
    assert_eq!(jobs, vec![JobRequest::LoadPane { req_id: 1, target: graph_target() }]);
    let jobs = apply_outcome(
        &mut interp,
        &mut state,
        JobOutcome::Checkout {
            repo: "app".into(),
            result: CheckoutCompute::Confirm { local_branch: "topic".into(), remote_ref: "origin/topic".into() },
        },
    );
    assert!(state.branch_picker.is_none());
    assert_eq!(state.checkout_confirm, Some(("app".into(), "topic".into(), "origin/topic".into())));
    assert_eq!(jobs, vec![JobRequest::LoadPane { req_id: 2, target: graph_target() }]);
    let jobs = apply_outcome(
        &mut interp,
        &mut state,
        JobOutcome::Checkout { repo: "app".into(), result: CheckoutCompute::Done { status: "Checked out topic".into() } },
    );
    assert_eq!(state.status, StatusLine::Text("Checked out topic".into()));
    assert_eq!(
        jobs,
        vec![JobRequest::ReloadSnapshot { focused: Some("app".into()), gen: 1 }, JobRequest::LoadPane { req_id: 3, target: graph_target() }]
    );
    let _ = apply_outcome(&mut interp, &mut state, JobOutcome::Checkout { repo: "app".into(), result: CheckoutCompute::Dirty });
    assert_eq!(state.status, StatusLine::DirtyWorktree);
}

#[test]
fn merge_outcome_reloads_only_when_head_moved() {
    let mut state = AppModel::new();
    let mut interp = InterpState::new();
    let jobs = apply_outcome(
        &mut interp,
        &mut state,
        JobOutcome::Merge { label: "topic".into(), result: MergeCompute::AlreadyUpToDate },
    );
    assert_eq!(jobs, vec![JobRequest::LoadPane { req_id: 1, target: graph_target() }]);
    assert_eq!(state.status, StatusLine::Merged { label: "topic".into(), result: MergeCompute::AlreadyUpToDate });
    let jobs = apply_outcome(
        &mut interp,
        &mut state,
        JobOutcome::Merge { label: "topic".into(), result: MergeCompute::Conflict },
    );
    assert_eq!(jobs.len(), 2);
    assert!(matches!(jobs[0], JobRequest::ReloadSnapshot { .. }));
}

#[test]
fn ctrl_c_and_paint_deadlines() {
    let armed = LoopEvent::Idle { now_ms: 1500, mode: normal(), ctrl_c_armed_until: Some(2500), flashes: false };
    let (_, acts) = loop_step(clock(), armed);
    assert_eq!(
        acts,
        vec![LoopAction::Wait { watch: Some(1500), fetch: Some(59_500), ctrl_c: Some(1000), present: None }]
    );
    let dirty = LoopState { dirty: true, ..clock() };
    let (_, acts) = loop_step(dirty, LoopEvent::Idle { now_ms: 1010, mode: normal(), ctrl_c_armed_until: None, flashes: false });
    assert_eq!(
        acts,
        vec![LoopAction::Wait { watch: Some(1990), fetch: Some(59_990), ctrl_c: None, present: Some(6) }]
    );
    let (_, acts) = loop_step(clock(), LoopEvent::Idle { now_ms: 1500, mode: normal(), ctrl_c_armed_until: None, flashes: true });
    assert_eq!(
        acts,
        vec![LoopAction::Wait { watch: Some(1500), fetch: Some(59_500), ctrl_c: None, present: Some(0) }]
    );
    let (_, acts) = loop_step(clock(), LoopEvent::CtrlCDue);
    assert_eq!(acts, vec![LoopAction::ExpireCtrlC]);
}

#[test]
fn paints_only_when_dirty_and_gap_passed_or_flashing() {
    let (st, acts) = loop_step(clock(), LoopEvent::PresentDue { now_ms: 1100, flashes: false });
    assert!(acts.is_empty());
    assert_eq!(st, clock());
    let (st, _) = loop_step(clock(), LoopEvent::Changed);
    assert!(st.dirty);
    let (early, acts) = loop_step(st, LoopEvent::PresentDue { now_ms: 1010, flashes: false });
    assert!(acts.is_empty());
    assert!(early.dirty);
    let (painted, acts) = loop_step(st, LoopEvent::PresentDue { now_ms: 1020, flashes: false });
    assert_eq!(acts, vec![LoopAction::Draw]);
    assert!(!painted.dirty);
    assert_eq!(painted.last_draw_ms, 1020);
    let (flashing, acts) = loop_step(clock(), LoopEvent::PresentDue { now_ms: 1001, flashes: true });
    assert_eq!(acts, vec![LoopAction::Draw]);
    assert!(flashing.dirty);
}

#[test]
fn moves_queue_the_autoload_check() {
    let (_, acts) = loop_step(clock(), LoopEvent::Input { action: Action::MoveToEnd, busy_for_writes: false });
    assert_eq!(acts, vec![LoopAction::Dispatch(Action::MoveToEnd), LoopAction::QueueAutoload]);
    let (_, acts) = loop_step(clock(), LoopEvent::Input { action: Action::MoveToEnd, busy_for_writes: true });
    assert_eq!(acts, vec![LoopAction::Dispatch(Action::MoveToEnd), LoopAction::QueueAutoload]);
}

#[test]
fn default_branch_job_carries_branch_and_override() {
    let mut state = AppModel::new();
    state.checkout_rows = vec![
        CheckoutBranchRow { repo: "b".into(), branch: "topic".into(), default_branch_override: Some("trunk".into()) },
        CheckoutBranchRow { repo: "a".into(), branch: "feature".into(), default_branch_override: None },
    ];
    let mut interp = InterpState::new();
    let jobs = schedule_effect(&mut interp, &mut state, Effect::DefaultBranch { repos: vec!["a".into(), "b".into(), "c".into()] });
    assert_eq!(jobs, vec![JobRequest::DefaultBranch { repo: "a".into(), task: Some(("feature".into(), None)) }]);
    let jobs = apply_outcome(&mut interp, &mut state, JobOutcome::DefaultBranch { ok: true });
    assert_eq!(
        jobs,
        vec![JobRequest::DefaultBranch { repo: "b".into(), task: Some(("topic".into(), Some("trunk".into()))) }]
    );
    let jobs = apply_outcome(&mut interp, &mut state, JobOutcome::DefaultBranch { ok: true });
    assert_eq!(jobs, vec![JobRequest::DefaultBranch { repo: "c".into(), task: None }]);
}

fn dummy_row(repo: &str) -> CheckoutBranchRow {
    CheckoutBranchRow { repo: repo.into(), branch: "main".into(), default_branch_override: None }
}

#[test]
fn drop_undiscovered_checkouts_removes_vanished_paths() {
    let mut app = AppModel::new();
    app.checkout_rows = vec![dummy_row("app"), dummy_row("linked")];
    assert_eq!(app.checkout_rows.len(), 2);
    drop_undiscovered_checkouts(&mut app, &["app".into()]);
    let names: Vec<&str> = app.checkout_rows.iter().map(|row| row.repo.as_str()).collect();
    assert_eq!(names, vec!["app"]);
    drop_undiscovered_checkouts(&mut app, &["app".into()]);
    assert_eq!(app.checkout_rows.len(), 1);
}

fn app_graph_target() -> PaneTarget {
    PaneTarget { in_graph: true, file: None, graph_repo: Some("app".into()), follow_files: None, follow_diff: None }
}

#[test]
fn late_autoload_after_same_identity_pane_graph_does_not_merge() {
    let mut state = AppModel::new();
    focused(&mut state, "app");
    state.drill = DrillView::Graph;
    state.graph = Some(mini_graph(&["aaa"]));
    state.graph_identity = Some(("app".into(), "head-app".into()));
    state.graph_loading_older = true;
    state.pane_target = app_graph_target();
    let mut interp = InterpState::new();
    interp.autoload_gen = 1;
    let autoload_gen = interp.autoload_gen;
    interp.pane_req = 1;
    let pane_id = interp.pane_req;
    let _ = apply_outcome(
        &mut interp,
        &mut state,
        JobOutcome::RightPane {
            req_id: pane_id,
            target: app_graph_target(),
            load: PaneLoad::Graph {
                model: mini_graph(&["bbb"]),
                identity: ("app".into(), "head-app".into()),
                files: None,
            },
        },
    );
    let _ = apply_outcome(
        &mut interp,
        &mut state,
        JobOutcome::Autoload {
            gen: autoload_gen,
            page: mini_graph(&["zzz"]),
            identity: ("app".into(), "head-app".into()),
            prev_status: StatusLine::Text(String::new()),
        },
    );
    assert_eq!(state.graph_identity, Some(("app".into(), "head-app".into())));
    assert_eq!(
        ids(&state),
        vec!["bbb"],
        "late Autoload must not merge the old window into a same-identity pane replace"
    );
    assert!(!state.graph_loading_older, "pane graph replace must clear graph_loading_older");
}

#[test]
fn stale_pane_request_is_dropped() {
    let mut state = AppModel::new();
    state.pane_target = app_graph_target();
    let mut interp = InterpState::new();
    interp.pane_req = 2;
    let jobs = apply_outcome(
        &mut interp,
        &mut state,
        JobOutcome::RightPane {
            req_id: 1,
            target: app_graph_target(),
            load: PaneLoad::Graph { model: mini_graph(&["old"]), identity: ("app".into(), "h".into()), files: None },
        },
    );
    assert!(jobs.is_empty());
    assert!(state.graph.is_none());
    assert_eq!(interp.autoload_gen, 0);
    assert!(!interp.dirty);
}

#[test]
fn pane_result_for_a_left_target_asks_again() {
    let mut state = AppModel::new();
    state.pane_target = app_graph_target();
    let mut interp = InterpState::new();
    interp.pane_req = 3;
    let jobs = apply_outcome(
        &mut interp,
        &mut state,
        JobOutcome::RightPane {
            req_id: 3,
            target: graph_target(),
            load: PaneLoad::Clear,
        },
    );
    assert_eq!(jobs, vec![JobRequest::LoadPane { req_id: 4, target: app_graph_target() }]);
    assert_eq!(interp.pane_req, 4);
    assert!(state.graph.is_none());
}

#[test]
fn pane_loads_show_diff_files_and_clear() {
    let mut state = AppModel::new();
    let mut interp = InterpState::new();
    interp.pane_req = 1;
    let _ = apply_outcome(
        &mut interp,
        &mut state,
        JobOutcome::RightPane {
            req_id: 1,
            target: graph_target(),
            load: PaneLoad::Diff {
                repo: "app".into(),
                path: "src.rs".into(),
                content: DiffContent::from_unified("diff --git a/src.rs".into()),
            },
        },
    );
    assert!(state.plain_diff_on_right);
    assert_eq!(state.right_diff.as_ref().map(|d| d.1.as_str()), Some("src.rs"));
    state.drill = DrillView::Files { repo: "app".into(), source: commit_source(), files: vec![commit_file("a")], cursor: 5 };
    let _ = apply_outcome(
        &mut interp,
        &mut state,
        JobOutcome::RightPane {
            req_id: 1,
            target: graph_target(),
            load: PaneLoad::CommitFiles {
                repo: "app".into(),
                source: commit_source(),
                files: vec![commit_file("a"), commit_file("b")],
            },
        },
    );
    assert!(matches!(state.drill, DrillView::Files { cursor: 1, .. }));
    state.graph = Some(mini_graph(&["aaa"]));
    let _ = apply_outcome(
        &mut interp,
        &mut state,
        JobOutcome::RightPane { req_id: 1, target: graph_target(), load: PaneLoad::Clear },
    );
    assert!(state.graph.is_none() && state.right_diff.is_none() && !state.plain_diff_on_right);
    assert_eq!(interp.autoload_gen, 0);
}

#[test]
fn repo_status_replaces_row_and_reloads_focused_pane() {
    let mut state = AppModel::new();
    focused(&mut state, "app");
    state.checkout_rows = vec![dummy_row("app"), dummy_row("lib")];
    let mut interp = InterpState::new();
    interp.snapshot_gen = 2;
    let jobs = apply_outcome(
        &mut interp,
        &mut state,
        JobOutcome::RepoStatus {
            gen: 2,
            path: "app".into(),
            row: Some(CheckoutBranchRow { repo: "app".into(), branch: "topic".into(), default_branch_override: None }),
            pane_changed: true,
        },
    );
    assert_eq!(jobs, vec![JobRequest::LoadPane { req_id: 1, target: graph_target() }]);
    let rows: Vec<(&str, &str)> = state.checkout_rows.iter().map(|r| (r.repo.as_str(), r.branch.as_str())).collect();
    assert_eq!(rows, vec![("lib", "main"), ("app", "topic")]);
    let jobs = apply_outcome(
        &mut interp,
        &mut state,
        JobOutcome::RepoStatus { gen: 2, path: "lib".into(), row: None, pane_changed: true },
    );
    assert!(jobs.is_empty(), "an unfocused checkout does not reload the pane");
    assert_eq!(state.checkout_rows.len(), 1);
}

#[test]
fn stale_repo_status_and_discovery_are_dropped() {
    let mut state = AppModel::new();
    focused(&mut state, "app");
    state.checkout_rows = vec![dummy_row("app"), dummy_row("lib")];
    let mut interp = InterpState::new();
    interp.snapshot_gen = 3;
    let jobs = apply_outcome(
        &mut interp,
        &mut state,
        JobOutcome::RepoStatus { gen: 2, path: "app".into(), row: None, pane_changed: true },
    );
    assert!(jobs.is_empty());
    assert_eq!(state.checkout_rows.len(), 2);
    let _ = apply_outcome(&mut interp, &mut state, JobOutcome::Discovered { gen: 2, paths: vec!["app".into()] });
    assert_eq!(state.checkout_rows.len(), 2);
    assert!(!interp.dirty);
    let _ = apply_outcome(&mut interp, &mut state, JobOutcome::Discovered { gen: 3, paths: vec!["app".into()] });
    let names: Vec<&str> = state.checkout_rows.iter().map(|row| row.repo.as_str()).collect();
    assert_eq!(names, vec!["app"]);
}

#[test]
fn watch_and_reload_hand_out_new_collect_generations() {
    let mut state = AppModel::new();
    focused(&mut state, "app");
    let mut interp = InterpState::new();
    let jobs = schedule_effect(&mut interp, &mut state, Effect::ReloadSnapshot);
    assert_eq!(jobs, vec![JobRequest::ReloadSnapshot { focused: Some("app".into()), gen: 1 }]);
    let jobs = schedule_effect(&mut interp, &mut state, Effect::ReloadRepo { repo: "app".into() });
    assert_eq!(jobs, vec![JobRequest::ReloadRepo { repo: "app".into(), gen: 1 }]);
}

fn sigs(pairs: &[(&str, &str)]) -> Vec<(String, String)> {
    pairs.iter().map(|(k, v)| (k.to_string(), v.to_string())).collect()
}

#[test]
fn focused_pane_reloads_on_its_own_signatures_only() {
    let id = Some("app@main".to_string());
    let before = sigs(&[("checkout:app", "1"), ("file:app:src/a.rs", "x"), ("file:lib:b.rs", "y"), ("repo:app", "r")]);
    let same = before.clone();
    assert!(!focused_repo_needs_pane(&id, &id, &before, &same, "app"));
    let other_repo = sigs(&[("checkout:app", "1"), ("file:app:src/a.rs", "x"), ("file:lib:b.rs", "z"), ("repo:app", "r")]);
    assert!(!focused_repo_needs_pane(&id, &id, &before, &other_repo, "app"), "another checkout's file moved");
    let own_file = sigs(&[("checkout:app", "1"), ("file:app:src/a.rs", "x2"), ("file:lib:b.rs", "y"), ("repo:app", "r")]);
    assert!(focused_repo_needs_pane(&id, &id, &before, &own_file, "app"));
    let gone_file = sigs(&[("checkout:app", "1"), ("file:lib:b.rs", "y"), ("repo:app", "r")]);
    assert!(focused_repo_needs_pane(&id, &id, &before, &gone_file, "app"));
    assert!(focused_repo_needs_pane(&id, &Some("app@topic".into()), &before, &same, "app"));
    assert!(!focused_repo_needs_pane(&id, &id, &before, &own_file, "application"), "prefix must match the whole repo");
}

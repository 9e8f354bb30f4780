use workspace_status::comments::live::{collect_live_set, LiveCheckout, UNKNOWN_HEAD_BRANCH};
use workspace_status::comments::store::{put_comment, CommentKey, CommentStore};
use workspace_status::comments::target::{
    commit_file_row_has_comment, covering_line_comment, diff_line_has_comment, gc_comments,
    graph_row_has_comment, viewport_line_number, viewport_line_range, CommentLiveSet, DETACHED_HEAD_BRANCH,
};
use workspace_status::diff::{DiffCell, DiffCellKind, DiffContent, DiffRow, DiffSection};
use workspace_status::drill::CommitFileSource;
use workspace_status::graph_load::{Commit, GraphRow, Stash, Worktree};

fn rows() -> Vec<DiffRow> {
    vec![
        DiffRow::Section(DiffSection::Unstaged),
        DiffRow::Line {
            left: DiffCell { kind: DiffCellKind::Ctx, text: "a".into(), line_no: Some(1) },
            right: Some(DiffCell { kind: DiffCellKind::Add, text: "b".into(), line_no: Some(2) }),
        },
    ]
}

#[test]
fn target_viewport_line_prefers_right_number() {
    let rows = rows();
    assert_eq!(viewport_line_number(&rows, 0), Some(2));
    assert_eq!(viewport_line_number(&rows, 1), Some(2));
    assert_eq!(viewport_line_number(&[], 0), None);
    assert_eq!(viewport_line_range(&rows, 0, 1), Some((2, 2)));
    assert_eq!(viewport_line_range(&rows, 0, 0), None);
    assert_eq!(viewport_line_range(&[], 0, 0), None);
    let _ = DiffContent::default();
}

#[test]
fn comments_viewport_line_prefers_right_number() {
    let rows = rows();
    assert_eq!(viewport_line_number(&rows, 0), Some(2));
    assert_eq!(viewport_line_number(&rows, 1), Some(2));
    assert_eq!(viewport_line_number(&[], 0), None);
    let _ = DiffContent::default();
}

fn worktree_line(line: u32, end_line: u32) -> CommentKey {
    CommentKey::WorktreeLine { repo: "app".into(), branch: "main".into(), path: "README.md".into(), line, end_line }
}

#[test]
fn covering_line_picks_tightest_then_lowest_start() {
    let probe = worktree_line(2, 2);
    let wide = worktree_line(1, 4);
    let mid = worktree_line(2, 3);
    let one = worktree_line(2, 2);
    let other_file = CommentKey::WorktreeLine {
        repo: "app".into(),
        branch: "main".into(),
        path: "other.md".into(),
        line: 1,
        end_line: 4,
    };
    let mut store = CommentStore::new();
    store = put_comment(&store, wide.clone(), "wide");
    store = put_comment(&store, other_file, "other");
    assert_eq!(covering_line_comment(&store, &probe), Some(wide.clone()));
    store = put_comment(&store, mid.clone(), "mid");
    assert_eq!(covering_line_comment(&store, &probe), Some(mid.clone()));
    store = put_comment(&store, one.clone(), "one");
    assert_eq!(covering_line_comment(&store, &probe), Some(one));

    let left = worktree_line(1, 3);
    let right = worktree_line(2, 4);
    let mut tied = CommentStore::new();
    tied = put_comment(&tied, right, "right");
    tied = put_comment(&tied, left.clone(), "left");
    assert_eq!(covering_line_comment(&tied, &probe), Some(left));
    assert!(covering_line_comment(&CommentStore::new(), &probe).is_none());
    assert!(covering_line_comment(&store, &worktree_line(9, 9)).is_none());
}

fn snap(repo: &str, branch: &str, primary: Option<&str>) -> LiveCheckout {
    LiveCheckout {
        repo: repo.into(),
        primary_repo: primary.map(str::to_string),
        sync_note: String::new(),
        branch: branch.into(),
        local_branches: Vec::new(),
    }
}

fn snap_with_branches(repo: &str, branch: &str, primary: Option<&str>, branches: &[&str]) -> LiveCheckout {
    let mut row = snap(repo, branch, primary);
    row.local_branches = branches.iter().map(|s| (*s).to_string()).collect();
    row
}

fn gone_branch_store() -> (CommentStore, CommentKey) {
    let branch = CommentKey::Branch { repo: "app".into(), branch: "feature/gone".into() };
    let line = CommentKey::WorktreeLine {
        repo: "app".into(),
        branch: "feature/gone".into(),
        path: "a.rs".into(),
        line: 1,
        end_line: 1,
    };
    let commit = CommentKey::Commit { repo: "app".into(), sha: "abc".into() };
    let mut store = CommentStore::new();
    store = put_comment(&store, branch, "b");
    store = put_comment(&store, line, "l");
    store = put_comment(&store, commit.clone(), "c");
    (store, commit)
}

#[test]
fn comments_gc_drops_gone_branch_keeps_commit() {
    let (store, commit) = gone_branch_store();
    let live = collect_live_set(&[snap_with_branches("app", "main", None, &["main"])], &store);
    let next = gc_comments(&store, &live);
    assert!(next.get(&commit).is_some());
    assert_eq!(next.len(), 1);
}

#[test]
fn target_gc_drops_gone_branch_keeps_commit() {
    let (store, commit) = gone_branch_store();
    let live = collect_live_set(&[snap_with_branches("app", "main", None, &["main"])], &store);
    let next = gc_comments(&store, &live);
    assert!(next.get(&commit).is_some());
    assert_eq!(next.len(), 1);
}

#[test]
fn gc_keeps_branch_comments_when_status_failed() {
    let mut row = snap("app", UNKNOWN_HEAD_BRANCH, None);
    row.sync_note = "status failed".into();
    let branch = CommentKey::Branch { repo: "app".into(), branch: "topic/keep".into() };
    let line = CommentKey::WorktreeLine {
        repo: "app".into(),
        branch: "topic/keep".into(),
        path: "a.rs".into(),
        line: 1,
        end_line: 1,
    };
    let mut store = CommentStore::new();
    store = put_comment(&store, branch.clone(), "b");
    store = put_comment(&store, line.clone(), "l");
    let live = collect_live_set(&[row], &store);
    let next = gc_comments(&store, &live);
    assert_eq!(next.get(&branch).map(String::as_str), Some("b"));
    assert_eq!(next.get(&line).map(String::as_str), Some("l"));
    assert!(!live.branches.contains(&("app".into(), "(unknown)".into())));
}

#[test]
fn gc_drops_deleted_branch_when_sibling_status_failed() {
    let primary = snap_with_branches("app", "main", None, &["main", "feature/linked-open"]);
    let mut linked = snap("app/.worktrees/feat", UNKNOWN_HEAD_BRANCH, Some("app"));
    linked.sync_note = "status failed".into();
    linked.local_branches = vec!["main".into(), "doomed".into(), "feature/linked-open".into()];
    let branch = CommentKey::Branch { repo: "app".into(), branch: "doomed".into() };
    let line = CommentKey::WorktreeLine {
        repo: "app".into(),
        branch: "doomed".into(),
        path: "a.rs".into(),
        line: 1,
        end_line: 1,
    };
    let mut store = CommentStore::new();
    store = put_comment(&store, branch.clone(), "b");
    store = put_comment(&store, line.clone(), "l");
    let live = collect_live_set(&[primary, linked], &store);
    let next = gc_comments(&store, &live);
    assert!(next.get(&branch).is_none());
    assert!(next.get(&line).is_none());
    assert!(!live.branches.contains(&("app".into(), "doomed".into())));
}

#[test]
fn watch_gc_keeps_detached_worktree_comment() {
    let key = CommentKey::Worktree { path: "app".into() };
    let store = put_comment(&CommentStore::new(), key.clone(), "detached note");
    let live = collect_live_set(&[snap("app", DETACHED_HEAD_BRANCH, None)], &store);
    let next = gc_comments(&store, &live);
    assert_eq!(next.get(&key).map(String::as_str), Some("detached note"));
}

#[test]
fn live_set_keys_linked_checkouts_by_primary_identity() {
    let commit = CommentKey::Commit { repo: "app".into(), sha: "abc".into() };
    let store = put_comment(&CommentStore::new(), commit.clone(), "c");
    let live = collect_live_set(&[snap_with_branches("app/.worktrees/x/", "x", Some("app/"), &["x"])], &store);
    assert_eq!(live.worktrees, vec!["app/.worktrees/x".to_string()]);
    assert_eq!(live.identities, vec!["app".to_string()]);
    assert!(live.branches.contains(&("app".into(), "x".into())));
    assert_eq!(live.commits, vec![("app".to_string(), "abc".to_string())]);
    let other = collect_live_set(&[snap("lib", "main", None)], &store);
    assert!(other.commits.is_empty());
}

#[test]
fn gc_keeps_detached_comments_while_the_checkout_lives() {
    let key = CommentKey::Worktree { path: "app".into() };
    let detached = CommentKey::Branch { repo: "app".into(), branch: DETACHED_HEAD_BRANCH.into() };
    let mut store = put_comment(&CommentStore::new(), key.clone(), "detached note");
    store = put_comment(&store, detached.clone(), "on detached head");
    let mut live = CommentLiveSet::default();
    live.worktrees.push("app".into());
    let next = gc_comments(&store, &live);
    assert_eq!(next.get(&key).map(String::as_str), Some("detached note"));
    assert_eq!(next.get(&detached).map(String::as_str), Some("on detached head"));
    assert!(gc_comments(&store, &CommentLiveSet::default()).is_empty());
}

#[test]
fn row_markers_follow_source_and_line() {
    let c = CommentKey::CommitLine { repo: "app".into(), sha: "abc".into(), path: "src/a.rs".into(), line: 3, end_line: 5 };
    let w = CommentKey::WorktreeLine { repo: "app".into(), branch: "main".into(), path: "b.rs".into(), line: 1, end_line: 1 };
    let mut store = put_comment(&CommentStore::new(), c, "c");
    store = put_comment(&store, w, "w");
    let commit = CommitFileSource::Commit { commit_id: "abc".into() };
    assert!(commit_file_row_has_comment(&store, "app", None, &commit, "src/a.rs", None));
    assert!(!commit_file_row_has_comment(&store, "app", None, &commit, "src/b.rs", None));
    assert!(!commit_file_row_has_comment(&store, "app", None, &CommitFileSource::Stash { stash_ref: "stash@{0}".into() }, "src/a.rs", None));
    assert!(commit_file_row_has_comment(&store, "wt", Some("app/"), &CommitFileSource::Worktree, "b.rs", Some("main")));
    assert!(!commit_file_row_has_comment(&store, "app", None, &CommitFileSource::Worktree, "b.rs", None));
    assert!(diff_line_has_comment(&store, "app", None, None, "src/a.rs", Some(&commit), 4));
    assert!(!diff_line_has_comment(&store, "app", None, None, "src/a.rs", Some(&commit), 6));
    assert!(diff_line_has_comment(&store, "app", None, Some("main"), "b.rs", None, 1));
    assert!(!diff_line_has_comment(&store, "app", None, None, "b.rs", None, 1));
}

fn commit_row(sha: &str) -> GraphRow {
    GraphRow::Commit {
        commit: Commit { id: sha.into(), subject: "subject".into(), ..Default::default() },
        is_head: false,
        worktrees: Vec::new(),
    }
}

#[test]
fn graph_commit_row_marks_object_and_file_comments() {
    let row = commit_row("abc");
    let mut store = CommentStore::new();
    assert!(!graph_row_has_comment(&store, "app", None, &row, None));
    store = put_comment(&store, CommentKey::Commit { repo: "app".into(), sha: "abc".into() }, "c");
    assert!(graph_row_has_comment(&store, "app", None, &row, None));
    assert!(!graph_row_has_comment(
        &store,
        "app",
        None,
        &GraphRow::Uncommitted { has_changes: true },
        Some("main")
    ));
}

#[test]
fn graph_commit_row_marks_file_line_comments() {
    let row = commit_row("abc");
    let store = put_comment(
        &CommentStore::new(),
        CommentKey::CommitLine {
            repo: "app".into(),
            sha: "abc".into(),
            path: "a.rs".into(),
            line: 3,
            end_line: 3,
        },
        "l",
    );
    assert!(graph_row_has_comment(&store, "app", None, &row, None));
    assert!(!graph_row_has_comment(&store, "app", None, &commit_row("other"), None));
    assert!(!graph_row_has_comment(&store, "app", None, &GraphRow::Stash(Stash::default()), None));
}

#[test]
fn graph_uncommitted_row_marks_worktree_line_comments() {
    let row = GraphRow::Uncommitted { has_changes: true };
    let store = put_comment(
        &CommentStore::new(),
        CommentKey::WorktreeLine {
            repo: "app".into(),
            branch: "main".into(),
            path: "README.md".into(),
            line: 2,
            end_line: 2,
        },
        "l",
    );
    assert!(graph_row_has_comment(&store, "app", None, &row, Some("main")));
    assert!(!graph_row_has_comment(&store, "app", None, &row, Some("other")));
    assert!(!graph_row_has_comment(&store, "app", None, &row, None));
}

#[test]
fn graph_worktree_row_marks_its_own_path_and_branch() {
    let wt = GraphRow::Worktree(Worktree { path: "app/.worktrees/topic/".into(), branch: Some("topic".into()) });
    let object = put_comment(
        &CommentStore::new(),
        CommentKey::Worktree { path: "app/.worktrees/topic".into() },
        "wt",
    );
    assert!(graph_row_has_comment(&object, "app", None, &wt, None));
    let line = put_comment(
        &CommentStore::new(),
        CommentKey::WorktreeLine {
            repo: "app".into(),
            branch: "topic".into(),
            path: "a.rs".into(),
            line: 1,
            end_line: 4,
        },
        "l",
    );
    assert!(graph_row_has_comment(&line, "app", None, &wt, Some("main")));
    let detached = GraphRow::Worktree(Worktree { path: "app/.worktrees/topic".into(), branch: None });
    assert!(!graph_row_has_comment(&line, "app", None, &detached, Some("topic")));
}

#[test]
fn gc_twice_changes_nothing_more() {
    let commit = CommentKey::Commit { repo: "app".into(), sha: "abc".into() };
    let gone = CommentKey::Commit { repo: "app".into(), sha: "old".into() };
    let wt = CommentKey::Worktree { path: "wt".into() };
    let mut store = put_comment(&CommentStore::new(), commit.clone(), "keep");
    store = put_comment(&store, gone.clone(), "drop");
    store = put_comment(&store, wt.clone(), "drop too");
    let mut live = CommentLiveSet::default();
    live.commits.push(("app".into(), "abc".into()));
    let once = gc_comments(&store, &live);
    let twice = gc_comments(&once, &live);
    assert_eq!(once.len(), 1);
    assert_eq!(once.get(&commit).map(String::as_str), Some("keep"));
    assert!(once.get(&gone).is_none());
    assert!(once.get(&wt).is_none());
    assert_eq!(twice.len(), once.len());
    assert_eq!(twice.get(&commit), once.get(&commit));
}

#[test]
fn covering_line_ranks_full_width_spans_exactly() {
    let whole = worktree_line(0, u32::MAX);
    let tail = worktree_line(1, u32::MAX);
    let mut store = CommentStore::new();
    store = put_comment(&store, whole, "whole");
    store = put_comment(&store, tail.clone(), "tail");
    assert_eq!(covering_line_comment(&store, &worktree_line(5, 5)), Some(tail));
}

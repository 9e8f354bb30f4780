use workspace_status::drill::{
    right_pane_job, source_from_graph_row, stash_ref_from_graph_row, CommitFile, CommitFileSource,
    DrillView, RightPaneFocus, RightPaneJob,
};
use workspace_status::graph_load::{Commit, GraphRow, Stash, Worktree};

fn commit_row(id: &str) -> GraphRow {
    GraphRow::Commit {
        commit: Commit {
            id: id.into(),
            subject: "s".into(),
            parents: Vec::new(),
            refs: Vec::new(),
            author_name: String::new(),
            author_date_unix: 0,
        },
        is_head: true,
        worktrees: Vec::new(),
    }
}

#[test]
fn graph_row_maps_to_commit_stash_worktree() {
    assert_eq!(
        source_from_graph_row(&commit_row("abc")),
        Some(CommitFileSource::Commit { commit_id: "abc".into() })
    );
    assert_eq!(
        source_from_graph_row(&GraphRow::Stash(Stash {
            stash_ref: "stash@{2}".into(),
            subject: "wip".into(),
            parent_id: None,
            ..Stash::default()
        })),
        Some(CommitFileSource::Stash { stash_ref: "stash@{2}".into() })
    );
    assert_eq!(
        source_from_graph_row(&GraphRow::Uncommitted { has_changes: true }),
        Some(CommitFileSource::Worktree)
    );
    assert_eq!(stash_ref_from_graph_row(&commit_row("abc")), None);
    assert_eq!(
        stash_ref_from_graph_row(&GraphRow::Stash(Stash {
            stash_ref: "stash@{1}".into(),
            subject: "wip".into(),
            parent_id: None,
            ..Stash::default()
        }))
        .as_deref(),
        Some("stash@{1}")
    );
}

#[test]
fn other_checkout_rows_have_no_source() {
    let row = GraphRow::Worktree(Worktree { path: "app/.worktrees/x".into(), branch: None });
    assert_eq!(source_from_graph_row(&row), None);
    assert_eq!(stash_ref_from_graph_row(&row), None);
}

#[test]
fn files_cursor_clamps() {
    assert_eq!(DrillView::files_cursor(&[], 3), 0);
    let files = vec![
        CommitFile { status: "M".into(), path: "a".into(), old_path: None },
        CommitFile { status: "A".into(), path: "b".into(), old_path: None },
    ];
    assert_eq!(DrillView::files_cursor(&files, 9), 1);
}

#[test]
fn right_pane_job_follows_priority() {
    let none = RightPaneFocus {
        follow_diff: false,
        in_graph: false,
        focused_file: false,
        graph_repo: false,
        same_repo: false,
        follow_files: false,
    };
    assert_eq!(right_pane_job(none), RightPaneJob::Nothing);
    assert_eq!(right_pane_job(RightPaneFocus { follow_files: true, ..none }), RightPaneJob::CommitFiles);
    assert_eq!(right_pane_job(RightPaneFocus { in_graph: true, ..none }), RightPaneJob::Clear);
    assert_eq!(
        right_pane_job(RightPaneFocus { in_graph: true, focused_file: true, graph_repo: true, ..none }),
        RightPaneJob::FileDiff
    );
    assert_eq!(
        right_pane_job(RightPaneFocus { graph_repo: true, same_repo: true, follow_files: true, ..none }),
        RightPaneJob::Graph { same_repo: true, with_files: true }
    );
    assert_eq!(
        right_pane_job(RightPaneFocus { follow_diff: true, in_graph: true, focused_file: true, ..none }),
        RightPaneJob::CommitDiff
    );
}

use workspace_status::comments::live::LiveCheckout;
use workspace_status::comments::scope::{
    comments_in_scope, graph_export_scope, resolve_diff_target, resolve_graph_target, scope_contains,
    resolve_tree_target, sole_non_default_branch, source_path_scope, tree_row_has_comment, ExportScope, TreeRowFacts,
    TreeRowKind,
};
use workspace_status::comments::store::{put_comment, CommentKey, CommentStore};
use workspace_status::drill::CommitFileSource;
use workspace_status::graph_load::{Commit, GraphRow, Worktree};

fn line(path: &str) -> CommentKey {
    CommentKey::WorktreeLine { repo: "app".into(), branch: "main".into(), path: path.into(), line: 1, end_line: 1 }
}

fn rows() -> Vec<LiveCheckout> {
    vec![
        LiveCheckout {
            repo: "app".into(),
            primary_repo: None,
            sync_note: String::new(),
            branch: "main".into(),
            local_branches: vec!["main".into()],
        },
        LiveCheckout {
            repo: "app/.worktrees/x".into(),
            primary_repo: Some("app".into()),
            sync_note: String::new(),
            branch: "x".into(),
            local_branches: vec![],
        },
    ]
}

fn store() -> CommentStore {
    let mut s = CommentStore::new();
    for (k, b) in [
        (line("src/a.rs"), "a"),
        (line("src/sub/b.rs"), "b"),
        (line("srcx/c.rs"), "c"),
        (line("README.md"), "r"),
        (CommentKey::Commit { repo: "app".into(), sha: "abc".into() }, "commit"),
        (CommentKey::Branch { repo: "app".into(), branch: "main".into() }, "branch"),
    ] {
        s = put_comment(&s, k, b);
    }
    s
}

#[test]
fn file_scope_copies_that_path_only() {
    let scope = source_path_scope(&rows(), "app", &CommitFileSource::Worktree, "src/a.rs", false);
    let got = comments_in_scope(&store(), &scope);
    assert_eq!(got.len(), 1);
    assert!(got.get(&line("src/a.rs")).is_some());
}

#[test]
fn folder_scope_copies_descendants_not_siblings() {
    let scope = source_path_scope(&rows(), "app", &CommitFileSource::Worktree, "src/", true);
    let got = comments_in_scope(&store(), &scope);
    assert_eq!(got.len(), 2);
    assert!(got.get(&line("src/a.rs")).is_some());
    assert!(got.get(&line("src/sub/b.rs")).is_some());
    assert!(got.get(&line("srcx/c.rs")).is_none());
}

#[test]
fn workspace_scope_copies_everything_and_empty_nothing() {
    assert_eq!(comments_in_scope(&store(), &ExportScope::All).len(), store().len());
    assert!(comments_in_scope(&store(), &ExportScope::Empty).is_empty());
    let stash = source_path_scope(&rows(), "app", &CommitFileSource::Stash { stash_ref: "stash@{0}".into() }, "a", false);
    assert_eq!(stash, ExportScope::Empty);
}

#[test]
fn graph_commit_scope_takes_that_commit() {
    let commit = Commit {
        id: "abc".into(),
        subject: String::new(),
        parents: Vec::new(),
        refs: Vec::new(),
        author_name: String::new(),
        author_date_unix: 0,
    };
    let row = GraphRow::Commit { commit, is_head: false, worktrees: Vec::new() };
    let scope = graph_export_scope(&rows(), Some("app"), Some(&row));
    let got = comments_in_scope(&store(), &scope);
    assert_eq!(got.len(), 1);
    assert!(got.get(&CommentKey::Commit { repo: "app".into(), sha: "abc".into() }).is_some());
    assert_eq!(graph_export_scope(&rows(), None, Some(&row)), ExportScope::Empty);
}

#[test]
fn graph_worktree_scope_uses_primary_identity_and_branch() {
    let wt = GraphRow::Worktree(Worktree { path: "app/.worktrees/x".into(), branch: Some("x".into()) });
    let scope = graph_export_scope(&rows(), Some("app"), Some(&wt));
    assert_eq!(
        scope,
        ExportScope::WorktreeObject { path: "app/.worktrees/x".into(), identity: "app".into(), branch: "x".into() }
    );
    assert!(scope_contains(&scope, &CommentKey::Worktree { path: "app/.worktrees/x".into() }));
    assert!(!scope_contains(&scope, &line("src/a.rs")));
}

#[test]
fn identities_scope_takes_paths_under_an_identity() {
    let scope = ExportScope::Identities(vec!["app".into()]);
    assert!(scope_contains(&scope, &CommentKey::Worktree { path: "app/.worktrees/x".into() }));
    assert!(!scope_contains(&scope, &CommentKey::Worktree { path: "apple".into() }));
    assert!(scope_contains(&scope, &line("x")));
}

#[test]
fn diff_target_orders_lines_and_picks_key_kind() {
    let src = CommitFileSource::Commit { commit_id: "abc".into() };
    assert_eq!(
        resolve_diff_target(&rows(), "app/.worktrees/x", "src/a.rs", Some(&src), 9, Some(3)),
        Some(CommentKey::CommitLine { repo: "app".into(), sha: "abc".into(), path: "src/a.rs".into(), line: 3, end_line: 9 })
    );
    assert_eq!(
        resolve_diff_target(&rows(), "app", "src/a.rs", None, 4, None),
        Some(CommentKey::WorktreeLine {
            repo: "app".into(),
            branch: "main".into(),
            path: "src/a.rs".into(),
            line: 4,
            end_line: 4,
        })
    );
    assert_eq!(resolve_diff_target(&rows(), "gone", "a", Some(&CommitFileSource::Worktree), 1, None), None);
    let stash = CommitFileSource::Stash { stash_ref: "stash@{0}".into() };
    assert_eq!(resolve_diff_target(&rows(), "app", "a", Some(&stash), 1, None), None);
}

#[test]
fn graph_target_keys() {
    let wt = GraphRow::Worktree(Worktree { path: "app/.worktrees/x/".into(), branch: None });
    assert_eq!(
        resolve_graph_target(&rows(), "app", &wt),
        Some(CommentKey::Worktree { path: "app/.worktrees/x".into() })
    );
    assert_eq!(
        resolve_graph_target(&rows(), "app/", &GraphRow::Uncommitted { has_changes: true }),
        Some(CommentKey::Worktree { path: "app".into() })
    );
}

fn tree_row(kind: TreeRowKind, repo: &str, file: Option<&str>) -> TreeRowFacts {
    TreeRowFacts {
        kind,
        repo: Some(repo.into()),
        primary_repo: None,
        file_path: file.map(str::to_string),
        branch: "main".into(),
        is_linked: false,
        is_family: false,
    }
}

#[test]
fn tree_rows_mark_their_own_comments() {
    let s = store();
    assert!(tree_row_has_comment(&s, &tree_row(TreeRowKind::File, "app", Some("src/a.rs"))));
    assert!(!tree_row_has_comment(&s, &tree_row(TreeRowKind::File, "app", Some("src/zzz.rs"))));
    assert!(tree_row_has_comment(&s, &tree_row(TreeRowKind::Checkout, "app", None)));
    let mut other = tree_row(TreeRowKind::Checkout, "app", None);
    other.branch = "topic".into();
    assert!(!tree_row_has_comment(&s, &other));
    other.is_family = true;
    assert!(tree_row_has_comment(&s, &other));
    let mut linked = tree_row(TreeRowKind::Checkout, "app/.worktrees/x", None);
    linked.primary_repo = Some("app".into());
    linked.is_linked = true;
    assert!(!tree_row_has_comment(&s, &linked));
    let s2 = put_comment(&s, CommentKey::Worktree { path: "app/.worktrees/x".into() }, "wt");
    assert!(tree_row_has_comment(&s2, &linked));
    assert!(!tree_row_has_comment(&s, &tree_row(TreeRowKind::Other, "app", None)));
    assert!(!tree_row_has_comment(&CommentStore::new(), &tree_row(TreeRowKind::Checkout, "app", None)));
}

#[test]
fn target_default_branch_row_is_repo_root_without_attach() {
    let snapshot = vec![LiveCheckout {
        repo: "app".into(),
        primary_repo: None,
        sync_note: String::new(),
        branch: "main".into(),
        local_branches: Vec::new(),
    }];
    let mut row = tree_row(TreeRowKind::Checkout, "app", None);
    assert!(resolve_tree_target(&snapshot, &row, true, &[]).is_none());
    row.kind = TreeRowKind::Other;
    row.repo = None;
    assert!(resolve_tree_target(&snapshot, &row, true, &[]).is_none());
}

#[test]
fn tree_targets_by_path_branch_or_sole_branch() {
    let mut row = tree_row(TreeRowKind::Checkout, "app/", None);
    row.branch = "topic".into();
    assert_eq!(
        resolve_tree_target(&rows(), &row, false, &["topic".to_string()]),
        Some(CommentKey::Branch { repo: "app".into(), branch: "topic".into() })
    );
    row.branch = "main".into();
    assert_eq!(
        resolve_tree_target(&rows(), &row, true, &["topic".to_string()]),
        Some(CommentKey::Branch { repo: "app".into(), branch: "topic".into() })
    );
    assert!(resolve_tree_target(&rows(), &row, true, &["a".to_string(), "b".to_string()]).is_none());
    row.is_linked = true;
    assert_eq!(resolve_tree_target(&rows(), &row, true, &[]), Some(CommentKey::Worktree { path: "app".into() }));
    row.is_linked = false;
    row.branch = "(detached)".into();
    assert_eq!(resolve_tree_target(&rows(), &row, false, &[]), Some(CommentKey::Worktree { path: "app".into() }));
    assert_eq!(sole_non_default_branch(&["x".to_string()]), Some("x".to_string()));
    assert_eq!(sole_non_default_branch(&[]), None);
}

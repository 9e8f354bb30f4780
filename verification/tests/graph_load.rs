use workspace_status::branches::GraphRef;
use workspace_status::graph_load::{
    autoload_limit, autoload_skip, classify_ref, merge_autoload, parse_ahead_behind,
    parse_commit_line, parse_stash_line, refresh_graph_limit, should_autoload, Commit, GraphModel,
    ShouldAutoload, Stash, DEFAULT_GRAPH_WINDOW,
};

#[test]
fn parse_diverged_counts() {
    assert_eq!(parse_ahead_behind("diverged (ahead 2, behind 1)"), (2, 1));
    assert_eq!(parse_ahead_behind("ahead by 3 commits"), (3, 0));
    assert_eq!(parse_ahead_behind("behind by 4 commits"), (0, 4));
}

#[test]
fn classify_ref_kinds() {
    assert_eq!(classify_ref("refs/heads/main", "main"), Some(GraphRef::local("main")));
    assert_eq!(classify_ref("refs/remotes/origin/main", "origin/main"), Some(GraphRef::remote("origin/main")));
    assert_eq!(classify_ref("refs/remotes/upstream/main", "upstream/main"), Some(GraphRef::remote("upstream/main")));
    assert_eq!(classify_ref("refs/tags/v1.0", "v1.0"), Some(GraphRef::tag("v1.0")));
    assert_eq!(classify_ref("refs/remotes/origin/HEAD", "origin/HEAD"), None);
}

#[test]
fn parse_commit_line_loads_author_and_date() {
    let line = "abc123\0parent1 parent2\0fix login\0Ada Lovelace\x001700000000";
    let commit = parse_commit_line(line, &[]).expect("commit");
    assert_eq!(commit.id, "abc123");
    assert_eq!(commit.parents, vec!["parent1", "parent2"]);
    assert_eq!(commit.subject, "fix login");
    assert_eq!(commit.author_name, "Ada Lovelace");
    assert_eq!(commit.author_date_unix, 1_700_000_000);
}

#[test]
fn parse_stash_line_loads_id_date_and_author() {
    let line = "stash@{1}\0s1abcdef\0parentsha othersha\0WIP on main\x001700000000\0Ada Lovelace";
    let stash = parse_stash_line(line).expect("stash");
    assert_eq!(stash.stash_ref, "stash@{1}");
    assert_eq!(stash.id, "s1abcdef");
    assert_eq!(stash.parent_id.as_deref(), Some("parentsha"));
    assert_eq!(stash.subject, "WIP on main");
    assert_eq!(stash.author_date_unix, 1_700_000_000);
    assert_eq!(stash.author_name, "Ada Lovelace");
}

#[test]
fn parse_stash_line_skips_missing_id() {
    assert!(parse_stash_line("stash@{0}\0\0parent\0wip\x001\0Ada").is_none());
}

#[test]
fn should_autoload_only_at_end_when_has_more() {
    assert!(should_autoload(ShouldAutoload { cursor_index: 9, loaded_count: 10, has_more: true, loading: false }));
    assert!(!should_autoload(ShouldAutoload { cursor_index: 8, loaded_count: 10, has_more: true, loading: false }));
    assert!(!should_autoload(ShouldAutoload { cursor_index: 9, loaded_count: 10, has_more: false, loading: false }));
    assert!(!should_autoload(ShouldAutoload { cursor_index: 9, loaded_count: 10, has_more: true, loading: true }));
}

#[test]
fn commit_lines_pick_refs_and_tolerate_short_lines() {
    let refs = vec![
        ("abc".to_string(), GraphRef::local("main")),
        ("zzz".to_string(), GraphRef::tag("v0")),
        ("abc".to_string(), GraphRef::remote("origin/main")),
    ];
    let c = parse_commit_line("abc", &refs).expect("commit");
    assert_eq!(c.refs, vec![GraphRef::local("main"), GraphRef::remote("origin/main")]);
    assert!(c.parents.is_empty());
    assert_eq!(c.subject, "");
    assert_eq!(c.author_date_unix, 0);
    assert!(parse_commit_line("\0p\0s", &refs).is_none());
    let bad_date = parse_commit_line("x\0\0s\0a\0soon", &[]).expect("commit");
    assert_eq!(bad_date.author_date_unix, 0);
    assert_eq!(parse_ahead_behind("ahead 99999999999"), (0, 0));
    assert!(!should_autoload(ShouldAutoload { cursor_index: 0, loaded_count: 0, has_more: true, loading: false }));
}

#[test]
fn default_window_is_300() {
    assert_eq!(DEFAULT_GRAPH_WINDOW, 300);
}

fn empty_commit(id: &str) -> Commit {
    Commit {
        id: id.into(),
        subject: id.into(),
        parents: Vec::new(),
        refs: Vec::new(),
        author_name: String::new(),
        author_date_unix: 0,
    }
}

#[test]
fn merge_autoload_uses_window_not_commits_len() {
    let extra = empty_commit("stash-parent");
    let current = GraphModel {
        commits: vec![empty_commit("w0"), empty_commit("w1"), extra.clone()],
        skip: 0,
        limit: 2,
        has_more: true,
        window: 2,
        uncommitted: Some(false),
        ..GraphModel::default()
    };
    let page = GraphModel {
        commits: vec![empty_commit("win-2")],
        skip: 2,
        limit: 2,
        has_more: false,
        window: 1,
        uncommitted: Some(false),
        ..GraphModel::default()
    };
    assert_eq!(autoload_skip(&current), 2);
    let merged = merge_autoload(&current, page);
    assert_eq!(merged.window, 3);
    assert!(!merged.has_more);
    assert_eq!(merged.skip, 0);
    assert_eq!(merged.limit, 2);
    assert_eq!(
        merged.commits.iter().map(|c| c.id.as_str()).collect::<Vec<_>>(),
        vec!["w0", "w1", "win-2", "stash-parent"]
    );
    assert_eq!(autoload_skip(&merged), 3);
    assert_eq!(refresh_graph_limit(Some(&merged)), DEFAULT_GRAPH_WINDOW);
    let grown = GraphModel { window: 400, limit: 300, ..merged };
    assert_eq!(refresh_graph_limit(Some(&grown)), 400);
}

fn with_parents(id: &str, parents: &[&str]) -> Commit {
    Commit { parents: parents.iter().map(|p| p.to_string()).collect(), ..empty_commit(id) }
}

#[test]
fn merge_autoload_drops_repeats_and_unions_extra_parents() {
    let current = GraphModel {
        commits: vec![empty_commit("a"), empty_commit("b"), with_parents("x", &["p1"])],
        window: 2,
        limit: 0,
        skip: 5,
        uncommitted: Some(true),
        show_ignored: true,
        ..GraphModel::default()
    };
    let page = GraphModel {
        commits: vec![
            empty_commit("b"),
            empty_commit("c"),
            empty_commit("c"),
            with_parents("x", &["p1", "p2"]),
            empty_commit("a"),
        ],
        window: 3,
        stashes: vec![Stash { stash_ref: "stash@{0}".into(), ..Stash::default() }],
        has_more: true,
        uncommitted: None,
        ..GraphModel::default()
    };
    let merged = merge_autoload(&current, page);
    let ids: Vec<&str> = merged.commits.iter().map(|c| c.id.as_str()).collect();
    assert_eq!(ids, vec!["a", "b", "c", "x"]);
    assert_eq!(merged.window, 3);
    assert_eq!(merged.commits[3].parents, vec!["p1".to_string(), "p2".to_string()]);
    assert_eq!(merged.skip, 5);
    assert_eq!(merged.limit, DEFAULT_GRAPH_WINDOW);
    assert_eq!(merged.uncommitted, Some(true));
    assert!(merged.show_ignored);
    assert!(merged.has_more);
    assert_eq!(merged.stashes.len(), 1);
}

#[test]
fn autoload_limit_falls_back_to_default() {
    let g = GraphModel { limit: 0, ..GraphModel::default() };
    assert_eq!(autoload_limit(&g), 300);
    let g = GraphModel { limit: 50, ..GraphModel::default() };
    assert_eq!(autoload_limit(&g), 50);
    assert_eq!(refresh_graph_limit(None), 300);
}

use workspace_status::comments::store::{
    comment_store_path_from_env, into_record, ordered_line_range, put_comment, put_comment_entry,
    record_pair, repo_identity, store_from_records, CommentKey, CommentRecord, CommentStore,
};

fn branch_key() -> CommentKey {
    CommentKey::Branch { repo: "app".into(), branch: "feature/x".into() }
}

#[test]
fn store_empty_body_deletes() {
    let key = branch_key();
    let mut store = CommentStore::new();
    store = put_comment(&store, key.clone(), "note");
    assert_eq!(store.get(&key).map(String::as_str), Some("note"));
    store = put_comment(&store, key.clone(), "  ");
    assert!(store.is_empty());
}

#[test]
fn comments_empty_body_deletes() {
    let key = CommentKey::Branch { repo: "app".into(), branch: "feature/x".into() };
    let mut store = CommentStore::new();
    store = put_comment(&store, key.clone(), "note");
    assert_eq!(store.get(&key).map(String::as_str), Some("note"));
    store = put_comment(&store, key.clone(), "  ");
    assert!(store.is_empty());
}

#[test]
fn store_store_path_prefers_override_then_xdg() {
    assert_eq!(comment_store_path_from_env(Some("/tmp/comments.json"), None, None), "/tmp/comments.json");
    assert_eq!(
        comment_store_path_from_env(None, Some("/xdg/state"), Some("/home/user")),
        "/xdg/state/my-workspace-status/comments.json"
    );
    assert_eq!(
        comment_store_path_from_env(None, None, Some("/home/user")),
        "/home/user/.local/state/my-workspace-status/comments.json"
    );
}

#[test]
fn comments_store_path_prefers_override_then_xdg() {
    assert_eq!(comment_store_path_from_env(Some("  /tmp/c.json "), Some("/x"), None), "/tmp/c.json");
    assert_eq!(comment_store_path_from_env(Some("   "), None, Some("")), "/.local/state/my-workspace-status/comments.json");
    assert_eq!(
        comment_store_path_from_env(None, Some("/xdg/"), None),
        "/xdg/my-workspace-status/comments.json"
    );
}

#[test]
fn read_after_write_and_other_keys_untouched() {
    let a = CommentKey::Commit { repo: "app".into(), sha: "abc".into() };
    let b = CommentKey::Worktree { path: "app".into() };
    let mut store = put_comment(&CommentStore::new(), a.clone(), "first");
    store = put_comment(&store, b.clone(), "second");
    store = put_comment_entry(&store, a.clone(), "rewritten", true);
    assert_eq!(store.get(&a).map(String::as_str), Some("rewritten"));
    assert!(store.get_entry(&a).unwrap().resolved);
    assert_eq!(store.get(&b).map(String::as_str), Some("second"));
    assert_eq!(store.len(), 2);
}

#[test]
fn entries_come_out_in_key_order() {
    let keys = vec![
        CommentKey::CommitLine { repo: "a".into(), sha: "s".into(), path: "p".into(), line: 2, end_line: 2 },
        CommentKey::WorktreeLine { repo: "a".into(), branch: "m".into(), path: "p".into(), line: 9, end_line: 9 },
        CommentKey::WorktreeLine { repo: "a".into(), branch: "m".into(), path: "p".into(), line: 3, end_line: 7 },
        CommentKey::WorktreeLine { repo: "a".into(), branch: "m".into(), path: "p".into(), line: 3, end_line: 4 },
        CommentKey::Worktree { path: "w".into() },
        CommentKey::Commit { repo: "a".into(), sha: "s".into() },
        CommentKey::Branch { repo: "b".into(), branch: "x".into() },
        CommentKey::Branch { repo: "a".into(), branch: "z".into() },
    ];
    let mut store = CommentStore::new();
    for k in &keys {
        store = put_comment(&store, k.clone(), "x");
    }
    let got: Vec<CommentKey> = store.entries().iter().map(|(k, _)| k.clone()).collect();
    let mut want = keys.clone();
    want.reverse();
    assert_eq!(got, want);
}

#[test]
fn records_round_trip_and_legacy_end_line() {
    let key = CommentKey::WorktreeLine { repo: "app".into(), branch: "main".into(), path: "README.md".into(), line: 2, end_line: 2 };
    let store = put_comment(&CommentStore::new(), key.clone(), "wt line");
    let (k, e) = &store.entries()[0];
    let rec = into_record(k, e);
    match &rec {
        CommentRecord::WorktreeLine { end_line, .. } => assert_eq!(*end_line, None),
        other => panic!("unexpected {other:?}"),
    }
    let back = store_from_records(&vec![rec]);
    assert_eq!(back.get(&key).map(String::as_str), Some("wt line"));
    let legacy = CommentRecord::CommitLine {
        repo: "app".into(),
        sha: "s".into(),
        path: "a".into(),
        line: 7,
        end_line: Some(3),
        body: "span".into(),
        resolved: false,
    };
    let (k, _) = record_pair(&legacy).unwrap();
    assert_eq!(k, CommentKey::CommitLine { repo: "app".into(), sha: "s".into(), path: "a".into(), line: 3, end_line: 7 });
    let blank = CommentRecord::Worktree { path: "p".into(), body: "  ".into(), resolved: false };
    assert!(record_pair(&blank).is_none());
    assert!(store_from_records(&vec![blank]).is_empty());
}

#[test]
fn identity_and_line_helpers() {
    assert_eq!(repo_identity("/tmp/feature-wt", Some("/tmp/app/")), "/tmp/app");
    assert_eq!(repo_identity("/tmp/app//", None), "/tmp/app");
    assert_eq!(repo_identity("/", None), "/");
    assert_eq!(ordered_line_range(5, 2), (2, 5));
    assert_eq!(ordered_line_range(2, 5), (2, 5));
    let k = CommentKey::CommitLine { repo: "a".into(), sha: "s".into(), path: "p".into(), line: 3, end_line: 5 };
    assert!(k.covers_line(3) && k.covers_line(5) && !k.covers_line(6));
    assert!(!CommentKey::Worktree { path: "p".into() }.covers_line(1));
}

#[test]
fn save_then_load_keeps_every_entry() {
    let mut store = CommentStore::new();
    store = put_comment(&store, CommentKey::Commit { repo: "app".into(), sha: "abc".into() }, "c");
    store = put_comment(&store, CommentKey::Worktree { path: "app".into() }, "w");
    store = put_comment(
        &store,
        CommentKey::CommitLine { repo: "app".into(), sha: "abc".into(), path: "a.rs".into(), line: 2, end_line: 9 },
        "span",
    );
    store = put_comment(&store, CommentKey::Branch { repo: "app".into(), branch: "main".into() }, "b");
    let records: Vec<CommentRecord> = store.entries().iter().map(|(k, e)| into_record(k, e)).collect();
    let back = store_from_records(&records);
    assert_eq!(back, store);
}

use workspace_status::comments::export::{base64_encode, export_markdown, RESOLVED_MARKDOWN_TAG};
use workspace_status::comments::store::{put_comment, put_comment_entry, CommentKey, CommentStore};

#[test]
fn export_export_markdown_lists_live_omits_chrome() {
    let mut store = CommentStore::new();
    store = put_comment(
        &store,
        CommentKey::WorktreeLine {
            repo: "app".into(),
            branch: "main".into(),
            path: "README.md".into(),
            line: 2,
            end_line: 2,
        },
        "dirty line",
    );
    store = put_comment(&store, CommentKey::Commit { repo: "merger".into(), sha: "deadbeef".into() }, "commit note");
    let md = export_markdown(&store);
    assert!(md.contains("# Comments"));
    assert!(md.contains("app"));
    assert!(md.contains("branch `main`"));
    assert!(md.contains("`README.md`:2"));
    assert!(md.contains("dirty line"));
    assert!(md.contains("merger"));
    assert!(md.contains("commit `deadbeef`"));
    assert!(md.contains("commit note"));
    assert!(!md.contains("tokyo-night"));
    assert!(!md.contains("\"kind\""));
    assert!(!md.contains(RESOLVED_MARKDOWN_TAG), "open comments must not carry the resolved tag: {md}");
    store = put_comment_entry(
        &store,
        CommentKey::Commit { repo: "merger".into(), sha: "deadbeef".into() },
        "commit note",
        true,
    );
    let md = export_markdown(&store);
    assert!(md.contains("commit note"));
    assert!(
        md.contains(&format!("commit `deadbeef` {RESOLVED_MARKDOWN_TAG}")),
        "resolved object comments must tag the heading: {md}"
    );
    store = put_comment_entry(
        &store,
        CommentKey::WorktreeLine {
            repo: "app".into(),
            branch: "main".into(),
            path: "README.md".into(),
            line: 2,
            end_line: 2,
        },
        "dirty line",
        true,
    );
    let md = export_markdown(&store);
    assert!(md.contains("dirty line"));
    assert!(
        md.contains(&format!("`README.md`:2 {RESOLVED_MARKDOWN_TAG} — dirty line")),
        "resolved line comments stay in the copy with a tag: {md}"
    );
}

#[test]
fn export_markdown_keeps_multiline_line_comment_in_one_bullet() {
    let store = put_comment_entry(
        &CommentStore::new(),
        CommentKey::WorktreeLine {
            repo: "app".into(),
            branch: "main".into(),
            path: "README.md".into(),
            line: 2,
            end_line: 2,
        },
        "one\n# heading\n- list\n\nmore",
        true,
    );
    let md = export_markdown(&store);
    assert!(
        md.contains(&format!(
            "`README.md`:2 {RESOLVED_MARKDOWN_TAG} — one\n  > # heading\n  > - list\n  >\n  > more\n"
        )),
        "continuation lines must stay quoted inside the bullet:\n{md}"
    );
    assert_eq!(md.matches("- `").count(), 1, "multiline body must not open extra bullets:\n{md}");
    assert!(
        !md.lines().any(|line| line == "# heading" || line == "- list" || line == "more"),
        "heading / list / blank-line body must not start a new block:\n{md}"
    );
}

#[test]
fn export_base64_encode_known_vector() {
    assert_eq!(base64_encode(b""), "");
    assert_eq!(base64_encode(b"f"), "Zg==");
    assert_eq!(base64_encode(b"fo"), "Zm8=");
    assert_eq!(base64_encode(b"foo"), "Zm9v");
    assert_eq!(base64_encode(b"foob"), "Zm9vYg==");
    assert_eq!(base64_encode(b"fooba"), "Zm9vYmE=");
    assert_eq!(base64_encode(b"foobar"), "Zm9vYmFy");
    assert_eq!(base64_encode(b"hi"), "aGk=");
    assert_eq!(base64_encode(b"hi!"), "aGkh");
}

#[test]
fn base64_encode_handles_multibyte_and_high_bytes() {
    assert_eq!(base64_encode("é".as_bytes()), "w6k=");
    assert_eq!(base64_encode("🎉".as_bytes()), "8J+OiQ==");
    assert_eq!(base64_encode(&[0xff, 0xef, 0xbe]), "/+++");
    assert_eq!(base64_encode(&[0x00, 0x00, 0x00]), "AAAA");
}

#[test]
fn comments_export_markdown_lists_live_omits_chrome() {
    let mut store = CommentStore::new();
    store = put_comment(
        &store,
        CommentKey::WorktreeLine {
            repo: "app".into(),
            branch: "main".into(),
            path: "README.md".into(),
            line: 2,
            end_line: 2,
        },
        "dirty line",
    );
    store = put_comment(&store, CommentKey::Commit { repo: "merger".into(), sha: "deadbeef".into() }, "commit note");
    let md = export_markdown(&store);
    assert!(md.contains("# Comments"));
    assert!(md.contains("app"));
    assert!(md.contains("branch `main`"));
    assert!(md.contains("`README.md`:2"));
    assert!(md.contains("dirty line"));
    assert!(md.contains("merger"));
    assert!(md.contains("commit `deadbeef`"));
    assert!(md.contains("commit note"));
    assert!(!md.contains("tokyo-night"));
    assert!(!md.contains("\"kind\""));
}

#[test]
fn comments_base64_encode_known_vector() {
    assert_eq!(base64_encode(b"hi"), "aGk=");
    assert_eq!(base64_encode(b"hi!"), "aGkh");
}

#[test]
fn export_exact_layout_for_object_and_range_comments() {
    assert_eq!(export_markdown(&CommentStore::new()), "# Comments\n\nNo comments.\n");
    let mut store = put_comment(&CommentStore::new(), CommentKey::Worktree { path: "wt".into() }, "a\n\nb  ");
    store = put_comment(
        &store,
        CommentKey::CommitLine { repo: "r".into(), sha: "s".into(), path: "p".into(), line: 3, end_line: 5 },
        "x",
    );
    assert_eq!(
        export_markdown(&store),
        "# Comments\n\n## wt — worktree\n\n> a\n>\n> b\n\n## r — commit `s`\n\n- `p`:3-5 — x\n"
    );
}

use workspace_status::comments::overlay::{
    comment_key_label, comment_overlay_footer_save, visible_window, COMMENT_OVERLAY_FOOTER_EDIT,
};
use workspace_status::comments::store::CommentKey;

#[test]
fn footer_advertises_resolve_toggle() {
    assert!(comment_overlay_footer_save(true).contains("Ctrl-R unresolve"));
    assert!(comment_overlay_footer_save(false).contains("Ctrl-R resolve"));
    assert_eq!(comment_overlay_footer_save(false), "Enter save · empty deletes · Ctrl-R resolve · Esc cancel");
    assert!(COMMENT_OVERLAY_FOOTER_EDIT.contains("Shift+Enter newline"));
}

#[test]
fn key_labels_shorten_shas_to_seven() {
    assert_eq!(
        comment_key_label(&CommentKey::Commit { repo: "app".into(), sha: "abcdef1234".into() }),
        "app · commit abcdef1"
    );
    assert_eq!(
        comment_key_label(&CommentKey::WorktreeLine {
            repo: "app".into(),
            branch: "main".into(),
            path: "a.rs".into(),
            line: 2,
            end_line: 4,
        }),
        "app · branch main · a.rs:2-4"
    );
    assert_eq!(comment_key_label(&CommentKey::Worktree { path: "wt".into() }), "wt · worktree");
    assert_eq!(
        comment_key_label(&CommentKey::CommitLine { repo: "r".into(), sha: "abc".into(), path: "p".into(), line: 1, end_line: 1 }),
        "r · commit abc · p:1"
    );
}

#[test]
fn body_window_follows_the_caret() {
    assert_eq!(visible_window(0, 3, 8), (0, 3));
    assert_eq!(visible_window(10, 20, 8), (6, 14));
    assert_eq!(visible_window(19, 20, 8), (12, 20));
    assert_eq!(visible_window(0, 0, 0), (0, 1));
}

use workspace_status::editor::{editor_command, is_detached_editor, parse_editor_argv, resolve_editor};

#[test]
fn resolve_prefers_config_then_editor() {
    assert_eq!(resolve_editor(Some("nvim"), Some("vim"), Some("vi")), "nvim");
    assert_eq!(resolve_editor(Some("  "), Some("vim"), None), "vim");
    assert_eq!(resolve_editor(None, None, None), "vim");
    assert_eq!(resolve_editor(None, None, Some("nano")), "nano");
}

#[test]
fn parse_quoted_and_flags() {
    assert_eq!(parse_editor_argv(r#"cursor --wait"#), vec!["cursor", "--wait"]);
    assert_eq!(
        parse_editor_argv(r#""/path with spaces/vim" -p"#),
        vec!["/path with spaces/vim", "-p"]
    );
}

#[test]
fn detached_gui_vs_tty() {
    assert!(is_detached_editor("cursor"));
    assert!(is_detached_editor("code --wait"));
    assert!(!is_detached_editor("vim"));
    assert!(!is_detached_editor("nvim -p"));
}

#[test]
fn plus_line_for_vim() {
    let (cmd, args) = editor_command("vim", "README.md", Some(12));
    assert_eq!(cmd, "vim");
    assert_eq!(args, vec!["+12", "README.md"]);
}

#[test]
fn goto_flag_for_code_with_path_prefix() {
    let (cmd, args) = editor_command("/usr/bin/code --wait", "src/main.rs", Some(7));
    assert_eq!(cmd, "/usr/bin/code");
    assert_eq!(args, vec!["--wait", "-g", "src/main.rs:7"]);
}

#[test]
fn unknown_editor_gets_plain_path() {
    let (cmd, args) = editor_command("emacs -nw", "a.txt", Some(3));
    assert_eq!(cmd, "emacs");
    assert_eq!(args, vec!["-nw", "a.txt"]);
    let (cmd, args) = editor_command("", "a.txt", None);
    assert_eq!(cmd, "");
    assert_eq!(args, vec!["a.txt"]);
}

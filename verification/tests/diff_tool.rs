use workspace_status::diff_tool::{diff_tool_command, resolve_diff_tool};

#[test]
fn resolve_none_blank_whitespace_is_vimdiff() {
    assert_eq!(resolve_diff_tool(None), "vimdiff");
    assert_eq!(resolve_diff_tool(Some("")), "vimdiff");
    assert_eq!(resolve_diff_tool(Some("   ")), "vimdiff");
}

#[test]
fn resolve_non_blank_config_wins() {
    assert_eq!(resolve_diff_tool(Some("cursor --diff")), "cursor --diff");
    assert_eq!(resolve_diff_tool(Some("  nvim -d  ")), "nvim -d");
}

#[test]
fn vimdiff_appends_left_then_right() {
    let (cmd, args) = diff_tool_command("vimdiff", "/tmp/left", "/repo/file.rs");
    assert_eq!(cmd, "vimdiff");
    assert_eq!(args, vec!["/tmp/left", "/repo/file.rs"]);
}

#[test]
fn cursor_diff_appends_paths_when_no_placeholders() {
    let (cmd, args) = diff_tool_command("cursor --diff", "/tmp/left", "/repo/file.rs");
    assert_eq!(cmd, "cursor");
    assert_eq!(args, vec!["--diff", "/tmp/left", "/repo/file.rs"]);
}

#[test]
fn code_diff_wait_appends_paths() {
    let (cmd, args) = diff_tool_command("code --diff --wait", "/l", "/r");
    assert_eq!(cmd, "code");
    assert_eq!(args, vec!["--diff", "--wait", "/l", "/r"]);
}

#[test]
fn local_remote_placeholders_substitute_paths() {
    let (cmd, args) = diff_tool_command("vimdiff $LOCAL $REMOTE", "/tmp/left", "/repo/file.rs");
    assert_eq!(cmd, "vimdiff");
    assert_eq!(args, vec!["/tmp/left", "/repo/file.rs"]);
}

#[test]
fn remote_local_placeholders_swap_order() {
    let (cmd, args) = diff_tool_command("tool $REMOTE $LOCAL", "/left", "/right");
    assert_eq!(cmd, "tool");
    assert_eq!(args, vec!["/right", "/left"]);
}

#[test]
fn placeholders_inside_a_token_are_replaced() {
    let (cmd, args) = diff_tool_command(
        "tool --left=$LOCAL --right=$REMOTE",
        "/tmp/left",
        "/repo/file.rs",
    );
    assert_eq!(cmd, "tool");
    assert_eq!(args, vec!["--left=/tmp/left", "--right=/repo/file.rs"]);
}

#[test]
fn placeholder_in_program_is_substituted_too() {
    let (cmd, args) = diff_tool_command("$LOCAL-viewer x", "L", "R");
    assert_eq!(cmd, "L-viewer");
    assert_eq!(args, vec!["x"]);
}

#[test]
fn empty_tool_string_runs_empty_program_with_both_paths() {
    let (cmd, args) = diff_tool_command("", "L", "R");
    assert_eq!(cmd, "");
    assert_eq!(args, vec!["L", "R"]);
}

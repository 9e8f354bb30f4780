use workspace_status::action::{Action, PaletteOpenedBy};
use workspace_status::command_palette::{
    command_matches, filter_commands, palette_commands, visible_groups, CommandGroup,
    CommandPaletteState, PalettePaintRow,
};

fn titles(query: &str) -> Vec<&'static str> {
    filter_commands(query)
        .into_iter()
        .map(|c| c.title)
        .collect()
}

#[test]
fn catalog_has_required_titles_keys_groups() {
    let wanted = [
        (
            "Search focused pane",
            "/",
            CommandGroup::Move,
            Action::SearchStart,
        ),
        ("Stage", "s", CommandGroup::Git, Action::Stage),
        ("Unstage", "u", CommandGroup::Git, Action::Unstage),
        ("Revert", "x", CommandGroup::Git, Action::Revert),
        ("Stash menu", "S", CommandGroup::Git, Action::StashMenu),
        ("Fetch remotes", "f", CommandGroup::Git, Action::Fetch),
        ("Pull behind", "p", CommandGroup::Git, Action::Pull),
        ("Push", "P", CommandGroup::Git, Action::Push),
        (
            "Default branch",
            "d",
            CommandGroup::Git,
            Action::DefaultBranch,
        ),
        ("Branch picker", "b", CommandGroup::Git, Action::Branch),
        (
            "Checkout commit refs",
            "b",
            CommandGroup::Git,
            Action::GraphCheckout,
        ),
        (
            "Create branch at commit",
            "c",
            CommandGroup::Git,
            Action::GraphCreateBranch,
        ),
        (
            "Merge into HEAD",
            "m",
            CommandGroup::Git,
            Action::GraphMerge,
        ),
        (
            "Remove worktree",
            "W",
            CommandGroup::Git,
            Action::RemoveWorktree,
        ),
        (
            "Apply stash",
            "a",
            CommandGroup::Git,
            Action::GraphStashApply,
        ),
        ("Pop stash", "p", CommandGroup::Git, Action::GraphStashPop),
        ("Drop stash", "D", CommandGroup::Git, Action::GraphStashDrop),
        ("Open in editor", "e", CommandGroup::Git, Action::Edit),
        (
            "Open in diff tool",
            "E",
            CommandGroup::Git,
            Action::ExternalDiff,
        ),
        ("Refresh", "r", CommandGroup::Git, Action::Refresh),
        (
            "Mark reviewed",
            "space",
            CommandGroup::Git,
            Action::ToggleReviewed,
        ),
        ("Keymap help", "?", CommandGroup::View, Action::ToggleHelp),
        ("Cycle theme", "T", CommandGroup::View, Action::CycleTheme),
        (
            "Flat / tree",
            "t",
            CommandGroup::View,
            Action::ToggleTreeMode,
        ),
        (
            "Show ignored",
            ".",
            CommandGroup::View,
            Action::ToggleShowIgnored,
        ),
        (
            "Inline / split",
            "i",
            CommandGroup::View,
            Action::ToggleDiffMode,
        ),
        ("Toggle mouse", "m", CommandGroup::View, Action::ToggleMouse),
        (
            "Full-file context",
            "Ctrl-o",
            CommandGroup::View,
            Action::ToggleFullContext,
        ),
        (
            "Graph focus branches",
            "o",
            CommandGroup::View,
            Action::GraphFocusBranches,
        ),
        (
            "Clear graph focus",
            "O",
            CommandGroup::View,
            Action::GraphFocusClear,
        ),
        ("Comment", ";", CommandGroup::View, Action::CommentStart),
        (
            "Highlight diff lines",
            "V",
            CommandGroup::View,
            Action::DiffVisualStart,
        ),
        (
            "Copy comments",
            "y",
            CommandGroup::View,
            Action::ExportComments,
        ),
        (
            "Copy entity reference",
            "'",
            CommandGroup::View,
            Action::CopyEntityReference,
        ),
    ];
    assert_eq!(palette_commands().len(), wanted.len());
    for (i, (title, keys, group, action)) in wanted.iter().enumerate() {
        let command = &palette_commands()[i];
        assert_eq!(command.title, *title, "row {i}");
        assert_eq!(command.keys, *keys, "{title}");
        assert_eq!(command.group, *group, "{title}");
        assert_eq!(command.action, *action, "{title}");
    }
}

#[test]
fn filter_is_case_insensitive_substring_on_title_keys_group() {
    let by_title = titles("keymap");
    assert_eq!(by_title, vec!["Keymap help"]);
    let by_keys = titles("ctrl-o");
    assert_eq!(by_keys, vec!["Full-file context"]);
    let mixed = titles("PULL");
    assert!(mixed.contains(&"Pull behind"));
    assert!(!mixed.contains(&"Pop stash"));
    assert!(titles("move").contains(&"Search focused pane"));
    assert!(palette_commands()
        .iter()
        .filter(|c| c.group == CommandGroup::Move)
        .all(|c| command_matches(c, "move")));
}

#[test]
fn empty_query_keeps_groups_query_hides_empty() {
    assert_eq!(
        visible_groups(""),
        vec![CommandGroup::Move, CommandGroup::Git, CommandGroup::View]
    );
    assert_eq!(visible_groups("keymap"), vec![CommandGroup::View]);
    assert!(visible_groups("zzzz-no-hit").is_empty());
}

#[test]
fn cursor_clamps_like_branch_picker() {
    let mut palette = CommandPaletteState::new(PaletteOpenedBy::Colon);
    palette.filter = "keymap".into();
    palette.clamp_cursor();
    palette.move_cursor(20);
    assert_eq!(palette.selected().map(|c| c.title), Some("Keymap help"));
    palette.move_cursor(-20);
    assert_eq!(palette.selected().map(|c| c.title), Some("Keymap help"));
}

#[test]
fn paint_rows_put_a_header_before_each_group() {
    let mut palette = CommandPaletteState::new(PaletteOpenedBy::CtrlK);
    palette.push_char('s');
    palette.push_char('t');
    palette.push_char('a');
    let rows = palette.paint_rows();
    assert!(matches!(rows[0], PalettePaintRow::Header(_)));
    assert!(rows.iter().any(|r| matches!(r, PalettePaintRow::Header("GIT"))));
    assert!(rows.iter().any(|r| matches!(r, PalettePaintRow::Command { .. })));
    palette.backspace();
    palette.backspace();
    palette.backspace();
    assert_eq!(palette.filter, "");
    let none = CommandPaletteState {
        opened_by: PaletteOpenedBy::Colon,
        filter: "zzzz-no-hit".into(),
        cursor: 0,
    };
    assert!(none.paint_rows().is_empty());
    assert_eq!(none.selected_action(), None);
}

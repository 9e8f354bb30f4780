use workspace_status::chrome::{
    action_hint_segments, allocate_chrome_row, bottom_chrome_rows, breadcrumb_op_status,
    breadcrumb_rows, breadcrumb_segments, ctrl_c_prompt_pinned, ctrl_c_prompt_rows,
    extra_hint_segments, fit_hint_segments, format_breadcrumb, format_hint_plain, hints_width,
    idle_status, breadcrumb_spans, hint_row_kind, CrumbRole, CrumbSpan, DiffMode, HintFocus,
    TreeRowKind,
    is_op_status_error, nav_chrome_hint_segments, nav_depth, overlay_status_rows,
    overlay_status_rows_for, ChromeState, ConfirmKind, FocusPane, HintContext, HintRowKind,
    HintSegment, HINT_CHIP_GAP, HINT_ELLIPSIS, SEARCH_TYPING_HINT,
};
use workspace_status::branches::can_open_branch_picker;
use workspace_status::chrome::{can_remove_worktree, FocusedRowFacts, SnapshotCheckout};
use workspace_status::ctrl_c_exit::CTRL_C_EXIT_PROMPT;
use workspace_status::diff::DiffContent;
use workspace_status::commit_files::CommitFileRowKind;
use workspace_status::drill::{CommitFile, CommitFileSource, DrillView};
use workspace_status::graph_load::{GraphRow, Stash};

fn hint_of(key: &str, label: &str) -> HintSegment {
    HintSegment { key: key.into(), label: label.into(), destructive: false }
}

fn state() -> ChromeState {
    ChromeState {
        help_open: false,
        status: String::new(),
        confirm: None,
        stash_menu: None,
        create_branch: false,
        branch_picker: None,
        term_cols: 80,
        search_mode: false,
        easy_motion: false,
        cwd: "/tmp/workspace".into(),
        focused_repo: None,
        drill: DrillView::Graph,
        right_is_diff: false,
        focus: FocusPane::Left,
    }
}

fn file_row_context() -> HintContext {
    HintContext {
        kind: HintRowKind::File,
        depth: 0,
        focus: FocusPane::Left,
        scope_has_unstaged: true,
        scope_has_staged: false,
        scope_has_changes: true,
        pull_behind: false,
        push_ready: false,
        off_default_branch: false,
        branch_picker_ok: false,
        worktree_removable: false,
        worktree_merged: None,
        focused_file_changed: true,
        commit_checkoutable: false,
        focused_commit: false,
        focused_stash: false,
        stash_ops_available: false,
    }
}

fn keys(hints: &[HintSegment]) -> Vec<String> {
    hints.iter().map(|s| s.key.clone()).collect()
}

#[test]
fn fit_appends_ellipsis_instead_of_dropping_core_hints_for_extras() {
    let core = vec![
        hint_of("⏎", "focus right"),
        hint_of("s", "stage"),
        hint_of("x", "revert"),
    ];
    let mut all = core.clone();
    all.extend(extra_hint_segments());
    let fitted = fit_hint_segments(&all, hints_width(&core) + 4);
    let keys: Vec<&str> = fitted.iter().map(|s| s.key.as_str()).collect();
    assert!(keys.contains(&"⏎"), "{keys:?}");
    assert!(keys.contains(&"s"), "{keys:?}");
    assert!(keys.contains(&HINT_ELLIPSIS), "{keys:?}");
    assert!(!keys.contains(&"q"), "extras must truncate before core hints");
}

#[test]
fn nav_chrome_pills_and_hints() {
    assert_eq!(nav_chrome_hint_segments(0, FocusPane::Left), vec![hint_of("⏎", "focus right")]);
    assert_eq!(
        nav_chrome_hint_segments(0, FocusPane::Right),
        vec![hint_of("⏎", "drill"), hint_of("Esc", "back")]
    );
    assert_eq!(nav_chrome_hint_segments(2, FocusPane::Right), vec![hint_of("Esc", "back")]);
    assert_eq!(
        nav_chrome_hint_segments(1, FocusPane::Left),
        vec![hint_of("⏎", "focus right"), hint_of("Esc", "back")]
    );
}

#[test]
fn format_hint_plain_joins_with_chip_gap() {
    assert_eq!(HINT_CHIP_GAP, 2);
    assert_eq!(format_hint_plain(&hint_of("s", "stage")), "s  stage");
}

#[test]
fn idle_file_hints_include_stage_and_extras_in_the_list() {
    let keys = keys(&action_hint_segments(&file_row_context()));
    assert!(keys.contains(&"s".into()), "{keys:?}");
    assert!(keys.contains(&"x".into()), "{keys:?}");
    let extras: Vec<String> = extra_hint_segments().into_iter().map(|s| s.key).collect();
    assert_eq!(extras, vec!["Tab".to_string(), "q".to_string()]);
}

#[test]
fn breadcrumb_marks_right_focus() {
    let mut app = state();
    app.focused_repo = Some("app".into());
    app.focus = FocusPane::Right;
    let text = format_breadcrumb(&breadcrumb_segments(&app), app.focus);
    assert!(text.contains('›'), "{text}");
    assert!(text.contains("[app]"), "{text}");
}

#[test]
fn search_typing_hint_does_not_advertise_n_as_next() {
    assert!(SEARCH_TYPING_HINT.contains("Enter arms query"));
    assert!(SEARCH_TYPING_HINT.contains("n/N after Enter"));
    assert!(!SEARCH_TYPING_HINT.contains("n/N next/prev"));
}

#[test]
fn bottom_chrome_hides_breadcrumb_during_help() {
    let idle = state();
    assert_eq!(breadcrumb_rows(&idle), 1);
    assert_eq!(overlay_status_rows(&idle), 1);
    assert_eq!(bottom_chrome_rows(&idle), 2);
    let mut help = state();
    help.help_open = true;
    assert_eq!(breadcrumb_rows(&help), 0);
    assert!(overlay_status_rows(&help) > 1);
    assert_eq!(bottom_chrome_rows(&help), overlay_status_rows(&help));
}

#[test]
fn confirm_overlay_uses_row_budget() {
    let mut app = state();
    app.confirm = Some(ConfirmKind::Revert);
    assert_eq!(overlay_status_rows(&app), 7);
    assert_eq!(breadcrumb_rows(&app), 1);
    app.confirm = Some(ConfirmKind::StashDrop);
    assert_eq!(overlay_status_rows(&app), 5);
    app.confirm = Some(ConfirmKind::RemoveWorktree);
    assert_eq!(overlay_status_rows(&app), 6);
    app.confirm = Some(ConfirmKind::CheckoutOutOfSync);
    assert_eq!(overlay_status_rows(&app), 7);
    app.confirm = Some(ConfirmKind::MergeIntoHead);
    assert_eq!(overlay_status_rows(&app), 7);
}

#[test]
fn ctrl_c_prompt_takes_its_own_row_unless_an_overlay_is_open() {
    let mut app = state();
    app.status = CTRL_C_EXIT_PROMPT.into();
    assert!(ctrl_c_prompt_pinned(&app));
    assert_eq!(ctrl_c_prompt_rows(&app), 1);
    assert_eq!(bottom_chrome_rows(&app), 3);
    assert_eq!(breadcrumb_op_status(&app), "");
    app.stash_menu = Some(0);
    assert_eq!(ctrl_c_prompt_rows(&app), 0);
}

#[test]
fn picker_overlays_count_their_rows() {
    let mut app = state();
    app.stash_menu = Some(3);
    assert_eq!(overlay_status_rows(&app), 7);
    app.status = "stash?".into();
    assert_eq!(overlay_status_rows(&app), 8);
    app.stash_menu = None;
    app.create_branch = true;
    assert_eq!(overlay_status_rows(&app), 5);
    app.create_branch = false;
    app.branch_picker = Some(0);
    assert_eq!(overlay_status_rows(&app), 6);
    app.branch_picker = Some(40);
    assert_eq!(overlay_status_rows(&app), 17);
    app.status.clear();
    assert_eq!(overlay_status_rows_for(&app, 10), 16);
}

#[test]
fn breadcrumb_follows_the_drill_stack() {
    let mut app = state();
    app.focused_repo = Some("code/app".into());
    assert_eq!(breadcrumb_segments(&app), vec!["workspace".to_string(), "app".to_string()]);
    app.right_is_diff = true;
    assert_eq!(breadcrumb_segments(&app), vec!["workspace".to_string()]);
    app.drill = DrillView::Files {
        repo: "code/app".into(),
        source: CommitFileSource::Commit { commit_id: "0123456789abcdef".into() },
        files: vec![CommitFile { status: "M".into(), path: "src/lib.rs".into(), old_path: None }],
        cursor: 0,
    };
    assert_eq!(nav_depth(&app), 1);
    assert_eq!(
        breadcrumb_segments(&app),
        vec!["workspace".to_string(), "app".to_string(), "0123456".to_string()]
    );
    app.drill = DrillView::Diff {
        repo: "code/app".into(),
        source: CommitFileSource::Stash { stash_ref: "stash@{1}".into() },
        files: Vec::new(),
        file_cursor: 0,
        path: "src/lib.rs".into(),
        content: DiffContent { staged: String::new(), unstaged: String::new(), is_new: false },
    };
    assert_eq!(nav_depth(&app), 2);
    let segs = breadcrumb_segments(&app);
    assert_eq!(segs, vec!["workspace", "app", "stash@{1}", "lib.rs"]);
    assert_eq!(format_breadcrumb(&segs, FocusPane::Left), "workspace › app › stash@{1} › lib.rs");
    assert_eq!(format_breadcrumb(&segs, FocusPane::Right), "workspace › app › stash@{1} › [lib.rs]");
}

#[test]
fn chrome_row_split_leaves_a_gap_for_the_op_status() {
    assert_eq!(allocate_chrome_row(80, 0), (80, 0));
    assert_eq!(allocate_chrome_row(0, 5), (0, 0));
    assert_eq!(allocate_chrome_row(20, 10), (9, 10));
    assert_eq!(allocate_chrome_row(8, 30), (0, 8));
}

#[test]
fn op_status_errors_are_recognised_in_any_case() {
    assert!(is_op_status_error("Pull FAILED for app"));
    assert!(is_op_status_error("git error: nope"));
    assert!(!is_op_status_error("Pulling 1/2…"));
    let mut app = state();
    app.status = "  Pulling 1/2…  ".into();
    assert_eq!(breadcrumb_op_status(&app), "Pulling 1/2…");
    app.search_mode = true;
    assert_eq!(breadcrumb_op_status(&app), "");
}

#[test]
fn tree_writes_hide_when_drilled_in_or_right_focused() {
    let mut ctx = file_row_context();
    ctx.focus = FocusPane::Right;
    let k = keys(&action_hint_segments(&ctx));
    assert!(!k.contains(&"s".into()), "{k:?}");
    assert!(!k.contains(&"x".into()), "{k:?}");
    assert!(k.contains(&"e".into()), "{k:?}");
    assert!(!k.contains(&"S".into()), "stash menu is left-pane only: {k:?}");
}

#[test]
fn graph_stash_rows_offer_stash_actions() {
    let mut ctx = file_row_context();
    ctx.kind = HintRowKind::GraphStash;
    ctx.focused_stash = true;
    ctx.stash_ops_available = true;
    let hints = action_hint_segments(&ctx);
    assert_eq!(keys(&hints), vec!["S", "a", "p", "D"]);
    assert!(hints[3].destructive);
    ctx.depth = 2;
    assert!(action_hint_segments(&ctx).is_empty());
}

#[test]
fn worktree_hint_names_the_merge_state() {
    let mut ctx = file_row_context();
    ctx.kind = HintRowKind::Checkout;
    ctx.worktree_removable = true;
    ctx.worktree_merged = Some(true);
    let hints = action_hint_segments(&ctx);
    let w = hints.iter().find(|h| h.key == "W").expect("remove worktree chip");
    assert_eq!(w.label, "remove worktree (merged)");
    assert!(w.destructive);
    ctx.worktree_merged = Some(false);
    let hints = action_hint_segments(&ctx);
    assert!(hints.iter().any(|h| h.label == "remove worktree (open)"));
}

#[test]
fn fitted_rows_stay_within_width() {
    let mut all = nav_chrome_hint_segments(0, FocusPane::Left);
    all.extend(action_hint_segments(&file_row_context()));
    all.extend(extra_hint_segments());
    for width in 0..80 {
        let fitted = fit_hint_segments(&all, width);
        assert!(hints_width(&fitted) <= width, "{width}");
    }
    assert_eq!(fit_hint_segments(&all, 1000), all);
}

#[test]
fn idle_status_fits_hints_after_the_pills() {
    let ctx = file_row_context();
    let row = idle_status(&ctx, true, false, DiffMode::Inline, false, "ignored", false, 80);
    assert_eq!(row.mode_label, "tree");
    assert_eq!(row.diff_label, "inline");
    assert_eq!(row.search, "");
    assert_eq!(row.message, "? help");
    assert_eq!(keys(&row.hints), vec!["⏎", "s", "x", HINT_ELLIPSIS]);
    let wide = idle_status(&ctx, true, false, DiffMode::SideBySide, false, "", false, 200);
    assert_eq!(wide.diff_label, "split");
    assert_eq!(
        keys(&wide.hints),
        vec!["⏎", "s", "x", "f", "e", "space", "ctrl+o", "S", "Tab", "q"]
    );
}

#[test]
fn idle_status_shows_armed_search_and_pending_z() {
    let mut ctx = file_row_context();
    ctx.depth = 1;
    let row = idle_status(&ctx, true, false, DiffMode::Inline, true, "  needle ", true, 20);
    assert_eq!(row.mode_label, "flat");
    assert_eq!(row.search, "needle");
    assert_eq!(row.message, "z…");
    assert!(row.hints.is_empty());
}

fn plain(spans: &[CrumbSpan]) -> String {
    spans.iter().map(|s| s.text.as_str()).collect()
}

#[test]
fn running_op_progress_trails_the_breadcrumb() {
    let mut app = state();
    app.status = "Pulling 1/2…".into();
    let spans = breadcrumb_spans(&app, 80);
    let crumb = plain(&spans);
    assert!(crumb.contains("Pulling 1/2…"), "{crumb:?}");
    assert!(crumb.find("workspace").unwrap() < crumb.find("Pulling").unwrap(), "{crumb:?}");
    assert_eq!(spans.last().map(|s| s.role), Some(CrumbRole::Op { error: false }));
    assert_eq!(spans[0].role, CrumbRole::Path { last: true });
    assert_eq!(crumb.chars().count(), 80);
}

#[test]
fn narrow_breadcrumb_cuts_the_path_before_the_op_status() {
    let mut app = state();
    app.status = "Fetching 2/18…".into();
    let crumb = plain(&breadcrumb_spans(&app, 20));
    assert_eq!(crumb, "works Fetching 2/18…");
    app.status = "Pull failed: app".into();
    let spans = breadcrumb_spans(&app, 80);
    assert_eq!(spans.last().map(|s| s.role), Some(CrumbRole::Op { error: true }));
}

#[test]
fn quit_prompt_never_lands_in_the_breadcrumb() {
    let mut app = state();
    app.status = CTRL_C_EXIT_PROMPT.into();
    app.focused_repo = Some("code/app".into());
    app.focus = FocusPane::Right;
    let spans = breadcrumb_spans(&app, 80);
    assert_eq!(plain(&spans), "workspace › [app]");
    assert!(spans.iter().all(|s| matches!(s.role, CrumbRole::Path { .. })));
}

#[test]
fn hint_row_kind_follows_the_focused_list() {
    let tree = HintFocus {
        graph_pane_focused: false,
        commit_files_focused: false,
        commit_file_kind: None,
        drill_is_diff: false,
        right_is_diff: false,
        focus: FocusPane::Left,
        tree_kind: Some(TreeRowKind::Checkout),
    };
    assert_eq!(hint_row_kind(tree, None), HintRowKind::Checkout);
    assert_eq!(hint_row_kind(HintFocus { tree_kind: None, ..tree }, None), HintRowKind::Workspace);
    let stash = GraphRow::Stash(Stash::default());
    assert_eq!(hint_row_kind(HintFocus { graph_pane_focused: true, ..tree }, Some(&stash)), HintRowKind::GraphStash);
    assert_eq!(hint_row_kind(HintFocus { graph_pane_focused: true, ..tree }, None), HintRowKind::Workspace);
    assert_eq!(
        hint_row_kind(HintFocus { commit_files_focused: true, commit_file_kind: Some(CommitFileRowKind::Dir), ..tree }, None),
        HintRowKind::Dir
    );
    assert_eq!(hint_row_kind(HintFocus { commit_files_focused: true, ..tree }, None), HintRowKind::File);
    assert_eq!(
        hint_row_kind(HintFocus { right_is_diff: true, focus: FocusPane::Right, ..tree }, None),
        HintRowKind::File
    );
    assert_eq!(hint_row_kind(HintFocus { right_is_diff: true, ..tree }, None), HintRowKind::Checkout);
}

fn snapshot_checkouts() -> Vec<SnapshotCheckout> {
    vec![
        SnapshotCheckout { repo: "app".into(), linked: false, primary_repo: None },
        SnapshotCheckout { repo: "app/.worktrees/feat".into(), linked: true, primary_repo: Some("app".into()) },
        SnapshotCheckout { repo: "lib".into(), linked: false, primary_repo: None },
    ]
}

fn focused_row(kind: HintRowKind, repo: &str) -> FocusedRowFacts {
    FocusedRowFacts {
        kind,
        repo: Some(repo.into()),
        checkout_path: None,
        is_family: false,
    }
}

#[test]
fn remove_worktree_only_on_linked_rows() {
    let snap = snapshot_checkouts();
    assert!(can_remove_worktree(&snap, &focused_row(HintRowKind::Checkout, "app/.worktrees/feat")));
    assert!(can_remove_worktree(&snap, &focused_row(HintRowKind::Repo, "app/.worktrees/feat")));
    assert!(!can_remove_worktree(&snap, &focused_row(HintRowKind::Checkout, "app")));
    assert!(!can_remove_worktree(&snap, &focused_row(HintRowKind::File, "app/.worktrees/feat")));
    let mut family = focused_row(HintRowKind::Repo, "app/.worktrees/feat");
    family.is_family = true;
    assert!(!can_remove_worktree(&snap, &family));
}

#[test]
fn branch_picker_skips_family_containers() {
    let snap = snapshot_checkouts();
    assert!(!can_open_branch_picker(&snap, &focused_row(HintRowKind::Repo, "app")));
    assert!(can_open_branch_picker(&snap, &focused_row(HintRowKind::Repo, "lib")));
    assert!(!can_open_branch_picker(&snap, &focused_row(HintRowKind::Checkout, "app")));
    let mut checkout = focused_row(HintRowKind::Checkout, "app");
    checkout.checkout_path = Some("app".into());
    assert!(can_open_branch_picker(&snap, &checkout));
    assert!(!can_open_branch_picker(&snap, &focused_row(HintRowKind::Dir, "lib")));
}

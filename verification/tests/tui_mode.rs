use workspace_status::{should_open_tui, HeadlessFlags};

#[test]
fn tty_without_flags_opens_tui() {
    assert!(should_open_tui(true, HeadlessFlags::default()));
}

#[test]
fn non_tty_stays_headless() {
    assert!(!should_open_tui(false, HeadlessFlags::default()));
}

#[test]
fn force_tui_opens_on_non_tty() {
    assert!(should_open_tui(
        false,
        HeadlessFlags {
            force_tui: true,
            ..HeadlessFlags::default()
        },
    ));
}

#[test]
fn headless_flags_win_over_force_tui() {
    for flags in [
        HeadlessFlags {
            force_tui: true,
            plain: true,
            ..HeadlessFlags::default()
        },
        HeadlessFlags {
            force_tui: true,
            json: true,
            ..HeadlessFlags::default()
        },
        HeadlessFlags {
            force_tui: true,
            verbose: true,
            ..HeadlessFlags::default()
        },
        HeadlessFlags {
            force_tui: true,
            pull: true,
            ..HeadlessFlags::default()
        },
        HeadlessFlags {
            force_tui: true,
            default_branch: true,
            ..HeadlessFlags::default()
        },
    ] {
        assert!(!should_open_tui(false, flags), "{flags:?}");
        assert!(!should_open_tui(true, flags), "{flags:?}");
    }
}

#[test]
fn headless_flags_block_tui_even_on_tty() {
    for flags in [
        HeadlessFlags {
            plain: true,
            ..HeadlessFlags::default()
        },
        HeadlessFlags {
            json: true,
            ..HeadlessFlags::default()
        },
        HeadlessFlags {
            verbose: true,
            ..HeadlessFlags::default()
        },
        HeadlessFlags {
            pull: true,
            ..HeadlessFlags::default()
        },
        HeadlessFlags {
            default_branch: true,
            ..HeadlessFlags::default()
        },
    ] {
        assert!(!should_open_tui(true, flags), "{flags:?}");
    }
}

use workspace_status::action::Action;
use workspace_status::event_pump::{
    action_triggers_graph_autoload, classify_busy_action, overlay_blocks_background_ticks,
    BusyAction,
};
use workspace_status::keys::InputMode;

#[test]
fn resize_and_noise_do_not_autoload() {
    assert!(!action_triggers_graph_autoload(&Action::NoOp));
    assert!(!action_triggers_graph_autoload(&Action::Resize {
        cols: 80,
        rows: 24
    }));
    assert!(!action_triggers_graph_autoload(&Action::WatchTick));
    assert!(!action_triggers_graph_autoload(&Action::FetchTick));
    assert!(!action_triggers_graph_autoload(&Action::ConfirmYes));
    assert!(!action_triggers_graph_autoload(&Action::ConfirmNo));
    assert!(!action_triggers_graph_autoload(&Action::Drag {
        col: 1,
        row: 1
    }));
    assert!(action_triggers_graph_autoload(&Action::Move(1)));
    assert!(action_triggers_graph_autoload(&Action::MoveToEnd));
    assert!(action_triggers_graph_autoload(&Action::PageMove(-1)));
    assert!(action_triggers_graph_autoload(&Action::ScrollWheel {
        col: 1,
        row: 1,
        delta: 1,
        horizontal: false,
    }));
    assert!(!action_triggers_graph_autoload(&Action::ScrollWheel {
        col: 1,
        row: 1,
        delta: 1,
        horizontal: true,
    }));
}

#[test]
fn overlays_block_background_ticks() {
    assert!(overlay_blocks_background_ticks(InputMode::Confirm));
    assert!(overlay_blocks_background_ticks(InputMode::Help));
    assert!(overlay_blocks_background_ticks(InputMode::HelpSearch));
    assert!(overlay_blocks_background_ticks(InputMode::SearchPrompt));
    assert!(overlay_blocks_background_ticks(InputMode::StashMenu));
    assert!(overlay_blocks_background_ticks(InputMode::BranchPicker));
    assert!(overlay_blocks_background_ticks(InputMode::GraphFocusPicker));
    assert!(overlay_blocks_background_ticks(InputMode::CreateBranch));
    assert!(overlay_blocks_background_ticks(InputMode::Comment));
    assert!(overlay_blocks_background_ticks(InputMode::CommentExport));
    assert!(!overlay_blocks_background_ticks(InputMode::Normal {
        search_active: false
    }));
    assert!(!overlay_blocks_background_ticks(InputMode::ZPending {
        search_active: true
    }));
    assert!(!overlay_blocks_background_ticks(InputMode::GPending {
        search_active: false
    }));
}

#[test]
fn busy_loop_keeps_nav_live_and_drops_nested_writes() {
    assert_eq!(classify_busy_action(&Action::Quit), BusyAction::Quit);
    assert_eq!(
        classify_busy_action(&Action::Resize {
            cols: 100,
            rows: 30
        }),
        BusyAction::Resize {
            cols: 100,
            rows: 30
        }
    );
    assert_eq!(classify_busy_action(&Action::Move(1)), BusyAction::Handle);
    assert_eq!(
        classify_busy_action(&Action::PanDiff(-1)),
        BusyAction::Handle
    );
    assert_eq!(
        classify_busy_action(&Action::ScrollDiff(1)),
        BusyAction::Handle
    );
    assert_eq!(classify_busy_action(&Action::FoldClose), BusyAction::Handle);
    assert_eq!(
        classify_busy_action(&Action::FocusRight),
        BusyAction::Handle
    );
    assert_eq!(classify_busy_action(&Action::NavEsc), BusyAction::Handle);
    assert_eq!(classify_busy_action(&Action::ConfirmNo), BusyAction::Handle);
    assert_eq!(
        classify_busy_action(&Action::Click { col: 4, row: 8 }),
        BusyAction::Handle
    );
    assert_eq!(
        classify_busy_action(&Action::ScrollWheel {
            col: 4,
            row: 8,
            delta: -1,
            horizontal: false,
        }),
        BusyAction::Handle
    );
    assert_eq!(
        classify_busy_action(&Action::ConfirmYes),
        BusyAction::Ignore
    );
    assert_eq!(classify_busy_action(&Action::Fetch), BusyAction::Ignore);
    assert_eq!(classify_busy_action(&Action::Pull), BusyAction::Ignore);
    assert_eq!(classify_busy_action(&Action::Push), BusyAction::Ignore);
    assert_eq!(classify_busy_action(&Action::Stage), BusyAction::Ignore);
    assert_eq!(classify_busy_action(&Action::Revert), BusyAction::Ignore);
    assert_eq!(
        classify_busy_action(&Action::GraphCheckout),
        BusyAction::Ignore
    );
    assert_eq!(
        classify_busy_action(&Action::CommentSubmit),
        BusyAction::Handle
    );
    assert_eq!(
        classify_busy_action(&Action::ExportComments),
        BusyAction::Handle
    );
}


use workspace_status::action::Action;
use workspace_status::gates::{
    dispatch_is_noop, is_tree_write_blocked, right_pane_left_list_allowed, ListFocusTarget,
};

#[test]
fn tree_writes_blocked_at_depth_one_and_two() {
    for action in [
        Action::Stage,
        Action::Unstage,
        Action::Revert,
        Action::Fetch,
        Action::Pull,
        Action::Push,
        Action::DefaultBranch,
        Action::Branch,
        Action::RemoveWorktree,
    ] {
        assert!(!is_tree_write_blocked(&action, 0), "{action:?}");
        assert!(is_tree_write_blocked(&action, 1), "{action:?}");
        assert!(is_tree_write_blocked(&action, 2), "{action:?}");
    }
    assert!(!is_tree_write_blocked(&Action::StashMenu, 1));
    assert!(!is_tree_write_blocked(&Action::ToggleReviewed, 1));
    assert!(!is_tree_write_blocked(&Action::Edit, 1));
    assert!(!is_tree_write_blocked(&Action::ExternalDiff, 1));
}

#[test]
fn right_pane_allow_list() {
    assert!(right_pane_left_list_allowed(
        ListFocusTarget::Graph,
        &Action::GraphCheckout
    ));
    assert!(right_pane_left_list_allowed(
        ListFocusTarget::Graph,
        &Action::GraphCreateBranch
    ));
    assert!(right_pane_left_list_allowed(
        ListFocusTarget::Graph,
        &Action::GraphMerge
    ));
    assert!(right_pane_left_list_allowed(
        ListFocusTarget::Graph,
        &Action::GraphStashApply
    ));
    assert!(right_pane_left_list_allowed(
        ListFocusTarget::Graph,
        &Action::GraphStashPop
    ));
    assert!(right_pane_left_list_allowed(
        ListFocusTarget::Graph,
        &Action::GraphStashDrop
    ));
    assert!(!right_pane_left_list_allowed(
        ListFocusTarget::Graph,
        &Action::Branch
    ));
    assert!(!right_pane_left_list_allowed(
        ListFocusTarget::Graph,
        &Action::StashMenu
    ));
    assert!(right_pane_left_list_allowed(
        ListFocusTarget::CommitFiles,
        &Action::Move(1)
    ));
    assert!(right_pane_left_list_allowed(
        ListFocusTarget::CommitFiles,
        &Action::Edit
    ));
    assert!(right_pane_left_list_allowed(
        ListFocusTarget::CommitFiles,
        &Action::ExternalDiff
    ));
    assert!(right_pane_left_list_allowed(
        ListFocusTarget::CommitFiles,
        &Action::ToggleFullContext
    ));
    assert!(right_pane_left_list_allowed(
        ListFocusTarget::NoList,
        &Action::Edit
    ));
    assert!(right_pane_left_list_allowed(
        ListFocusTarget::NoList,
        &Action::ExternalDiff
    ));
    assert!(right_pane_left_list_allowed(
        ListFocusTarget::NoList,
        &Action::ToggleFullContext
    ));
    assert!(right_pane_left_list_allowed(
        ListFocusTarget::NoList,
        &Action::ToggleReviewed
    ));
    assert!(right_pane_left_list_allowed(
        ListFocusTarget::NoList,
        &Action::MoveToStart
    ));
    assert!(right_pane_left_list_allowed(
        ListFocusTarget::NoList,
        &Action::MoveToEnd
    ));
    assert!(!right_pane_left_list_allowed(
        ListFocusTarget::Graph,
        &Action::Stage
    ));
    assert!(!right_pane_left_list_allowed(
        ListFocusTarget::NoList,
        &Action::StashMenu
    ));
    assert!(!right_pane_left_list_allowed(
        ListFocusTarget::CommitFiles,
        &Action::Fetch
    ));
}

#[test]
fn dispatch_noops_tree_writes_when_right_focused_at_depth_one() {
    for action in [
        Action::Stage,
        Action::Fetch,
        Action::Pull,
        Action::Push,
        Action::DefaultBranch,
        Action::Branch,
        Action::RemoveWorktree,
        Action::StashMenu,
    ] {
        assert!(
            dispatch_is_noop(&action, 1, true, ListFocusTarget::CommitFiles),
            "{action:?}"
        );
    }
    assert!(!dispatch_is_noop(
        &Action::Edit,
        1,
        true,
        ListFocusTarget::CommitFiles
    ));
    assert!(!dispatch_is_noop(
        &Action::ExternalDiff,
        1,
        true,
        ListFocusTarget::CommitFiles
    ));
    assert!(!dispatch_is_noop(
        &Action::ExternalDiff,
        0,
        true,
        ListFocusTarget::NoList
    ));
    assert!(!dispatch_is_noop(
        &Action::GraphCheckout,
        0,
        true,
        ListFocusTarget::Graph
    ));
    assert!(!dispatch_is_noop(
        &Action::GraphMerge,
        0,
        true,
        ListFocusTarget::Graph
    ));
    assert!(dispatch_is_noop(
        &Action::Branch,
        0,
        true,
        ListFocusTarget::Graph
    ));
    assert!(dispatch_is_noop(
        &Action::StashMenu,
        0,
        true,
        ListFocusTarget::Graph
    ));
    assert!(!dispatch_is_noop(
        &Action::ToggleFullContext,
        0,
        true,
        ListFocusTarget::NoList
    ));
    assert!(!dispatch_is_noop(
        &Action::ToggleReviewed,
        0,
        true,
        ListFocusTarget::NoList
    ));
    assert!(!dispatch_is_noop(
        &Action::MoveToStart,
        0,
        true,
        ListFocusTarget::NoList
    ));
    assert!(!dispatch_is_noop(
        &Action::MoveToEnd,
        0,
        true,
        ListFocusTarget::NoList
    ));
    assert!(dispatch_is_noop(
        &Action::ToggleReviewed,
        0,
        true,
        ListFocusTarget::Graph
    ));
}

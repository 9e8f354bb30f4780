//! Focus / depth / kind gates for tree writes.
//!
//! `dispatch` refuses workspace-tree writes when the drill depth is 1 or
//! more, or when the right pane is focused, unless the allow-list matches.

use vstd::prelude::*;

use crate::action::Action;

verus! {

/// Which list (or diff) the focused pane is driving.
#[derive(Clone, Copy, Debug, PartialEq, Eq, Structural)]
pub enum ListFocusTarget {
    Tree,
    Graph,
    CommitFiles,
    NoList,
}

/// `s`/`u`/`x`/`f`/`p`/`P`/`d`/`b`/`W`: writes on the workspace tree.
pub open spec fn is_tree_write_spec(a: Action) -> bool {
    a is Stage || a is Unstage || a is Revert || a is Fetch || a is Pull || a is Push
        || a is DefaultBranch || a is Branch || a is RemoveWorktree
}

/// Actions that drive a list or a row-scoped write.
pub open spec fn is_left_list_spec(a: Action) -> bool {
    a is Move || a is MoveToStart || a is MoveToEnd || a is FoldToggle || a is FoldToggleSubtree
        || a is FoldClose || a is FoldOpen || a is Stage || a is Unstage || a is Revert || a is Edit
        || a is ExternalDiff || a is ToggleReviewed || a is ToggleFullContext || a is Branch
        || a is RemoveWorktree || a is GraphCheckout || a is GraphCreateBranch || a is GraphMerge
        || a is GraphStashApply || a is GraphStashDrop || a is GraphStashPop || a is StashMenu
        || a is Fetch || a is Pull || a is Push || a is DefaultBranch
}

/// Graph-row writes.
pub open spec fn is_graph_write_spec(a: Action) -> bool {
    a is GraphCheckout || a is GraphCreateBranch || a is GraphMerge || a is GraphStashApply
        || a is GraphStashDrop || a is GraphStashPop
}

/// Vertical moves.
pub open spec fn is_move_spec(a: Action) -> bool {
    a is Move || a is MoveToStart || a is MoveToEnd
}

/// Folds.
pub open spec fn is_fold_spec(a: Action) -> bool {
    a is FoldToggle || a is FoldToggleSubtree || a is FoldClose || a is FoldOpen
}

/// Commit-file list navigation and file opens.
pub open spec fn is_commit_nav_spec(a: Action) -> bool {
    is_move_spec(a) || is_fold_spec(a) || a is Edit || a is ExternalDiff || a is ToggleFullContext
}

/// File actions allowed on a focused diff.
pub open spec fn is_diff_file_write_spec(a: Action) -> bool {
    a is Edit || a is ExternalDiff || a is ToggleFullContext || a is ToggleReviewed
}

/// Allow-list of left-list actions with the right pane focused.
pub open spec fn right_pane_allowed_spec(target: ListFocusTarget, a: Action) -> bool {
    ||| (target == ListFocusTarget::Graph && is_move_spec(a))
    ||| (target == ListFocusTarget::Graph && is_graph_write_spec(a))
    ||| (target == ListFocusTarget::CommitFiles && is_commit_nav_spec(a))
    ||| (target == ListFocusTarget::NoList && is_move_spec(a))
    ||| (target == ListFocusTarget::NoList && is_diff_file_write_spec(a))
}

fn is_tree_write_action(action: &Action) -> (b: bool)
    ensures
        b == is_tree_write_spec(*action),
{
    matches!(
        action,
        Action::Stage | Action::Unstage | Action::Revert | Action::Fetch | Action::Pull
            | Action::Push | Action::DefaultBranch | Action::Branch | Action::RemoveWorktree
    )
}

/// True when `action` is a tree write refused at depth ≥ 1
/// (`s`/`u`/`x`/`f`/`p`/`P`/`d`/`b`/`W`). `S` is not in that set.
pub fn is_tree_write_blocked(action: &Action, depth: u8) -> (b: bool)
    ensures
        b == (depth >= 1 && is_tree_write_spec(*action)),
{
    depth >= 1 && is_tree_write_action(action)
}

/// Actions that drive a list or row-scoped registry write.
pub fn is_left_list_action(action: &Action) -> (b: bool)
    ensures
        b == is_left_list_spec(*action),
{
    matches!(
        action,
        Action::Move(_) | Action::MoveToStart | Action::MoveToEnd | Action::FoldToggle
            | Action::FoldToggleSubtree | Action::FoldClose | Action::FoldOpen | Action::Stage
            | Action::Unstage | Action::Revert | Action::Edit | Action::ExternalDiff
            | Action::ToggleReviewed | Action::ToggleFullContext | Action::Branch
            | Action::RemoveWorktree | Action::GraphCheckout | Action::GraphCreateBranch
            | Action::GraphMerge | Action::GraphStashApply | Action::GraphStashDrop
            | Action::GraphStashPop | Action::StashMenu | Action::Fetch | Action::Pull
            | Action::Push | Action::DefaultBranch
    )
}

fn is_graph_write_action(action: &Action) -> (b: bool)
    ensures
        b == is_graph_write_spec(*action),
{
    matches!(
        action,
        Action::GraphCheckout | Action::GraphCreateBranch | Action::GraphMerge
            | Action::GraphStashApply | Action::GraphStashDrop | Action::GraphStashPop
    )
}

fn is_move_action(action: &Action) -> (b: bool)
    ensures
        b == is_move_spec(*action),
{
    matches!(action, Action::Move(_) | Action::MoveToStart | Action::MoveToEnd)
}

fn is_fold_action(action: &Action) -> (b: bool)
    ensures
        b == is_fold_spec(*action),
{
    matches!(
        action,
        Action::FoldToggle | Action::FoldToggleSubtree | Action::FoldClose | Action::FoldOpen
    )
}

fn is_commit_nav_action(action: &Action) -> (b: bool)
    ensures
        b == is_commit_nav_spec(*action),
{
    is_move_action(action) || is_fold_action(action) || matches!(
        action,
        Action::Edit | Action::ExternalDiff | Action::ToggleFullContext
    )
}

fn is_diff_file_write(action: &Action) -> (b: bool)
    ensures
        b == is_diff_file_write_spec(*action),
{
    matches!(
        action,
        Action::Edit | Action::ExternalDiff | Action::ToggleFullContext | Action::ToggleReviewed
    )
}

/// True when a left-list action may still run with the right pane focused.
///
/// Graph move/write, commit-file nav, diff move, and diff `e` / `E` /
/// Ctrl+O / space. Tree `b` (`Branch`) and `S` (`StashMenu`) stay left-only.
pub fn right_pane_left_list_allowed(target: ListFocusTarget, action: &Action) -> (b: bool)
    ensures
        b == right_pane_allowed_spec(target, *action),
{
    let graph_move = target == ListFocusTarget::Graph && is_move_action(action);
    let graph_write = target == ListFocusTarget::Graph && is_graph_write_action(action);
    let commit_nav = target == ListFocusTarget::CommitFiles && is_commit_nav_action(action);
    let diff_move = target == ListFocusTarget::NoList && is_move_action(action);
    let diff_file_write = target == ListFocusTarget::NoList && is_diff_file_write(action);
    graph_move || graph_write || commit_nav || diff_move || diff_file_write
}

/// True when `dispatch` should swallow `action` as a silent no-op.
pub fn dispatch_is_noop(action: &Action, depth: u8, focus_right: bool, target: ListFocusTarget) -> (b: bool)
    ensures
        b == dispatch_noop_spec(*action, depth, focus_right, target),
{
    if is_tree_write_blocked(action, depth) {
        return true;
    }
    focus_right && is_left_list_action(action) && !right_pane_left_list_allowed(target, action)
}

/// `dispatch_is_noop`: a blocked tree write, or a left-list action with the
/// right pane focused that the allow-list does not cover.
pub open spec fn dispatch_noop_spec(a: Action, depth: u8, focus_right: bool, target: ListFocusTarget) -> bool {
    (depth >= 1 && is_tree_write_spec(a)) || (focus_right && is_left_list_spec(a)
        && !right_pane_allowed_spec(target, a))
}

/// A tree write (`s u x f p P d b W`) is swallowed whenever the right pane
/// has focus or the drill is below the top, whatever list has focus.
pub proof fn lemma_tree_writes_only_at_top_left(a: Action, depth: u8, focus_right: bool, target: ListFocusTarget)
    requires
        is_tree_write_spec(a),
        depth >= 1 || focus_right,
    ensures
        dispatch_noop_spec(a, depth, focus_right, target),
{
}

/// Actions outside the left-list set are never swallowed at the top level.
pub proof fn lemma_non_list_actions_pass(a: Action, focus_right: bool, target: ListFocusTarget)
    requires
        !is_left_list_spec(a),
    ensures
        !dispatch_noop_spec(a, 0, focus_right, target),
{
}

} // verus!

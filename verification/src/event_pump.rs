//! Event-loop decisions that keep the TUI responsive while git runs.
//!
//! While exclusive writes or a remote batch are in flight, nav / pane
//! switch / cancel / quit still dispatch. Only actions that would start
//! another git write are drained.

use vstd::prelude::*;

use crate::action::Action;
use crate::keys::InputMode;

verus! {

/// What to do with an event while a git subprocess owns a worker thread.
#[derive(Clone, Copy, Debug, PartialEq, Eq, Structural)]
pub enum BusyAction {
    /// Drain the event (it would start another git write).
    Ignore,
    /// Dispatch and apply (nav, pane switch, cancel, overlay typing, …).
    Handle,
    /// Relayout while the worker continues.
    Resize { cols: u16, rows: u16 },
    /// Finish the current worker, then leave the TUI.
    Quit,
}

/// Actions that would start a second git write while one runs.
pub open spec fn starts_write_spec(a: Action) -> bool {
    a is Fetch || a is Pull || a is Push || a is DefaultBranch || a is Stage || a is Unstage
        || a is Revert || a is ConfirmYes || a is ConfirmYesClean || a is Edit || a is WatchTick
        || a is FetchTick || a is StashMenuEnter || a is GraphStashApply || a is GraphStashPop
        || a is GraphStashDrop || a is GraphCheckout || a is GraphMerge || a is BranchSubmit
        || a is CreateBranchSubmit || a is GraphFocusSubmit || a is GraphFocusClear
}

/// Classify one dispatched action during an in-flight git op.
pub fn classify_busy_action(action: &Action) -> (b: BusyAction)
    ensures
        b == (match *action {
            Action::Quit => BusyAction::Quit,
            Action::Resize { cols, rows } => BusyAction::Resize { cols, rows },
            a => if starts_write_spec(a) {
                BusyAction::Ignore
            } else {
                BusyAction::Handle
            },
        }),
{
    match action {
        Action::Quit => BusyAction::Quit,
        Action::Resize { cols, rows } => BusyAction::Resize { cols: *cols, rows: *rows },
        Action::Fetch | Action::Pull | Action::Push | Action::DefaultBranch | Action::Stage
        | Action::Unstage | Action::Revert | Action::ConfirmYes | Action::ConfirmYesClean
        | Action::Edit | Action::WatchTick | Action::FetchTick | Action::StashMenuEnter
        | Action::GraphStashApply | Action::GraphStashPop | Action::GraphStashDrop
        | Action::GraphCheckout | Action::GraphMerge | Action::BranchSubmit
        | Action::CreateBranchSubmit | Action::GraphFocusSubmit | Action::GraphFocusClear => BusyAction::Ignore,
        _ => BusyAction::Handle,
    }
}

/// True when fetch/watch timers must not start (confirm, help, pickers, …).
pub fn overlay_blocks_background_ticks(mode: InputMode) -> (b: bool)
    ensures
        b == !(mode is Normal || mode is ZPending || mode is GPending),
{
    !matches!(
        mode,
        InputMode::Normal { .. } | InputMode::ZPending { .. } | InputMode::GPending { .. }
    )
}

/// True when this action may have moved the graph cursor onto the last row.
pub fn action_triggers_graph_autoload(action: &Action) -> (b: bool)
    ensures
        b == (match *action {
            Action::ScrollWheel { horizontal, .. } => !horizontal,
            a => a is Move || a is PageMove || a is MoveToStart || a is MoveToEnd || a is SearchNext
                || a is SearchPrev || a is FocusRight || a is NavEnter || a is Click,
        }),
{
    match action {
        Action::ScrollWheel { horizontal, .. } => !*horizontal,
        Action::Move(_) | Action::PageMove(_) | Action::MoveToStart | Action::MoveToEnd
        | Action::SearchNext | Action::SearchPrev | Action::FocusRight | Action::NavEnter
        | Action::Click { .. } => true,
        _ => false,
    }
}

} // verus!

//! Decision logic of the `workspace-status` terminal UI: keymap, gates,
//! pickers, diff parsing, the comment store, commit-graph paging, the
//! commit-file forest, and the chrome text they paint.
//!
//! Everything here is verified with Verus. The thin `app/` crate holds the
//! clipboard, clock, environment, key-event decoding, the comment-file
//! JSON, the git runner and the event-loop driver; the `interp` module
//! decides what each of them does next.

use vstd::prelude::*;

pub mod action;
pub mod branches;
pub mod checkout;
pub mod chrome;
pub mod command_palette;
pub mod commit_files;
pub mod comments;
pub mod ctrl_c_exit;
pub mod diff;
pub mod diff_tool;
pub mod drill;
pub mod easy_motion;
pub mod editor;
pub mod event_pump;
pub mod fetch;
pub mod gates;
pub mod graph_focus;
pub mod graph_load;
pub mod help;
pub mod icons;
pub mod interp;
pub mod keys;
pub mod order;
pub mod path;
pub mod text;

verus! {

/// CLI flags that decide TUI vs headless.
#[derive(Clone, Copy, Debug, Default, PartialEq, Eq)]
pub struct HeadlessFlags {
    pub plain: bool,
    pub json: bool,
    pub verbose: bool,
    pub pull: bool,
    pub default_branch: bool,
    /// `-i` / `--tui`: open the TUI even when stdout is not a TTY.
    pub force_tui: bool,
}

/// True when the binary should open the TUI.
///
/// A TTY (or `--tui`) with none of `--plain` / `--json` / `-v` / `-p` / `-d`
/// opens the TUI. Those headless flags still win over `--tui`.
pub fn should_open_tui(stdout_is_tty: bool, flags: HeadlessFlags) -> (open: bool)
    ensures
        open == (!(flags.plain || flags.json || flags.verbose || flags.pull || flags.default_branch)
            && (stdout_is_tty || flags.force_tui)),
{
    if flags.plain || flags.json || flags.verbose || flags.pull || flags.default_branch {
        return false;
    }
    stdout_is_tty || flags.force_tui
}

} // verus!

//! Double Ctrl-C quit chord.
//!
//! First press arms a short window and prompts. Second press within the window
//! quits. An expired arm is treated as a fresh first press. Time is a count of
//! milliseconds on one monotonic clock.

use vstd::prelude::*;

verus! {

/// Window to confirm exit after the first Ctrl-C (ms).
pub const CTRL_C_EXIT_MS: u64 = 2000;

/// Status / overlay copy shown after the first Ctrl-C.
pub const CTRL_C_EXIT_PROMPT: &'static str = "Press Ctrl+C again to exit";

/// Result of one Ctrl-C press against the armed window.
#[derive(Clone, Copy, Debug, PartialEq, Eq)]
pub struct CtrlCExitResult {
    /// Time (ms) until which a second Ctrl-C quits. `None` when not armed.
    pub armed_until: Option<u64>,
    /// True when this press should quit the TUI.
    pub quit: bool,
    /// True when chrome should show [`CTRL_C_EXIT_PROMPT`].
    pub prompt: bool,
}

/// The chord as a function of the armed deadline and the press time.
pub open spec fn ctrl_c_spec(armed_until: Option<u64>, now: u64) -> CtrlCExitResult {
    if armed_until is Some && now < armed_until->0 {
        CtrlCExitResult { armed_until: None, quit: true, prompt: false }
    } else {
        CtrlCExitResult { armed_until: Some((now + CTRL_C_EXIT_MS) as u64), quit: false, prompt: true }
    }
}

/// Pure double-Ctrl-C state machine.
pub fn handle_ctrl_c(armed_until: Option<u64>, now: u64) -> (r: CtrlCExitResult)
    requires
        now + CTRL_C_EXIT_MS <= u64::MAX,
    ensures
        r == ctrl_c_spec(armed_until, now),
{
    if let Some(until) = armed_until {
        if now < until {
            return CtrlCExitResult { armed_until: None, quit: true, prompt: false };
        }
    }
    CtrlCExitResult { armed_until: Some(now + CTRL_C_EXIT_MS), quit: false, prompt: true }
}

/// A press that quits never prompts and disarms; one that does not quit
/// prompts and arms for exactly the exit window.
pub proof fn lemma_quit_xor_prompt(armed_until: Option<u64>, now: u64)
    requires
        now + CTRL_C_EXIT_MS <= u64::MAX,
    ensures
        ctrl_c_spec(armed_until, now).quit != ctrl_c_spec(armed_until, now).prompt,
        ctrl_c_spec(armed_until, now).quit <==> ctrl_c_spec(armed_until, now).armed_until is None,
        !ctrl_c_spec(armed_until, now).quit ==> ctrl_c_spec(armed_until, now).armed_until == Some(
            (now + CTRL_C_EXIT_MS) as u64,
        ),
{
}

/// From rest, a second press quits exactly when it comes inside the window
/// opened by the first.
pub proof fn lemma_second_press_quits_within_window(t0: u64, t1: u64)
    requires
        t0 <= t1,
        t1 + CTRL_C_EXIT_MS <= u64::MAX,
    ensures
        ctrl_c_spec(ctrl_c_spec(None, t0).armed_until, t1).quit <==> t1 < t0 + CTRL_C_EXIT_MS,
{
}

/// True when `status` is the ephemeral quit prompt (never a breadcrumb toast).
pub fn is_ctrl_c_exit_prompt(status: &str) -> (b: bool)
    ensures
        b == (status@ == CTRL_C_EXIT_PROMPT@),
{
    crate::text::str_eq(status, CTRL_C_EXIT_PROMPT)
}

} // verus!

use workspace_status::ctrl_c_exit::{handle_ctrl_c, is_ctrl_c_exit_prompt, CTRL_C_EXIT_MS, CTRL_C_EXIT_PROMPT};

#[test]
fn first_press_arms_and_second_within_window_quits() {
    let t0: u64 = 1_000_000;
    let first = handle_ctrl_c(None, t0);
    assert!(!first.quit);
    assert!(first.prompt);
    assert_eq!(first.armed_until, Some(t0 + CTRL_C_EXIT_MS));

    let second = handle_ctrl_c(first.armed_until, t0 + 50);
    assert!(second.quit);
    assert!(!second.prompt);
    assert_eq!(second.armed_until, None);
}

#[test]
fn expired_arm_is_a_fresh_first_press() {
    let t0: u64 = 1_000_000;
    let armed = handle_ctrl_c(None, t0);
    let late = handle_ctrl_c(armed.armed_until, t0 + CTRL_C_EXIT_MS);
    assert!(!late.quit);
    assert!(late.prompt);
    assert_eq!(late.armed_until, Some(t0 + CTRL_C_EXIT_MS * 2));
}

#[test]
fn prompt_string_matches_harness_copy() {
    assert!(
        CTRL_C_EXIT_PROMPT.to_ascii_lowercase().contains("ctrl+c again"),
        "{CTRL_C_EXIT_PROMPT}"
    );
    assert!(is_ctrl_c_exit_prompt(CTRL_C_EXIT_PROMPT));
    assert!(!is_ctrl_c_exit_prompt("refreshed workspace"));
}

#[test]
fn last_millisecond_of_window_still_quits() {
    let armed = handle_ctrl_c(None, 0);
    assert_eq!(armed.armed_until, Some(2000));
    assert!(handle_ctrl_c(armed.armed_until, 1999).quit);
    assert!(!handle_ctrl_c(armed.armed_until, 2000).quit);
}

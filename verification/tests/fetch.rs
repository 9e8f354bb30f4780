use workspace_status::fetch::{
    background_fetch_targets, fetch_interval_ms, FetchCheckout, DEFAULT_FETCH_MS, MIN_FETCH_MS,
};

fn snap(name: &str, primary: Option<&str>) -> FetchCheckout {
    FetchCheckout { repo: name.into(), primary_repo: primary.map(str::to_string) }
}

#[test]
fn zero_disables() {
    assert_eq!(fetch_interval_ms(Some("0")), 0);
}

#[test]
fn default_and_clamp() {
    assert_eq!(fetch_interval_ms(None), DEFAULT_FETCH_MS);
    assert_eq!(fetch_interval_ms(Some("")), DEFAULT_FETCH_MS);
    assert_eq!(fetch_interval_ms(Some("-1")), DEFAULT_FETCH_MS);
    assert_eq!(fetch_interval_ms(Some("nope")), DEFAULT_FETCH_MS);
    assert_eq!(fetch_interval_ms(Some("1000")), MIN_FETCH_MS);
    assert_eq!(fetch_interval_ms(Some("600000")), 600_000);
}

#[test]
fn signs_and_overflow() {
    assert_eq!(fetch_interval_ms(Some("+45000")), 45_000);
    assert_eq!(fetch_interval_ms(Some("-0")), 0);
    assert_eq!(fetch_interval_ms(Some("9223372036854775807")), 9_223_372_036_854_775_807);
    assert_eq!(fetch_interval_ms(Some("9223372036854775808")), DEFAULT_FETCH_MS);
    assert_eq!(fetch_interval_ms(Some(" 60000")), DEFAULT_FETCH_MS);
    assert_eq!(fetch_interval_ms(Some("+")), DEFAULT_FETCH_MS);
}

#[test]
fn background_targets_include_linked_worktrees_and_shown_ignored() {
    let checkouts = vec![
        snap("app", None),
        snap("app/.worktrees/feat", Some("app")),
        snap("notes", None),
        snap("notes/.worktrees/feat", Some("notes")),
    ];
    let ignored = vec!["notes".to_string()];
    assert_eq!(background_fetch_targets(&checkouts, &ignored, false), vec!["app", "app/.worktrees/feat"]);
    assert_eq!(
        background_fetch_targets(&checkouts, &ignored, true),
        vec!["app", "app/.worktrees/feat", "notes", "notes/.worktrees/feat"]
    );
}

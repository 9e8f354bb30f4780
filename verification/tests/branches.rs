use workspace_status::branches::parse_local_branches;
use workspace_status::branches::{
    checkout_name_for_ref, checkoutable_branch_names, filter_branches, is_origin_remote_ref,
    is_valid_branch_name, local_name_from_origin_ref, plan_graph_checkout, sort_branches_for_picker,
    BranchPickerState, GraphCheckoutPlan, GraphRef, LocalBranch,
};

fn b(name: &str, current: bool, authordate: i64) -> LocalBranch {
    LocalBranch { name: name.into(), current, authordate }
}

#[test]
fn default_branch_pins_first_then_newest() {
    let sorted = sort_branches_for_picker(
        vec![b("feature/z", false, 30), b("main", true, 10), b("feature/a", false, 20)],
        Some("main"),
    );
    assert_eq!(
        sorted.iter().map(|x| x.name.as_str()).collect::<Vec<_>>(),
        vec!["main", "feature/z", "feature/a"]
    );
}

#[test]
fn filter_is_case_insensitive() {
    let branches = vec![b("main", true, 1), b("feature/JBY", false, 2)];
    let hits = filter_branches(&branches, "jby");
    assert_eq!(hits.len(), 1);
    assert_eq!(hits[0].name, "feature/JBY");
}

#[test]
fn branch_name_rules() {
    assert!(is_valid_branch_name("feature/x"));
    assert!(!is_valid_branch_name(""));
    assert!(!is_valid_branch_name("has space"));
    assert!(!is_valid_branch_name("-bad"));
}

#[test]
fn checkoutable_names_locals_then_origin() {
    let names = checkoutable_branch_names(&[
        GraphRef::remote("origin/z"),
        GraphRef::local("topic"),
        GraphRef::local("main"),
        GraphRef::remote("origin/main"),
        GraphRef::local("topic"),
    ]);
    assert_eq!(names, vec!["main", "topic", "origin/main", "origin/z"]);
    assert_eq!(checkout_name_for_ref("origin/main"), "main");
    assert_eq!(checkout_name_for_ref("feature/x"), "feature/x");
}

#[test]
fn plan_local_selection_never_confirms() {
    assert_eq!(
        plan_graph_checkout("main", true, Some("aaa"), Some("bbb")),
        GraphCheckoutPlan::Checkout { branch: "main".into() }
    );
}

#[test]
fn plan_origin_with_no_local_checkouts_short_name() {
    assert_eq!(
        plan_graph_checkout("origin/feature/x", false, None, Some("abc")),
        GraphCheckoutPlan::Checkout { branch: "feature/x".into() }
    );
}

#[test]
fn plan_origin_with_local_same_sha_checkouts_short_name() {
    assert_eq!(
        plan_graph_checkout("origin/main", true, Some("aaa"), Some("aaa")),
        GraphCheckoutPlan::Checkout { branch: "main".into() }
    );
}

#[test]
fn plan_origin_with_local_different_sha_confirms() {
    assert_eq!(
        plan_graph_checkout("origin/main", true, Some("aaa"), Some("bbb")),
        GraphCheckoutPlan::ConfirmLocalThenPull {
            local_branch: "main".into(),
            remote_ref: "origin/main".into(),
        }
    );
}

#[test]
fn plan_origin_with_local_but_a_sha_is_null_confirms() {
    assert_eq!(
        plan_graph_checkout("origin/main", true, Some("aaa"), None),
        GraphCheckoutPlan::ConfirmLocalThenPull {
            local_branch: "main".into(),
            remote_ref: "origin/main".into(),
        }
    );
    assert_eq!(
        plan_graph_checkout("origin/main", true, None, Some("bbb")),
        GraphCheckoutPlan::ConfirmLocalThenPull {
            local_branch: "main".into(),
            remote_ref: "origin/main".into(),
        }
    );
}

#[test]
fn checkoutable_names_skip_tags_and_non_origin() {
    let names = checkoutable_branch_names(&[
        GraphRef::tag("v1.0"),
        GraphRef::remote("upstream/main"),
        GraphRef::local("topic"),
        GraphRef::remote("origin/topic"),
    ]);
    assert_eq!(names, vec!["topic", "origin/topic"]);
}

#[test]
fn picker_cursor_clamps_on_filter() {
    let mut picker = BranchPickerState::new("app".into(), vec![b("main", true, 1), b("feat", false, 2)]);
    picker.cursor = 1;
    picker.set_filter("main".into());
    assert_eq!(picker.cursor, 0);
    assert_eq!(picker.selected().map(|b| b.name.as_str()), Some("main"));
}

#[test]
fn equal_keys_keep_input_order_and_names_break_date_ties() {
    let sorted = sort_branches_for_picker(
        vec![b("b", false, 5), b("a", true, 5), b("a", false, 5), b("c", false, 9)],
        None,
    );
    let got: Vec<(&str, bool)> = sorted.iter().map(|x| (x.name.as_str(), x.current)).collect();
    assert_eq!(got, vec![("c", false), ("a", true), ("a", false), ("b", false)]);
}

#[test]
fn origin_prefix_helpers() {
    assert!(is_origin_remote_ref("origin/x"));
    assert!(!is_origin_remote_ref("origin"));
    assert!(!is_origin_remote_ref("upstream/x"));
    assert_eq!(local_name_from_origin_ref("origin/a/b"), "a/b");
    assert_eq!(local_name_from_origin_ref("a/b"), "a/b");
}

#[test]
fn picker_from_names_and_cursor_moves() {
    let mut picker = BranchPickerState::from_names(
        "app".into(),
        vec!["x".into(), "y".into(), "z".into()],
        Some("abc123".into()),
    );
    assert_eq!(picker.commit_id.as_deref(), Some("abc123"));
    assert_eq!(picker.branches[1].authordate, 0);
    picker.move_cursor(5);
    assert_eq!(picker.cursor, 2);
    picker.move_cursor(-1);
    assert_eq!(picker.cursor, 1);
    picker.move_cursor(-9);
    assert_eq!(picker.cursor, 0);
    picker.set_filter("nothing".into());
    assert_eq!(picker.cursor, 0);
    assert!(picker.selected().is_none());
    assert!(picker.visible().is_empty());
}

#[test]
fn blank_filter_keeps_everything() {
    let branches = vec![b("main", true, 1), b("dev", false, 2)];
    assert_eq!(filter_branches(&branches, "   ").len(), 2);
    assert_eq!(filter_branches(&branches, " MA ").len(), 1);
}

#[test]
fn parse_local_branches_reads_for_each_ref_lines() {
    let text = "main\0*\01700000000\nfeature/x\0 \0 1690000000 \nbroken\0line\n\ndate\0\0soon\n";
    let got = parse_local_branches(text);
    assert_eq!(got.len(), 3);
    assert_eq!((got[0].name.as_str(), got[0].current, got[0].authordate), ("main", true, 1_700_000_000));
    assert_eq!((got[1].name.as_str(), got[1].current, got[1].authordate), ("feature/x", false, 1_690_000_000));
    assert_eq!((got[2].name.as_str(), got[2].current, got[2].authordate), ("date", false, 0));
    assert!(parse_local_branches("").is_empty());
}

use workspace_status::branches::LocalBranch;
use workspace_status::graph_focus::{focus_rev_for_branch, GraphFocusPickerState};

fn b(name: &str) -> LocalBranch {
    LocalBranch { name: name.into(), current: false, authordate: 0 }
}

#[test]
fn enter_without_marks_uses_cursor_row() {
    let picker = GraphFocusPickerState::new("app".into(), vec![b("main"), b("feature/keep")], &[]);
    assert_eq!(picker.apply_names(), Some(vec!["main".into()]));
}

#[test]
fn space_marks_win_over_cursor() {
    let mut picker = GraphFocusPickerState::new(
        "app".into(),
        vec![b("main"), b("feature/keep"), b("topic/noise")],
        &[],
    );
    picker.move_cursor(1);
    picker.toggle_mark();
    picker.move_cursor(1);
    picker.toggle_mark();
    assert_eq!(picker.apply_names(), Some(vec!["feature/keep".into(), "topic/noise".into()]));
}

#[test]
fn filter_then_enter_applies_the_hit() {
    let mut picker = GraphFocusPickerState::new(
        "app".into(),
        vec![b("main"), b("feature/keep"), b("topic/noise")],
        &[],
    );
    picker.set_filter("keep".into());
    assert_eq!(picker.apply_names(), Some(vec!["feature/keep".into()]));
}

#[test]
fn filter_then_enter_replaces_hidden_preselection() {
    let mut picker = GraphFocusPickerState::new(
        "app".into(),
        vec![b("main"), b("feature/keep"), b("topic/noise")],
        &["feature/keep".into()],
    );
    picker.set_filter("noise".into());
    assert_eq!(
        picker.apply_names(),
        Some(vec!["topic/noise".into()]),
        "Enter on a filtered hit should apply that row, not hidden pre-marks"
    );
}

#[test]
fn marking_filtered_row_replaces_hidden_preselection() {
    let mut picker = GraphFocusPickerState::new(
        "app".into(),
        vec![b("main"), b("feature/keep"), b("topic/noise")],
        &["feature/keep".into()],
    );
    picker.set_filter("noise".into());
    picker.toggle_mark();
    assert_eq!(
        picker.apply_names(),
        Some(vec!["topic/noise".into()]),
        "space-marking the visible row should apply that row, not union with hidden pre-marks"
    );
}

#[test]
fn enter_with_visible_preselection_keeps_marks() {
    let picker = GraphFocusPickerState::new(
        "app".into(),
        vec![b("main"), b("feature/keep")],
        &["feature/keep".into()],
    );
    assert_eq!(picker.apply_names(), Some(vec!["feature/keep".into()]));
}

#[test]
fn unmarking_preselection_then_enter_clears() {
    let mut picker = GraphFocusPickerState::new(
        "app".into(),
        vec![b("main"), b("feature/keep"), b("topic/noise")],
        &["feature/keep".into()],
    );
    picker.toggle_mark();
    assert!(picker.marked().is_empty());
    assert_eq!(
        picker.apply_names(),
        Some(Vec::new()),
        "removing every [x] then Enter must restore --all, not the cursor row"
    );
}

#[test]
fn space_on_then_off_without_prior_focus_clears() {
    let mut picker = GraphFocusPickerState::new("app".into(), vec![b("main"), b("feature/keep")], &[]);
    picker.toggle_mark();
    picker.toggle_mark();
    assert_eq!(picker.apply_names(), Some(Vec::new()));
}

#[test]
fn empty_filter_hits_are_a_noop() {
    let mut picker = GraphFocusPickerState::new("app".into(), vec![b("main"), b("feature/keep")], &[]);
    picker.set_filter("zzz".into());
    assert_eq!(picker.apply_names(), None);
}

#[test]
fn preselected_names_start_marked() {
    let picker = GraphFocusPickerState::new(
        "app".into(),
        vec![b("main"), b("feature/keep")],
        &["feature/keep".into(), "gone".into()],
    );
    assert_eq!(picker.marked().iter().cloned().collect::<Vec<_>>(), vec!["feature/keep".to_string()]);
    assert_eq!(picker.selected().map(|b| b.name.as_str()), Some("feature/keep"));
}

#[test]
fn focus_rev_prefixes_local_names() {
    assert_eq!(focus_rev_for_branch("feature/keep"), "refs/heads/feature/keep");
    assert_eq!(focus_rev_for_branch("refs/heads/main"), "refs/heads/main");
}

#[test]
fn marks_stay_sorted_and_unique() {
    let mut picker = GraphFocusPickerState::new(
        "app".into(),
        vec![b("zeta"), b("alpha"), b("mid")],
        &["mid".into(), "zeta".into(), "mid".into()],
    );
    assert_eq!(*picker.marked(), vec!["mid".to_string(), "zeta".to_string()]);
    assert_eq!(picker.cursor(), 2);
    picker.move_cursor(-1);
    picker.toggle_mark();
    assert_eq!(*picker.marked(), vec!["alpha".to_string(), "mid".to_string(), "zeta".to_string()]);
    assert_eq!(picker.cursor(), 1);
    picker.move_cursor(1);
    picker.toggle_mark();
    assert_eq!(*picker.marked(), vec!["alpha".to_string(), "zeta".to_string()]);
}

#[test]
fn space_twice_restores_marks() {
    let mut picker =
        GraphFocusPickerState::new("app".into(), vec![b("alpha"), b("main"), b("zeta")], &["zeta".to_string()]);
    let before = picker.marked().clone();
    picker.toggle_mark();
    assert_ne!(*picker.marked(), before);
    picker.toggle_mark();
    assert_eq!(*picker.marked(), before);
}

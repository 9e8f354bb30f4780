use workspace_status::easy_motion::{
    easy_motion_labels, list_viewport_start, resolve_easy_motion_jump, resolve_easy_motion_label,
    visible_window, EasyMotionResolve,
};

#[test]
fn labels_a_z_then_aa() {
    let labels = easy_motion_labels(28);
    assert_eq!(labels[0], "a");
    assert_eq!(labels[25], "z");
    assert_eq!(labels[26], "aa");
    assert_eq!(labels[27], "ab");
}

#[test]
fn resolve_hit_partial_miss() {
    let labels = easy_motion_labels(28);
    assert_eq!(resolve_easy_motion_label(&labels, "a"), EasyMotionResolve::Hit { index: 0 });
    assert_eq!(resolve_easy_motion_label(&labels, "aa"), EasyMotionResolve::Hit { index: 26 });
    assert_eq!(resolve_easy_motion_label(&labels, "q"), EasyMotionResolve::Hit { index: 16 });
    assert_eq!(
        resolve_easy_motion_label(&["aa".into(), "ab".into()], "a"),
        EasyMotionResolve::Partial
    );
    assert_eq!(resolve_easy_motion_label(&labels, "zz"), EasyMotionResolve::Miss);
}

#[test]
fn jump_is_viewport_relative() {
    assert_eq!(resolve_easy_motion_jump(20, 30, "a"), EasyMotionResolve::Hit { index: 30 });
    assert_eq!(resolve_easy_motion_jump(20, 30, "b"), EasyMotionResolve::Hit { index: 31 });
    assert_eq!(resolve_easy_motion_jump(28, 10, "aa"), EasyMotionResolve::Hit { index: 36 });
    assert_eq!(resolve_easy_motion_jump(28, 0, "zz"), EasyMotionResolve::Miss);
}

#[test]
fn viewport_centres_on_cursor() {
    assert_eq!(visible_window(100, 50, 10), (45, 10));
    assert_eq!(visible_window(8, 7, 20), (0, 8));
    assert_eq!(visible_window(40, 39, 2), (38, 2));
}

#[test]
fn last_two_letter_label_is_zz() {
    let labels = easy_motion_labels(702);
    assert_eq!(labels.len(), 702);
    assert_eq!(labels[701], "zz");
    assert_eq!(labels[52], "ba");
    assert_eq!(resolve_easy_motion_label(&labels, "zz"), EasyMotionResolve::Hit { index: 701 });
}

#[test]
fn every_label_hits_its_own_slot() {
    let labels = easy_motion_labels(60);
    for (i, l) in labels.iter().enumerate() {
        assert_eq!(resolve_easy_motion_label(&labels, l), EasyMotionResolve::Hit { index: i });
    }
}

#[test]
fn empty_prefix_is_partial_and_zero_height_is_one_row() {
    assert_eq!(resolve_easy_motion_label(&[], ""), EasyMotionResolve::Partial);
    assert_eq!(resolve_easy_motion_label(&[], "a"), EasyMotionResolve::Miss);
    assert_eq!(visible_window(5, 3, 0), (3, 1));
    assert_eq!(list_viewport_start(0, 0, 10), 0);
}

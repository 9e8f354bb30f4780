use workspace_status::diff::{
    anchor_row_index, build_diff_rows, diff_pane_header, diff_pane_mode_label, gutter_width,
    parse_unified_diff, scroll_to_keep_row, synthesize_all_add_diff, DiffCellKind, DiffContent,
    DiffMode, DiffRow, DiffSection,
};

const FIXTURE: &str = "\
diff --git a/hello.ts b/hello.ts
index 1111111..2222222 100644
--- a/hello.ts
+++ b/hello.ts
@@ -10,3 +10,4 @@
 line1
-line2
+line2 changed
 line3
+line4
";

#[test]
fn parse_seeds_counters_from_hunk_header() {
    let hunks = parse_unified_diff(FIXTURE);
    assert_eq!(hunks.len(), 1);
    let kinds: Vec<_> = hunks[0]
        .lines
        .iter()
        .map(|l| (l.kind, l.old_no, l.new_no))
        .collect();
    assert_eq!(
        kinds,
        vec![
            (DiffCellKind::Ctx, Some(10), Some(10)),
            (DiffCellKind::Del, Some(11), None),
            (DiffCellKind::Add, None, Some(11)),
            (DiffCellKind::Ctx, Some(12), Some(12)),
            (DiffCellKind::Add, None, Some(13)),
        ]
    );
}

#[test]
fn parse_tolerates_garbage_hunk_header() {
    let hunks = parse_unified_diff("@@ garbage @@\n+a\n");
    assert_eq!(hunks[0].lines[0].kind, DiffCellKind::Add);
    assert_eq!(hunks[0].lines[0].new_no, Some(0));
}

#[test]
fn build_diff_rows_emits_section_per_nonempty_slot() {
    let staged = build_diff_rows(
        &DiffContent {
            staged: FIXTURE.into(),
            unstaged: String::new(),
            is_new: false,
        },
        DiffMode::Inline,
    );
    assert_eq!(staged[0], DiffRow::Section(DiffSection::Staged));
    assert!(!staged
        .iter()
        .any(|r| matches!(r, DiffRow::Section(DiffSection::Unstaged))));

    let both = build_diff_rows(
        &DiffContent {
            staged: FIXTURE.into(),
            unstaged: FIXTURE.into(),
            is_new: false,
        },
        DiffMode::Inline,
    );
    let sections: Vec<_> = both
        .iter()
        .filter_map(|r| match r {
            DiffRow::Section(s) => Some(*s),
            _ => None,
        })
        .collect();
    assert_eq!(sections, vec![DiffSection::Staged, DiffSection::Unstaged]);
    assert!(build_diff_rows(&DiffContent::default(), DiffMode::Inline).is_empty());
}

#[test]
fn untracked_section_is_new() {
    let rows = build_diff_rows(
        &DiffContent {
            staged: String::new(),
            unstaged: FIXTURE.into(),
            is_new: true,
        },
        DiffMode::Inline,
    );
    assert_eq!(rows[0], DiffRow::Section(DiffSection::New));
}

#[test]
fn inline_mode_one_cell_per_line() {
    let rows = build_diff_rows(
        &DiffContent {
            staged: FIXTURE.into(),
            unstaged: String::new(),
            is_new: false,
        },
        DiffMode::Inline,
    );
    let lines: Vec<_> = rows
        .iter()
        .filter(|r| matches!(r, DiffRow::Line { .. }))
        .collect();
    assert_eq!(lines.len(), 5);
    assert!(lines
        .iter()
        .all(|r| matches!(r, DiffRow::Line { right: None, .. })));
}

#[test]
fn side_by_side_pairs_del_with_add() {
    let rows = build_diff_rows(
        &DiffContent {
            staged: FIXTURE.into(),
            unstaged: String::new(),
            is_new: false,
        },
        DiffMode::SideBySide,
    );
    let changed = rows.iter().find_map(|r| match r {
        DiffRow::Line { left, right } if left.text == "line2" => Some((left, right)),
        _ => None,
    });
    let (left, right) = changed.expect("del row");
    assert_eq!(left.kind, DiffCellKind::Del);
    assert_eq!(right.as_ref().map(|c| c.kind), Some(DiffCellKind::Add));
    assert_eq!(
        right.as_ref().map(|c| c.text.as_str()),
        Some("line2 changed")
    );

    let added = rows.iter().find_map(|r| match r {
        DiffRow::Line { left, right }
            if right.as_ref().map(|c| c.text.as_str()) == Some("line4") =>
        {
            Some(left.kind)
        }
        _ => None,
    });
    assert_eq!(added, Some(DiffCellKind::Empty));
}

#[test]
fn side_by_side_zips_del_add_runs() {
    let rows = build_diff_rows(
        &DiffContent::from_unified("@@ -1,2 +1,2 @@\n-a\n-b\n+a2\n+b2\n".into()),
        DiffMode::SideBySide,
    );
    let pairs: Vec<_> = rows
        .iter()
        .filter_map(|r| match r {
            DiffRow::Line { left, right } => {
                Some((left.text.as_str(), right.as_ref().map(|c| c.text.as_str())))
            }
            _ => None,
        })
        .collect();
    assert_eq!(pairs, vec![("a", Some("a2")), ("b", Some("b2"))]);
}

#[test]
fn binary_marker_is_meta_cell() {
    let rows = build_diff_rows(
        &DiffContent::from_unified("Binary files a/x and b/x differ\n".into()),
        DiffMode::Inline,
    );
    let DiffRow::Line { left, .. } = &rows
        .iter()
        .find(|r| matches!(r, DiffRow::Line { .. }))
        .unwrap()
    else {
        panic!("expected line");
    };
    assert_eq!(left.kind, DiffCellKind::Meta);
    assert!(left.text.contains("Binary files"));
}

#[test]
fn gutter_width_floors_at_two_and_grows() {
    assert_eq!(gutter_width(&[]), 2);
    let small = build_diff_rows(
        &DiffContent {
            staged: FIXTURE.into(),
            unstaged: String::new(),
            is_new: false,
        },
        DiffMode::Inline,
    );
    assert_eq!(gutter_width(&small), 2);
    let big = build_diff_rows(
        &DiffContent::from_unified("@@ -1200,1 +1200,1 @@\n-a\n+b\n".into()),
        DiffMode::Inline,
    );
    assert_eq!(gutter_width(&big), 4);
}

#[test]
fn header_includes_path_mode_and_optional_full() {
    assert_eq!(
        diff_pane_header("app/README.md", "inline", false, 0, 0, 20, 5),
        "app/README.md  inline"
    );
    assert_eq!(
        diff_pane_header("src/lib.rs", "split", true, 3, 0, 10, 40),
        "src/lib.rs  split · full · pan 3  10/40"
    );
    assert_eq!(
        diff_pane_mode_label(DiffMode::SideBySide, DiffMode::Inline),
        "inline (too narrow)"
    );
}

#[test]
fn blank_content_and_from_lines() {
    assert!(DiffContent::default().is_blank());
    assert!(!DiffContent::from_unified("@@ -1 +1 @@\n+a\n".into()).is_blank());
    let from_vec = DiffContent::from_lines(vec!["@@ -1 +1 @@".into(), "+a".into()]);
    assert!(!from_vec.is_blank());
}

#[test]
fn synthesize_empty_and_body() {
    assert_eq!(synthesize_all_add_diff(""), "@@ -0,0 +0,0 @@\n");
    assert_eq!(
        synthesize_all_add_diff("a\nb\n"),
        "@@ -0,0 +1,2 @@\n+a\n+b\n"
    );
}

#[test]
fn anchor_prefers_visible_add_or_del() {
    let rows = build_diff_rows(
        &DiffContent::from_unified("@@ -1,2 +1,2 @@\n ctx\n-old\n+new\n".into()),
        DiffMode::Inline,
    );
    // 0 section, 1 hunk, 2 ctx, 3 del, 4 add
    assert_eq!(anchor_row_index(&rows, 0, 10), 3);
    assert_eq!(scroll_to_keep_row(3, 9, rows.len()), 0);
}

#[test]
fn crlf_lines_and_hunk_counts_parse() {
    let hunks = parse_unified_diff("@@ -7,2 +9,3 @@\r\n ctx\r\n+new\r\n");
    assert_eq!(hunks.len(), 1);
    assert_eq!(hunks[0].header, "@@ -7,2 +9,3 @@");
    assert_eq!(hunks[0].lines[0].text, "ctx");
    assert_eq!(hunks[0].lines[0].old_no, Some(7));
    assert_eq!(hunks[0].lines[1].new_no, Some(10));
    assert!(parse_unified_diff("  \n").is_empty());
}

use workspace_status::help::{
    help_body_line_count, help_chip_gap_spaces, help_chip_pad_width, help_column_width,
    help_desc_layout, help_entries, help_entry_label, help_entry_matches, help_entry_visual_lines,
    help_groups, help_idle_footer, help_inner_width, help_match_indices, help_overlay_row_count,
    help_status_lines, wrap_help_description, wrap_help_footer, HelpDescLayout, HELP_COLUMN_COUNT,
    HELP_KEY_WIDTH,
};

#[test]
fn matches_case_insensitive_keys_or_desc() {
    assert!(help_entry_matches("Ctrl-o", "full-file · keep hunk in view", "ctrl"));
    assert!(help_entry_matches("Ctrl-o", "full-file · keep hunk in view", "FILE"));
    assert!(!help_entry_matches("Ctrl-o", "full-file · keep hunk in view", "zzz"));
}

#[test]
fn empty_query_is_not_a_match() {
    assert!(!help_entry_matches("j k", "down / up", ""));
    assert!(!help_entry_matches("j k", "down / up", "   "));
}

#[test]
fn groups_are_move_git_view() {
    let groups = help_groups();
    assert_eq!(groups.len(), HELP_COLUMN_COUNT);
    assert_eq!(groups[0].title, "MOVE");
    assert_eq!(groups[1].title, "GIT");
    assert_eq!(groups[2].title, "VIEW");
    let keys: Vec<&str> = help_entries().iter().map(|e| e.keys).collect();
    assert!(keys.contains(&"q"));
    assert!(keys.contains(&"Tab"));
    assert!(keys.contains(&"C"));
    assert!(keys.contains(&"a p D"));
    assert!(keys.contains(&"Home End"));
    let git_keys: Vec<&str> = groups[1].entries.iter().map(|e| e.keys).collect();
    assert!(git_keys.contains(&"m"));
    let move_keys: Vec<&str> = groups[0].entries.iter().map(|e| e.keys).collect();
    let view_keys: Vec<&str> = groups[2].entries.iter().map(|e| e.keys).collect();
    assert!(!move_keys.contains(&"PgUp PgDn"));
    assert!(!move_keys.contains(&"Ctrl-u Ctrl-d"));
    assert!(view_keys.contains(&"PgUp PgDn"));
    assert!(view_keys.contains(&"Ctrl-u Ctrl-d"));
    assert!(view_keys.contains(&"."));
    assert!(view_keys.contains(&"T"));
    assert!(view_keys.contains(&"Ctrl-o"));
    assert!(view_keys.contains(&"m"));
    assert!(view_keys.contains(&"Esc"));
    let entries = help_entries();
    assert!(help_match_indices("quit").iter().any(|&i| entries.get(i).is_some_and(|e| e.keys == "q")));
}

#[test]
fn overlay_height_grows_when_columns_narrow() {
    let row_count = help_groups().iter().map(|group| group.entries.len()).max().unwrap_or(0);
    let wide = help_status_lines(300);
    let mid = help_status_lines(128);
    let narrow = help_status_lines(80);
    assert_eq!(wide, (2 + 1 + row_count + 1) as u16);
    assert!(mid > wide, "128 cols still wraps some descriptions");
    assert!(narrow > mid, "narrow terminals wrap more and take more rows");
    assert!(HELP_KEY_WIDTH >= 18);
}

#[test]
fn wrap_breaks_words_and_long_tokens() {
    assert_eq!(wrap_help_description("", 10), vec![""]);
    assert_eq!(wrap_help_description("   ", 10), vec![""]);
    assert_eq!(wrap_help_description("one two three", 7), vec!["one two", "three"]);
    assert_eq!(wrap_help_description("abcdefghij xy", 4), vec!["abcd", "efgh", "ij", "xy"]);
    assert_eq!(wrap_help_description("abcdefgh", 4), vec!["abcd", "efgh"]);
    assert_eq!(wrap_help_description("ab cd", 0), vec!["a", "b", "c", "d"]);
    assert_eq!(wrap_help_footer("a b", 0), vec!["a", "b"]);
}

#[test]
fn chip_widths_and_layout() {
    assert_eq!(help_chip_pad_width("j k"), 18);
    assert_eq!(help_chip_gap_spaces("j k"), 10);
    assert_eq!(help_chip_pad_width("Ctrl-u Ctrl-d"), 19);
    assert_eq!(help_chip_gap_spaces("Ctrl-u Ctrl-d"), 1);
    assert_eq!(
        help_desc_layout(30, 18),
        HelpDescLayout { indent: 18, width: 12, desc_on_first_line: true }
    );
    assert_eq!(
        help_desc_layout(10, 18),
        HelpDescLayout { indent: 0, width: 10, desc_on_first_line: false }
    );
    assert_eq!(help_inner_width(3), 0);
    assert_eq!(help_column_width(3), 1);
    assert_eq!(help_column_width(64), 20);
    assert_eq!(help_overlay_row_count(5, 2), 10);
    assert_eq!(help_entry_label("j k", "down / up"), "j k down / up");
    assert!(help_idle_footer().contains("/ search help"));
}

#[test]
fn visual_lines_put_chips_alone_when_column_is_narrow() {
    let lines = help_entry_visual_lines("down / up", 10, "j k");
    assert!(lines[0].chips);
    assert_eq!(lines[0].text, "");
    assert!(lines.iter().skip(1).all(|l| !l.chips && l.indent == 0));
    let wide = help_entry_visual_lines("down / up", 40, "j k");
    assert_eq!(wide.len(), 1);
    assert_eq!(wide[0].text, "down / up");
    let groups = help_groups();
    assert_eq!(help_body_line_count(&groups, 200), 16);
}

#[test]
fn wrapped_lines_never_exceed_width() {
    let text = "a fairly long description with averyveryverylongwordthatmustbreak and more words after it";
    for width in [0usize, 1, 3, 7, 12, 40] {
        let lines = workspace_status::help::wrap_help_description(text, width);
        let col = width.max(1);
        assert!(!lines.is_empty());
        for line in &lines {
            assert!(line.chars().count() <= col, "{width}: {line:?}");
        }
    }
}

#[test]
fn wrapping_keeps_every_non_space_char_in_order() {
    let text = "  open the   focused file in $EDITOR averyveryverylongword end ";
    for width in [1usize, 4, 9, 30] {
        let lines = workspace_status::help::wrap_help_description(text, width);
        let joined: String = lines.concat().chars().filter(|c| *c != ' ').collect();
        let expected: String = text.split_whitespace().collect::<String>();
        assert_eq!(joined, expected, "{width}");
    }
}

use unicode_width::UnicodeWidthStr;
use workspace_status::icons::{
    file_icon, has_wide_emoji, icon_ahead, icon_behind, icon_branch,
    icon_clean, icon_diverged, icon_folder, icon_ignored, icon_linked_worktree,
    icon_merged_into_default, icon_no_upstream, icon_open_vs_default, icon_repo, icon_synced,
    icon_viewed, icon_workspace, status_letter_from_change, sync_color_role, truncate_visible,
    tui_file_badge, tui_merge_mark, tui_sync_mark, FileChange, FileStatusLetter, StatusColorRole,
    SyncStatus, ASCII_FILE_GLYPH, CURSOR_BAR, FOLD_COLLAPSED, FOLD_EXPANDED, ICON_VIEWED_ASCII,
    ICON_VIEWED_NERD, RULE,
};

fn visible_width(s: &str) -> usize {
    s.width()
}

fn change(untracked: bool, staged: Option<&str>, unstaged: Option<&str>) -> FileChange {
    FileChange {
        path: "a".into(),
        staged_status: staged.map(str::to_string),
        unstaged_status: unstaged.map(str::to_string),
        untracked,
        old_path: None,
    }
}

#[test]
fn badges_are_two_columns_and_match_ink() {
    let letters = [
        FileStatusLetter::A,
        FileStatusLetter::M,
        FileStatusLetter::S,
        FileStatusLetter::Ms,
        FileStatusLetter::D,
        FileStatusLetter::R,
        FileStatusLetter::U,
        FileStatusLetter::C,
    ];
    let expected = ["A ", "M ", "S ", "MS", "D ", "R ", "U ", "C "];
    for (letter, want) in letters.into_iter().zip(expected) {
        assert_eq!(letter.badge(), want);
        assert_eq!(visible_width(letter.badge()), 2);
    }
    assert_eq!(status_letter_from_change(&change(true, None, None)), FileStatusLetter::A);
    assert_eq!(status_letter_from_change(&change(false, Some("M"), Some("M"))), FileStatusLetter::Ms);
    assert_eq!(status_letter_from_change(&change(false, Some("M"), None)), FileStatusLetter::S);
    assert_eq!(status_letter_from_change(&change(false, None, Some("M"))), FileStatusLetter::M);
    assert_eq!(status_letter_from_change(&change(false, Some("U"), Some("M"))), FileStatusLetter::U);
    assert_eq!(tui_file_badge(&change(true, None, None)), "A ");
}

#[test]
fn structure_glyphs_are_width_one() {
    let ascii = [
        icon_workspace(true),
        icon_repo(true),
        icon_linked_worktree(true),
        icon_branch(true),
        icon_folder(true),
        icon_clean(true),
        icon_ignored(true),
        icon_ahead(true),
        icon_behind(true),
        icon_diverged(true),
        icon_no_upstream(true),
        icon_synced(true),
        icon_merged_into_default(true),
        icon_open_vs_default(true),
        icon_viewed(true),
        ASCII_FILE_GLYPH,
    ];
    let nerd = [
        icon_workspace(false),
        icon_repo(false),
        icon_linked_worktree(false),
        icon_branch(false),
        icon_folder(false),
        icon_clean(false),
        icon_ignored(false),
        icon_ahead(false),
        icon_behind(false),
        icon_diverged(false),
        icon_no_upstream(false),
        icon_synced(false),
        icon_merged_into_default(false),
        icon_open_vs_default(false),
        icon_viewed(false),
        CURSOR_BAR,
        FOLD_EXPANDED,
        FOLD_COLLAPSED,
        RULE,
    ];
    for g in ascii.into_iter().chain(nerd) {
        assert_eq!(visible_width(g), 1, "{g:?}");
        assert!(!has_wide_emoji(g), "{g:?}");
    }
    assert_eq!(icon_workspace(true), "#");
    assert_eq!(icon_viewed(true), "*");
    assert_ne!(icon_viewed(false), icon_clean(false));
    assert_ne!(icon_viewed(false), icon_synced(false));
}

#[test]
fn viewed_is_ink_nf_fa_eye_not_a_substitute() {
    assert_eq!(icon_viewed(false), "\u{f06e}");
    assert_eq!(icon_viewed(true), "*");
    assert_eq!(icon_viewed(false), ICON_VIEWED_NERD);
    assert_eq!(icon_viewed(true), ICON_VIEWED_ASCII);
    let nerd = icon_viewed(false).chars().next().expect("glyph");
    assert_eq!(u32::from(nerd), 0xf06e);
    assert_ne!(nerd, '\u{25c9}');
    assert_ne!(nerd, '\u{f07a}');
    assert_eq!(visible_width(icon_viewed(false)), 1);
}

#[test]
fn file_icons_and_ascii_fallback() {
    assert_eq!(file_icon(true, "a.ts").glyph, "·");
    assert_eq!(visible_width(file_icon(false, "a.ts").glyph), 1);
    assert_eq!(visible_width(file_icon(false, "a.wat").glyph), 1);
    assert_ne!(file_icon(false, "package.json").glyph, file_icon(false, "tsconfig.json").glyph);
    assert_eq!(file_icon(false, "README.md").glyph, file_icon(false, "readme.md").glyph);
}

#[test]
fn sync_and_merge_marks() {
    assert_eq!(
        tui_sync_mark(false, SyncStatus::Behind, "behind by 3"),
        format!("{}3", icon_behind(false))
    );
    assert_eq!(tui_sync_mark(true, SyncStatus::Ahead, "ahead by 2"), "^2".to_string());
    assert_eq!(tui_sync_mark(true, SyncStatus::NoUpstream, ""), "?".to_string());
    assert_eq!(tui_sync_mark(true, SyncStatus::Diverged, ""), "Y".to_string());
    assert_eq!(tui_sync_mark(true, SyncStatus::UpToDate, ""), "=".to_string());
    assert_eq!(tui_merge_mark(true, Some(true)), "M");
    assert_eq!(tui_merge_mark(true, Some(false)), "o");
    assert_eq!(tui_merge_mark(true, None), "");
}

#[test]
fn file_icon_lookup_order_and_colors() {
    let rs = file_icon(false, "src/deep/main.RS");
    assert_eq!(rs.glyph, "\u{e7a8}");
    assert_eq!(rs.color, Some("#dea584"));
    assert_eq!(file_icon(false, "Dockerfile").color, Some("#458ee6"));
    assert_eq!(file_icon(false, "notes.txt").color, None);
    assert_eq!(file_icon(false, "Makefile.md").glyph, "\u{f48a}");
    assert_eq!(file_icon(false, "noext").glyph, "\u{f15b}");
    assert_eq!(file_icon(false, "dir/").glyph, "\u{f15b}");
}

#[test]
fn sync_counts_and_roles() {
    assert_eq!(tui_sync_mark(true, SyncStatus::Behind, "x behind by 12 commits"), "v12");
    assert_eq!(tui_sync_mark(true, SyncStatus::Ahead, "no count here"), "^");
    assert_eq!(sync_color_role(SyncStatus::Behind), StatusColorRole::Deleted);
    assert_eq!(sync_color_role(SyncStatus::NoUpstream), StatusColorRole::Muted);
    assert_eq!(FileStatusLetter::Ms.as_str(), "MS");
    assert_eq!(FileStatusLetter::C.color_role(), StatusColorRole::Renamed);
    assert_eq!(status_letter_from_change(&change(false, Some("R"), None)), FileStatusLetter::R);
    assert_eq!(status_letter_from_change(&change(false, None, Some("D"))), FileStatusLetter::D);
    assert_eq!(status_letter_from_change(&change(false, Some("C"), None)), FileStatusLetter::S);
}

#[test]
fn truncate_by_columns() {
    assert_eq!(truncate_visible("hello", 0), "");
    assert_eq!(truncate_visible("hello", 5), "hello");
    assert_eq!(truncate_visible("hello", 3), "hel");
    assert_eq!(truncate_visible("日本語", 5), "日本");
    assert!(has_wide_emoji("party 🎉"));
    assert!(!has_wide_emoji("plain"));
}

#[test]
fn every_glyph_is_one_column() {
    let mut glyphs: Vec<&str> = vec![
        workspace_status::icons::FOLD_EXPANDED,
        workspace_status::icons::FOLD_COLLAPSED,
        workspace_status::icons::FOLD_EXPANDED_ASCII,
        workspace_status::icons::FOLD_COLLAPSED_ASCII,
        workspace_status::icons::CURSOR_BAR,
        workspace_status::icons::RULE,
        workspace_status::icons::DEFAULT_FILE_GLYPH,
        workspace_status::icons::ASCII_FILE_GLYPH,
    ];
    for ascii in [false, true] {
        glyphs.extend([
            workspace_status::icons::icon_workspace(ascii),
            workspace_status::icons::icon_repo(ascii),
            workspace_status::icons::icon_linked_worktree(ascii),
            workspace_status::icons::icon_branch(ascii),
            workspace_status::icons::icon_move(ascii),
            workspace_status::icons::icon_diff(ascii),
            workspace_status::icons::icon_folder(ascii),
            workspace_status::icons::icon_folder_open(ascii),
            workspace_status::icons::icon_clean(ascii),
            workspace_status::icons::icon_ignored(ascii),
            workspace_status::icons::icon_ahead(ascii),
            workspace_status::icons::icon_behind(ascii),
            workspace_status::icons::icon_diverged(ascii),
            workspace_status::icons::icon_no_upstream(ascii),
            workspace_status::icons::icon_synced(ascii),
            workspace_status::icons::icon_merged_into_default(ascii),
            workspace_status::icons::icon_open_vs_default(ascii),
            workspace_status::icons::icon_viewed(ascii),
        ]);
        for path in ["a.rs", "b.ts", "c.md", "Cargo.toml", "x.unknownext", "Makefile", ".gitignore"] {
            glyphs.push(workspace_status::icons::file_icon(ascii, path).glyph);
        }
    }
    for g in glyphs {
        assert_eq!(UnicodeWidthStr::width(g), 1, "{g:?}");
    }
}

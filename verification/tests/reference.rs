use workspace_status::comments::reference::{format_entity_reference, DiffSide, DiffSource, EntityRef};


#[test]
fn format_workspace() {
    let entity = EntityRef::workspace("/tmp/ws");
    assert_eq!(
        format_entity_reference(&entity),
        "kind: workspace\npath: /tmp/ws\n"
    );
}

#[test]
fn format_file() {
    let entity = EntityRef::file("/tmp/app", None, "src/lib.rs");
    assert_eq!(
        format_entity_reference(&entity),
        "kind: file\nrepo: /tmp/app\npath: src/lib.rs\n"
    );
}

#[test]
fn format_dir() {
    let entity = EntityRef::dir("/tmp/app", None, "src");
    assert_eq!(
        format_entity_reference(&entity),
        "kind: dir\nrepo: /tmp/app\npath: src\n"
    );
}

#[test]
fn format_repo() {
    let entity = EntityRef::repo("/tmp/app", None, "/tmp/app");
    assert_eq!(
        format_entity_reference(&entity),
        "kind: repo\nrepo: /tmp/app\npath: /tmp/app\n"
    );
}

#[test]
fn format_family() {
    let entity = EntityRef::family("/tmp/app", None, "/tmp/app");
    assert_eq!(
        format_entity_reference(&entity),
        "kind: family\nrepo: /tmp/app\npath: /tmp/app\n"
    );
}

#[test]
fn format_worktree() {
    let entity = EntityRef::worktree("/tmp/app", None, "/tmp/app");
    assert_eq!(
        format_entity_reference(&entity),
        "kind: worktree\nrepo: /tmp/app\npath: /tmp/app\n"
    );
}

#[test]
fn format_commit_full_sha_and_short_12() {
    let entity = EntityRef::commit("/tmp/app", None, "abcdef1234567890abcd");
    assert_eq!(
        format_entity_reference(&entity),
        "kind: commit\nrepo: /tmp/app\nsha: abcdef1234567890abcd\nshort: abcdef123456\n"
    );
}

#[test]
fn format_commit_short_sha_uses_full_when_not_longer_than_12() {
    let entity = EntityRef::commit("/tmp/app", None, "deadbeef");
    assert_eq!(
        format_entity_reference(&entity),
        "kind: commit\nrepo: /tmp/app\nsha: deadbeef\nshort: deadbeef\n"
    );
}

#[test]
fn format_branch() {
    let entity = EntityRef::branch("/tmp/app", None, "main");
    assert_eq!(
        format_entity_reference(&entity),
        "kind: branch\nrepo: /tmp/app\nref: main\n"
    );
}

#[test]
fn format_stash_with_sha_and_subject() {
    let entity = EntityRef::stash(
        "/tmp/app",
        None,
        "stash@{0}",
        "deadbeef1234567890ab",
        "WIP on main: first",
    );
    assert_eq!(
        format_entity_reference(&entity),
        "kind: stash\nrepo: /tmp/app\nref: stash@{0}\nsha: deadbeef1234567890ab\nshort: deadbeef1234\nsubject: WIP on main: first\n"
    );
}

#[test]
fn format_stash_skips_empty_sha_and_subject() {
    let entity = EntityRef::stash("/tmp/app", None, "stash@{1}", "", "");
    assert_eq!(
        format_entity_reference(&entity),
        "kind: stash\nrepo: /tmp/app\nref: stash@{1}\n"
    );
}

#[test]
fn format_diff_single_line_worktree_new() {
    let entity = EntityRef::diff(
        "/tmp/app",
        None,
        "src/lib.rs",
        12,
        12,
        DiffSource::Worktree,
        DiffSide::New,
    );
    assert_eq!(
        format_entity_reference(&entity),
        "kind: diff\nrepo: /tmp/app\npath: src/lib.rs\nlines: 12\nsource: worktree\nside: new\n"
    );
}

#[test]
fn format_diff_range_commit_old() {
    let entity = EntityRef::diff(
        "/tmp/app",
        None,
        "src/lib.rs",
        10,
        20,
        DiffSource::Commit {
            sha: "abcdef1234567890abcd".into(),
        },
        DiffSide::Old,
    );
    assert_eq!(
        format_entity_reference(&entity),
        "kind: diff\nrepo: /tmp/app\npath: src/lib.rs\nlines: 10-20\nsource: commit abcdef1234567890abcd\nside: old\n"
    );
}

#[test]
fn format_diff_stash_unified() {
    let entity = EntityRef::diff(
        "/tmp/app",
        None,
        "README.md",
        1,
        3,
        DiffSource::Stash {
            stash_ref: "stash@{2}".into(),
        },
        DiffSide::Unified,
    );
    assert_eq!(
        format_entity_reference(&entity),
        "kind: diff\nrepo: /tmp/app\npath: README.md\nlines: 1-3\nsource: stash stash@{2}\nside: unified\n"
    );
}

#[test]
fn linked_worktree_file_repo_is_primary_not_sibling() {
    let entity = EntityRef::file("/tmp/feature-wt", Some("/tmp/app"), "src/lib.rs");
    let out = format_entity_reference(&entity);
    assert_eq!(out, "kind: file\nrepo: /tmp/app\npath: src/lib.rs\n");
    assert!(
        !out.contains("feature-wt"),
        "sibling checkout must not appear as repo: {out}"
    );
}

#[test]
fn linked_worktree_uses_repo_identity_normalization() {
    let entity = EntityRef::worktree("/tmp/feature-wt", Some("/tmp/app/"), "/tmp/feature-wt");
    let out = format_entity_reference(&entity);
    assert_eq!(
        out,
        "kind: worktree\nrepo: /tmp/app\npath: /tmp/feature-wt\n"
    );
    assert!(
        !out.lines().any(|line| line == "repo: /tmp/feature-wt"),
        "linked worktree must not emit the sibling path as repo: {out}"
    );
}


#[test]
fn format_commit_short_cuts_bytes_not_chars() {
    let entity = EntityRef::commit("/tmp/app", None, "é");
    assert_eq!(format_entity_reference(&entity), "kind: commit\nrepo: /tmp/app\nsha: é\nshort: é\n");
    let entity = EntityRef::commit("/tmp/app", None, "abcdefghij\u{e9}xyz");
    assert_eq!(
        format_entity_reference(&entity),
        "kind: commit\nrepo: /tmp/app\nsha: abcdefghij\u{e9}xyz\nshort: abcdefghij\u{e9}\n"
    );
}

use workspace_status::commit_files::{
    ancestor_dir_ids, collect_foldable_subtree_ids, flatten_commit_files,
    materialize_commit_file_forest, CommitFileRowKind,
};
use workspace_status::drill::CommitFile;

fn file(status: &str, path: &str) -> CommitFile {
    CommitFile { status: status.into(), path: path.into(), old_path: None }
}

#[test]
fn fold_hides_children() {
    let files = vec![file("A", "src/lib.rs")];
    let folds = vec!["dir:src".to_string()];
    let rows = flatten_commit_files(&files, true, &folds);
    assert!(rows.iter().any(|r| r.id == "dir:src" && r.folded));
    assert!(rows.iter().all(|r| r.id != "file:src/lib.rs"));
}

#[test]
fn tree_mode_puts_dirs_first_then_files_by_path() {
    let files = vec![file("A", "src/lib.rs"), file("M", "README.md")];
    let rows = flatten_commit_files(&files, true, &[]);
    let ids: Vec<&str> = rows.iter().map(|r| r.id.as_str()).collect();
    assert_eq!(ids, vec!["dir:src", "file:src/lib.rs", "file:README.md"]);
    let dir = &rows[0];
    assert_eq!(dir.kind, CommitFileRowKind::Dir);
    assert!(dir.is_dir() && dir.foldable && !dir.folded);
    assert_eq!(dir.name, "src");
    assert_eq!(dir.depth, 0);
    let lib = &rows[1];
    assert!(lib.is_file());
    assert_eq!(lib.name, "lib.rs");
    assert_eq!(lib.depth, 1);
    assert_eq!(lib.file.as_ref().map(|f| f.status.as_str()), Some("A"));
    assert_eq!(rows[2].depth, 0);
}

#[test]
fn flat_mode_lists_full_paths_in_input_order() {
    let files = vec![file("A", "src/lib.rs"), file("M", "README.md")];
    let rows = flatten_commit_files(&files, false, &[]);
    assert!(rows.iter().all(|r| r.kind != CommitFileRowKind::Dir));
    let names: Vec<&str> = rows.iter().map(|r| r.name.as_str()).collect();
    assert_eq!(names, vec!["src/lib.rs", "README.md"]);
    assert!(rows.iter().all(|r| r.depth == 0 && !r.foldable));
}

#[test]
fn single_child_dirs_collapse_into_one_row() {
    let files = vec![file("A", "src/foo/bar.rs")];
    let rows = flatten_commit_files(&files, true, &[]);
    assert!(rows.iter().any(|r| r.id == "dir:src/foo" && r.name == "src/foo"));
    assert!(rows.iter().all(|r| r.id != "dir:src"));
    let bar = rows.iter().find(|r| r.id == "file:src/foo/bar.rs").expect("bar.rs");
    assert_eq!(bar.name, "bar.rs");
}

#[test]
fn forest_sorts_dirs_by_collapsed_name() {
    let files = vec![
        file("M", "z.txt"),
        file("M", "b/x/one.rs"),
        file("A", "a-x/two.rs"),
        file("D", "b/x/deeper/three.rs"),
        file("M", "a.txt"),
    ];
    let nodes = materialize_commit_file_forest(&files, true);
    let top: Vec<&str> = nodes.iter().map(|n| n.id.as_str()).collect();
    assert_eq!(top, vec!["dir:a-x", "dir:b/x", "file:a.txt", "file:z.txt"]);
    let bx = &nodes[1];
    assert_eq!(bx.label, "b/x");
    let inner: Vec<&str> = bx.children.iter().map(|n| n.id.as_str()).collect();
    assert_eq!(inner, vec!["dir:b/x/deeper", "file:b/x/one.rs"]);
}

#[test]
fn foldable_subtree_ids_cover_nested_dirs() {
    let files = vec![file("A", "src/a/x.rs"), file("A", "src/b/y.rs"), file("M", "src/z.rs")];
    assert_eq!(
        collect_foldable_subtree_ids(&files, true, "dir:src"),
        vec!["dir:src".to_string(), "dir:src/a".to_string(), "dir:src/b".to_string()]
    );
    assert!(collect_foldable_subtree_ids(&files, true, "file:src/z.rs").is_empty());
    assert!(collect_foldable_subtree_ids(&files, true, "dir:nope").is_empty());
}

#[test]
fn ancestor_ids_unfold_each_parent() {
    assert_eq!(
        ancestor_dir_ids("src/foo/bar.rs"),
        vec!["dir:src".to_string(), "dir:src/foo".to_string()]
    );
    assert!(ancestor_dir_ids("README.md").is_empty());
    assert_eq!(ancestor_dir_ids("/a//b/c"), vec!["dir:a".to_string(), "dir:a/b".to_string()]);
}

use workspace_status::path::{base_name, file_name_or, path_file_name};

#[test]
fn file_name_matches_std_path_rules() {
    assert_eq!(path_file_name("foo.txt").as_deref(), Some("foo.txt"));
    assert_eq!(path_file_name("/tmp/ws/app").as_deref(), Some("app"));
    assert_eq!(path_file_name("foo.txt/.").as_deref(), Some("foo.txt"));
    assert_eq!(path_file_name("foo.txt/.//").as_deref(), Some("foo.txt"));
    assert_eq!(path_file_name("a/./b").as_deref(), Some("b"));
    assert_eq!(path_file_name("foo.txt/.."), None);
    assert_eq!(path_file_name(".."), None);
    assert_eq!(path_file_name("."), None);
    assert_eq!(path_file_name("/"), None);
    assert_eq!(path_file_name(""), None);
    for p in ["foo.txt", "/tmp/ws/app", "a/./b", "x/..", "./", "//a//b//", "é/ü.rs"] {
        let std_name = std::path::Path::new(p).file_name().and_then(|n| n.to_str()).map(str::to_string);
        assert_eq!(path_file_name(p), std_name, "{p}");
    }
}

#[test]
fn file_name_or_falls_back_to_whole_path() {
    assert_eq!(file_name_or("/tmp/ws"), "ws");
    assert_eq!(file_name_or("/"), "/");
    assert_eq!(base_name("a/b/"), "a/b/");
    assert_eq!(base_name("a/b"), "b");
}

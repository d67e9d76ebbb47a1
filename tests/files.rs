use vespera::files::file_to_segments;

fn strs(v: &[&str]) -> Vec<String> {
    v.iter().map(|s| s.to_string()).collect()
}

#[test]
fn segments_relative_to_base() {
    assert_eq!(file_to_segments("src/routes/users.rs", "src/routes"), strs(&["users"]));
    assert_eq!(file_to_segments("src/routes/admin/users.rs", "src/routes"), strs(&["admin", "users"]));
}

#[test]
fn module_file_is_dropped() {
    assert_eq!(file_to_segments("src/routes/users/mod.rs", "src/routes"), strs(&["users"]));
    assert!(file_to_segments("src/routes/mod.rs", "src/routes").is_empty());
}

#[test]
fn file_outside_base_keeps_whole_path() {
    assert_eq!(file_to_segments("other/users.rs", "src/routes"), strs(&["other", "users"]));
    assert_eq!(file_to_segments("src\\routes\\items.rs", "lib"), strs(&["src", "routes", "items"]));
}

#[test]
fn base_matches_whole_components_only() {
    assert_eq!(file_to_segments("src/routesx/a.rs", "src/routes"), strs(&["src", "routesx", "a"]));
    assert_eq!(file_to_segments("src//routes/a.rs", "src/routes/"), strs(&["a"]));
}

#[test]
fn root_and_dot_components_follow_path_rules() {
    assert_eq!(file_to_segments("/a/b.rs", "a"), strs(&["a", "b"]));
    assert_eq!(file_to_segments("/a/b.rs", "/a"), strs(&["b"]));
    assert_eq!(file_to_segments("src/./routes/x.rs", "src/routes"), strs(&["x"]));
    assert_eq!(file_to_segments("./src/routes/x.rs", "src/routes"), strs(&[".", "src", "routes", "x"]));
    assert_eq!(file_to_segments("a/b.rs", "/a"), strs(&["a", "b"]));
}

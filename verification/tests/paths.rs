use trek::paths::{join_paths, last_segment};

#[test]
fn join_with_empty_sub_path_is_identity() {
    // an empty sub-path leaves the base untouched, trailing slash or not
    assert_eq!(join_paths("/users", ""), "/users");
    assert_eq!(join_paths("/users/", ""), "/users/");
    assert_eq!(join_paths("/", ""), "/");
    assert_eq!(join_paths("", ""), "");
    assert_eq!(join_paths("/a/b/c", ""), "/a/b/c");
}

#[test]
fn join_keeps_exactly_one_separator() {
    assert_eq!(join_paths("/users", "/:id"), "/users/:id");
    assert_eq!(join_paths("/users/", ":id"), "/users/:id");
    assert_eq!(join_paths("/users/", "/:id"), "/users/:id");
    assert_eq!(join_paths("/users", ":id"), "/users/:id");
    assert_eq!(join_paths("/", "admin"), "/admin");
    assert_eq!(join_paths("/", "/admin"), "/admin");
    assert_eq!(join_paths("/users//", "//:id"), "/users/:id");
}

#[test]
fn last_segment_of_path() {
    assert_eq!(last_segment("/a/b/c"), "c");
    assert_eq!(last_segment("plain"), "plain");
    assert_eq!(last_segment("/admin"), "admin");
    assert_eq!(last_segment("/trailing/"), "");
    assert_eq!(last_segment(""), "");
}

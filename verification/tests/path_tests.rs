use ccelerate::path_utils::{make_absolute, shorten_path};

#[test]
fn make_absolute_joins_relative_paths() {
    assert_eq!(make_absolute("/base", "a/b"), "/base/a/b");
    assert_eq!(make_absolute("/base/", "a"), "/base/a");
    assert_eq!(make_absolute("/base", "/abs/x"), "/abs/x");
    assert!(make_absolute("/any", "rel").starts_with('/'));
}

#[test]
fn shorten_path_keeps_file_name() {
    assert_eq!(shorten_path("/a/b/c.cc"), "c.cc");
    assert_eq!(shorten_path("c.cc"), "c.cc");
    assert_eq!(shorten_path("/a/b/"), "b");
    assert_eq!(shorten_path("/"), "/");
    assert_eq!(shorten_path("a/.."), "a/..");
}

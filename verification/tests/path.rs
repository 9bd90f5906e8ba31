use sandbox::path::{
    contains_nul, path_ancestors, path_is_absolute, path_is_under, path_join, path_parent,
    path_rebase, path_strip_prefix,
};

#[test]
fn absolute_paths() {
    assert!(path_is_absolute("/"));
    assert!(path_is_absolute("/a/b"));
    assert!(!path_is_absolute(""));
    assert!(!path_is_absolute("a/b"));
    assert!(!path_is_absolute("./a"));
}

#[test]
fn join_like_push() {
    assert_eq!(path_join("/tmp", "root"), "/tmp/root");
    assert_eq!(path_join("/tmp/", "root"), "/tmp/root");
    assert_eq!(path_join("/", "a"), "/a");
    assert_eq!(path_join("", "a"), "a");
    assert_eq!(path_join("/tmp", "/etc"), "/etc");
    assert_eq!(path_join("/tmp", ""), "/tmp/");
    assert_eq!(path_join("/tmp", "a/b"), "/tmp/a/b");
    assert_eq!(path_join("rel", "a"), "rel/a");
}

#[test]
fn under_means_whole_components() {
    assert!(path_is_under("/tmp/x/root", "/tmp/x/root"));
    assert!(path_is_under("/tmp/x/root/proc", "/tmp/x/root"));
    assert!(!path_is_under("/tmp/x/rootless", "/tmp/x/root"));
    assert!(!path_is_under("/tmp/x", "/tmp/x/root"));
    assert!(path_is_under("/tmp", "/"));
    assert!(path_is_under("/", "/"));
    assert!(!path_is_under("/tmpfile", "/tmp"));
    assert!(path_is_under("/tmp/a", "/tmp/"));
    assert!(!path_is_under("/var/tmp", "/tmp"));
}

#[test]
fn strip_prefix_gives_the_rest() {
    assert_eq!(path_strip_prefix("/home/me/work", "/home"), Some("me/work".to_string()));
    assert_eq!(path_strip_prefix("/home", "/home"), Some("".to_string()));
    assert_eq!(path_strip_prefix("/home/me", "/"), Some("home/me".to_string()));
    assert_eq!(path_strip_prefix("/homes/me", "/home"), None);
    assert_eq!(path_strip_prefix("/srv", "/home"), None);
    assert_eq!(path_strip_prefix("/home//me", "/home"), Some("me".to_string()));
}

#[test]
fn rebase_into_a_tree() {
    assert_eq!(path_rebase("/t/root", "/home/me"), Some("/t/root/home/me".to_string()));
    assert_eq!(path_rebase("/t/root", "/"), Some("/t/root/".to_string()));
    assert_eq!(path_rebase("/t/root", "//a"), Some("/t/root/a".to_string()));
    assert_eq!(path_rebase("/t/root", "home"), None);
    assert_eq!(path_rebase("/t/root", ""), None);
}

#[test]
fn parents() {
    assert_eq!(path_parent("/"), None);
    assert_eq!(path_parent(""), None);
    assert_eq!(path_parent("/a"), Some("/".to_string()));
    assert_eq!(path_parent("/a/b"), Some("/a".to_string()));
    assert_eq!(path_parent("/home/user.name/x y"), Some("/home/user.name".to_string()));
    assert_eq!(path_parent("a"), Some("".to_string()));
    assert_eq!(path_parent("a/b"), Some("a".to_string()));
}

#[test]
fn ancestors_from_the_root_down() {
    assert_eq!(path_ancestors("/a/b/c"), vec!["/", "/a", "/a/b", "/a/b/c"]);
    assert_eq!(path_ancestors("/"), vec!["/"]);
    assert_eq!(path_ancestors("/tmp"), vec!["/", "/tmp"]);
    assert_eq!(path_ancestors("a/b"), vec!["", "a", "a/b"]);
}

#[test]
fn nul_is_found() {
    assert!(!contains_nul(""));
    assert!(!contains_nul("/some/path"));
    assert!(contains_nul("\0"));
    assert!(contains_nul("/some\0/path"));
    assert!(contains_nul("end\0"));
}

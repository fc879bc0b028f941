use opengate::paths::{expand_tilde, join_path, parent_dir, resolve_relative, resolve_with};

#[test]
fn test_join_path() {
    assert_eq!(join_path("/base", "rel/x"), "/base/rel/x");
    assert_eq!(join_path("/base/", "rel"), "/base/rel");
    assert_eq!(join_path("", "rel"), "rel");
}

#[test]
fn test_resolve_with() {
    assert_eq!(resolve_with("/base", "/abs/p"), "/abs/p");
    assert_eq!(resolve_with("/base", "rel"), "/base/rel");
    assert_eq!(resolve_with("", "rel"), "rel");
}

#[test]
fn test_resolve_relative() {
    assert_eq!(resolve_relative("/base", &None), None);
    assert_eq!(
        resolve_relative("/base", &Some(String::from("audio"))),
        Some(String::from("/base/audio"))
    );
    assert_eq!(
        resolve_relative("/base", &Some(String::from("/abs"))),
        Some(String::from("/abs"))
    );
}

#[test]
fn test_expand_tilde_leaves_plain_paths_alone() {
    assert_eq!(expand_tilde("plain/path"), "plain/path");
    assert_eq!(expand_tilde("/abs/path"), "/abs/path");
    assert_eq!(expand_tilde(""), "");
}

#[test]
fn test_expand_tilde_rewrites_home() {
    // whatever the environment, the tilde itself is gone unless there is
    // no home directory at all, in which case the text is unchanged
    let expanded = expand_tilde("~/x");
    assert!(expanded == "~/x" || expanded.ends_with("/x"));
}

#[test]
fn test_parent_dir() {
    assert_eq!(parent_dir("conf/session.yaml"), "conf");
    assert_eq!(parent_dir("/etc/conf/session.yaml"), "/etc/conf");
    assert_eq!(parent_dir("session.yaml"), "");
    assert_eq!(parent_dir("/session.yaml"), "/");
    assert_eq!(parent_dir("/"), ".");
    assert_eq!(parent_dir(""), ".");
}

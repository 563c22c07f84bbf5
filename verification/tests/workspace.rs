use seekcli::workspace::inside_workspace;

#[test]
fn paths_that_climb_out_or_are_rooted_are_outside() {
    assert!(inside_workspace("notes.md"));
    assert!(inside_workspace("src/a..b/c.rs"));
    assert!(inside_workspace("./x"));
    assert!(!inside_workspace("/etc/passwd"));
    assert!(!inside_workspace("../x"));
    assert!(!inside_workspace("a/../../b"));
    assert!(!inside_workspace("a/.."));
    assert!(!inside_workspace(".."));
}

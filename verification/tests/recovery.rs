use seekcli::recovery::{augment, hint_for, hint_with_lowered};

#[test]
fn no_hint_on_success() {
    assert!(hint_for("read_file", "fn main() {}").is_none());
    assert!(hint_for("write_file", "Successfully wrote to foo.txt").is_none());
    assert!(hint_for("list_dir", "a.rs\nb.rs\n").is_none());
}

#[test]
fn no_hint_on_denials() {
    assert!(hint_for("run_shell", "[USER DENIED] refused: rm -rf /").is_none());
    assert!(hint_for("write_file", "[PATH DENIED] outside cwd").is_none());
}

#[test]
fn read_file_not_found_gets_hint() {
    let r = "Error executing tool read_file: Failed to read file: nope.rs: No such file";
    let h = hint_for("read_file", r).expect("should hint");
    assert!(h.contains("list_dir") || h.contains("find"));
}

#[test]
fn shell_command_not_found_gets_hint() {
    let r = "Command failed with exit code: 127.\nSTDERR:\nsh: frobnicate: command not found\n";
    let h = hint_for("run_shell", r).expect("should hint");
    assert!(h.contains("command -v") || h.contains("which"));
}

#[test]
fn bad_args_gets_hint() {
    let h = hint_for("write_file", "[BAD ARGS] not valid JSON").expect("should hint");
    assert!(h.contains("JSON"));
}

#[test]
fn augment_appends_only_on_failure() {
    let ok = augment("read_file", "content".to_string());
    assert_eq!(ok, "content");
    let bad = augment("read_file", "Error executing tool read_file: x".to_string());
    assert!(bad.contains("[Recovery]"));
}

#[test]
fn the_hint_follows_the_failure_text_case_insensitively() {
    let r = "ERROR EXECUTING TOOL read_file: NO SUCH FILE";
    assert_eq!(hint_for("read_file", r), hint_with_lowered("read_file", r, &r.to_lowercase()));
    assert!(hint_for("read_file", r).is_some());
}

#[test]
fn an_augmented_result_keeps_the_original_text_first() {
    let original = "Error executing tool read_file: x".to_string();
    let bad = augment("read_file", original.clone());
    assert!(bad.starts_with(&original));
    assert!(bad.len() > original.len());
}

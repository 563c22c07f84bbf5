use seekcli::api::Message;
use seekcli::record::{
    exhausted_message, fnv1a, replay_mismatch, request_file_name, sort_strings, stream_file_name, RequestShape,
    Replaying,
};

fn shape(count: usize, role: &str, tools: &[&str]) -> RequestShape {
    RequestShape {
        model: "m".into(),
        message_count: count,
        last_role: role.into(),
        thinking_mode: "none".into(),
        tool_names: tools.iter().map(|s| s.to_string()).collect(),
        digest: "0".into(),
    }
}

#[test]
fn identical_shapes_match() {
    let a = shape(3, "user", &["read_file"]);
    assert!(a.mismatch(&a.clone()).is_none());
}

#[test]
fn structural_differences_are_named_not_just_flagged() {
    let recorded = shape(3, "user", &["read_file"]);

    let diff = recorded.mismatch(&shape(4, "user", &["read_file"]));
    assert!(diff.is_some_and(|d| d.contains("message count")), "count");

    let diff = recorded.mismatch(&shape(3, "tool", &["read_file"]));
    assert!(diff.is_some_and(|d| d.contains("role")), "role");

    let diff = recorded.mismatch(&shape(3, "user", &["read_file", "write_file"]));
    assert!(diff.is_some_and(|d| d.contains("tool set")), "tools");
}

#[test]
fn wording_changes_do_not_break_a_fixture() {
    let mut other = shape(3, "user", &["read_file"]);
    other.digest = "deadbeef".into();
    assert!(shape(3, "user", &["read_file"]).mismatch(&other).is_none());
}

#[test]
fn replay_reports_exhaustion_with_a_diagnosis() {
    let err = exhausted_message(0, "/tmp/seekcli-replay-empty");
    assert!(err.contains("replay exhausted"), "got: {}", err);
    assert!(err.contains("diverged"), "error should say what to do: {}", err);
    assert!(err.contains("request #1 but /tmp/seekcli-replay-empty has only 0 recorded"), "{}", err);
}

#[test]
fn capture_sorts_the_tool_names_and_reads_the_last_role() {
    let msgs = vec![Message::new_user_text("hi".into())];
    let s = RequestShape::capture("m", &msgs, "none", Some(vec!["write_file".into(), "read_file".into()]), "[]");
    assert_eq!(s.tool_names, vec!["read_file".to_string(), "write_file".to_string()]);
    assert_eq!(s.last_role, "user");
    assert_eq!(s.message_count, 1);
    assert_eq!(s.digest, fnv1a("[]"));
}

#[test]
fn the_digest_is_sixteen_hex_digits_of_fnv1a() {
    assert_eq!(fnv1a(""), "cbf29ce484222325");
    assert_eq!(fnv1a("a"), "af63dc4c8601ec8c");
}

#[test]
fn fixture_files_are_numbered_with_three_digits() {
    assert_eq!(stream_file_name(0), "000.jsonl");
    assert_eq!(request_file_name(7), "007.request.json");
    assert_eq!(stream_file_name(1234), "1234.jsonl");
}

#[test]
fn a_mismatched_replay_request_is_a_hard_failure() {
    let recorded = shape(3, "user", &["read_file"]);
    let actual = shape(4, "user", &["read_file"]);
    let m = replay_mismatch(2, &recorded, &actual).expect("mismatch");
    assert!(m.starts_with("replay request #2 does not match the recording: "), "{}", m);
    assert!(replay_mismatch(2, &recorded, &recorded.clone()).is_none());
}

#[test]
fn a_replay_hands_out_request_numbers_in_order() {
    let mut r = Replaying::new("/fixtures/run".to_string());
    assert_eq!(r.next_request(), 0);
    assert_eq!(r.next_request(), 1);
    assert_eq!(r.stream_path(1), "/fixtures/run/001.jsonl");
    assert_eq!(r.request_path(1), "/fixtures/run/001.request.json");
}

#[test]
fn sorting_orders_by_code_point() {
    let v = sort_strings(vec!["b".into(), "B".into(), "a".into()]);
    assert_eq!(v, vec!["B".to_string(), "a".to_string(), "b".to_string()]);
}

#[test]
fn replay_claims_each_number_whatever_becomes_of_the_request() {
    let mut r = seekcli::record::Replaying::new("fixtures/run".into());
    let s = shape(2, "user", &["read_file"]);
    match r.serve(false, None, &s) {
        Err(m) => {
            assert!(m.contains("replay exhausted"));
            assert!(m.contains("diverged"));
        }
        Ok(_) => panic!("no recording, no answer"),
    }
    assert_eq!(r.seq, 1);
    let other = shape(3, "user", &["read_file"]);
    match r.serve(true, Some(&other), &s) {
        Err(m) => assert!(m.contains("does not match")),
        Ok(_) => panic!("a different shape is refused"),
    }
    assert_eq!(r.serve(true, Some(&s), &s), Ok(2));
    assert_eq!(r.seq, 3);
}

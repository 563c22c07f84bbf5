use seekcli::api::{FunctionCall, ToolCall};
use seekcli::reminders::{ReminderInjector, REMINDER};

fn call(name: &str, args: &str) -> ToolCall {
    ToolCall {
        id: "x".to_string(),
        tool_type: "function".to_string(),
        function: FunctionCall {
            name: name.to_string(),
            arguments: args.to_string(),
        },
    }
}

#[test]
fn fires_after_three_identical_turns() {
    let mut inj = ReminderInjector::new();
    let batch = vec![call("read_file", "{\"path\":\"a.rs\"}")];
    assert!(inj.observe(&batch).is_none()); // 1st
    assert!(inj.observe(&batch).is_none()); // 2nd (repeat_count=1)
    assert!(inj.observe(&batch).is_some()); // 3rd (repeat_count=2 -> fire)
}

#[test]
fn different_calls_do_not_fire() {
    let mut inj = ReminderInjector::new();
    assert!(inj.observe(&[call("read_file", "{\"path\":\"a\"}")]).is_none());
    assert!(inj.observe(&[call("read_file", "{\"path\":\"b\"}")]).is_none());
    assert!(inj.observe(&[call("list_dir", "{\"path\":\".\"}")]).is_none());
}

#[test]
fn empty_turn_resets_tracker() {
    let mut inj = ReminderInjector::new();
    let batch = vec![call("run_shell", "{\"command\":\"ls\"}")];
    inj.observe(&batch);
    inj.observe(&batch);
    assert!(inj.observe(&[]).is_none()); // progress made, reset
    assert!(inj.observe(&batch).is_none()); // counting restarts
}

#[test]
fn fires_again_only_after_fresh_run() {
    let mut inj = ReminderInjector::new();
    let batch = vec![call("read_file", "{\"path\":\"a.rs\"}")];
    inj.observe(&batch);
    inj.observe(&batch);
    assert!(inj.observe(&batch).is_some()); // fires, resets counter
    assert!(inj.observe(&batch).is_none()); // repeat_count=1 again
    assert!(inj.observe(&batch).is_some()); // fires again on next run
}

#[test]
fn the_reminder_text_is_what_fires() {
    let mut inj = ReminderInjector::new();
    let batch = vec![call("read_file", "{}")];
    inj.observe(&batch);
    inj.observe(&batch);
    assert_eq!(inj.observe(&batch).as_deref(), Some(REMINDER));
}

#[test]
fn the_call_id_is_not_part_of_the_trajectory() {
    let mut inj = ReminderInjector::new();
    let mut a = call("read_file", "{}");
    assert!(inj.observe(&[a.clone()]).is_none());
    a.id = "y".to_string();
    assert!(inj.observe(&[a.clone()]).is_none());
    a.id = "z".to_string();
    assert!(inj.observe(&[a]).is_some());
}

use seekcli::api::{FunctionCall, ToolCall};
use seekcli::session::{EventPayload, PromptKind};
use seekcli::trajectory::{record, steps_of};

fn call(name: &str, arguments: &str) -> ToolCall {
    ToolCall {
        id: "c1".to_string(),
        tool_type: "function".to_string(),
        function: FunctionCall { name: name.to_string(), arguments: arguments.to_string() },
    }
}

fn log() -> Vec<EventPayload> {
    vec![
        EventPayload::SystemPrompt { kind: PromptKind::Kernel, content: "you are an agent".into() },
        EventPayload::UserMessage { images: Vec::new(), content: "read notes.md".into() },
        EventPayload::AssistantMessage {
            content: String::new(),
            reasoning: None,
            tool_calls: vec![call("read_file", r#"{"path":"notes.md"}"#)],
        },
        EventPayload::ToolResult { call_id: "c1".into(), content: "no such file".into(), images: Vec::new() },
        EventPayload::AssistantMessage { content: "It does not exist yet.".into(), reasoning: None, tool_calls: vec![] },
    ]
}

#[test]
fn a_step_closes_at_each_assistant_message() {
    let steps = steps_of("read notes.md", &log());
    assert_eq!(steps.len(), 2);
    assert_eq!(steps[0].observation, "read notes.md");
    assert_eq!(steps[0].action.tool_calls[0].name, "read_file");
    assert_eq!(steps[1].observation, "no such file");
    assert!(steps[1].action.tool_calls.is_empty());
}

#[test]
fn the_system_prompt_and_accounting_events_are_not_observations() {
    let steps = steps_of("read notes.md", &log());
    for s in &steps {
        assert!(!s.observation.contains("you are an agent"), "{}", s.observation);
    }
}

#[test]
fn reward_is_terminal_and_already_inverted() {
    let r = record("t", "p", true, "completed", 3, &log());
    assert_eq!(r.reward, 1);
    assert_eq!(r.reward_kind, "fail_to_pass");
    let failed = record("t", "p", false, "max_iterations", 9, &log());
    assert_eq!(failed.reward, 0);
    assert_eq!(failed.status, "max_iterations");
    assert_eq!(failed.llm_calls, 9);
}

#[test]
fn the_prompt_seeds_step_zero_only_when_the_log_lacks_it() {
    let unlogged: Vec<EventPayload> =
        vec![EventPayload::AssistantMessage { content: "hi".into(), reasoning: None, tool_calls: vec![] }];
    let seeded = steps_of("do the thing", &unlogged);
    assert_eq!(seeded[0].observation, "do the thing");
    let from_log = steps_of("do the thing", &log());
    assert_eq!(from_log[0].observation, "read notes.md");
}

#[test]
fn a_run_with_no_assistant_message_yields_no_steps() {
    let only_input = vec![EventPayload::UserMessage { images: Vec::new(), content: "hello".into() }];
    assert!(steps_of("hello", &only_input).is_empty());
}

#[test]
fn steps_are_numbered_in_order() {
    let steps = steps_of("p", &log());
    let idx: Vec<usize> = steps.iter().map(|s| s.index).collect();
    assert_eq!(idx, vec![0, 1]);
    assert_eq!(steps[1].action.text, "It does not exist yet.");
}

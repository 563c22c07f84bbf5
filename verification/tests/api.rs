use seekcli::api::{strip_reasoning, FunctionCall, Message, ToolCall};

#[test]
fn strip_reasoning_drops_reasoning_keeps_rest() {
    let msgs = vec![
        Message::Simple {
            images: Vec::new(),
            role: "assistant".into(),
            content: "answer".into(),
            reasoning_content: Some("long chain of thought".into()),
            tool_calls: Some(vec![ToolCall {
                id: "t1".into(),
                tool_type: "function".into(),
                function: FunctionCall { name: "read_file".into(), arguments: "{}".into() },
            }]),
        },
        Message::ToolResponse {
            images: Vec::new(),
            role: "tool".into(),
            content: "result".into(),
            tool_call_id: "t1".into(),
        },
    ];
    let out = strip_reasoning(&msgs);
    match &out[0] {
        Message::Simple { content, reasoning_content, tool_calls, .. } => {
            assert_eq!(content, "answer");
            assert!(reasoning_content.is_none(), "reasoning must be stripped");
            assert!(tool_calls.is_some(), "tool_calls must be preserved");
        }
        _ => panic!("expected Simple"),
    }
    assert!(matches!(out[1], Message::ToolResponse { .. }));
}

#[test]
fn stripping_keeps_the_count_and_the_order() {
    let msgs = vec![Message::new_user_text("a".into()), Message::new_system("b".into())];
    let out = strip_reasoning(&msgs);
    assert_eq!(out.len(), 2);
    assert_eq!(out[0].content(), "a");
    assert_eq!(out[1].content(), "b");
    assert!(out[1].is_system());
}

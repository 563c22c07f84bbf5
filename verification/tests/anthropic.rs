use seekcli::anthropic::{build_body, AnthropicBlock, TurnContent, MAX_TOKENS};
use seekcli::api::{FunctionCall, FunctionDefinition, Message, Tool, ToolCall};

fn sys(c: &str) -> Message {
    Message::new_system(c.into())
}

fn user(c: &str) -> Message {
    Message::new_user_text(c.into())
}

#[test]
fn hoists_system_and_maps_user() {
    let msgs = vec![sys("rule A"), sys("rule B"), user("hi")];
    let body = build_body("m", &msgs, "none", None);
    assert_eq!(body.system.as_deref(), Some("rule A\n\nrule B"));
    assert_eq!(body.messages.len(), 1);
    assert_eq!(body.messages[0].role, "user");
    assert!(body.effort.is_none());
    assert_eq!(body.max_tokens, MAX_TOKENS);
    assert_eq!(body.model, "m");
}

#[test]
fn assistant_tool_call_becomes_tool_use_block() {
    let msgs = vec![
        user("read it"),
        Message::Simple {
            role: "assistant".into(),
            content: "ok".into(),
            reasoning_content: None,
            tool_calls: Some(vec![ToolCall {
                id: "t1".into(),
                tool_type: "function".into(),
                function: FunctionCall {
                    name: "read_file".into(),
                    arguments: "{\"path\":\"a\"}".into(),
                },
            }]),
            images: vec![],
        },
        Message::new_tool_response("t1".into(), "FILE BODY".into(), vec![]),
    ];
    let body = build_body("m", &msgs, "none", None);
    let arr = &body.messages;
    // user, assistant(text+tool_use), user(tool_result)
    assert_eq!(arr.len(), 3);
    assert_eq!(arr[1].role, "assistant");
    match &arr[1].content {
        TurnContent::Blocks(blocks) => {
            assert_eq!(blocks.len(), 2);
            assert!(matches!(&blocks[0], AnthropicBlock::Text(t) if t == "ok"));
            match &blocks[1] {
                AnthropicBlock::ToolUse { id, name, arguments } => {
                    assert_eq!(id, "t1");
                    assert_eq!(name, "read_file");
                    assert_eq!(arguments, "{\"path\":\"a\"}");
                }
                _ => panic!("expected a tool_use block"),
            }
        }
        TurnContent::Text(_) => panic!("expected blocks"),
    }
    assert_eq!(arr[2].role, "user");
    match &arr[2].content {
        TurnContent::Blocks(blocks) => match &blocks[0] {
            AnthropicBlock::ToolResult { tool_use_id, content } => {
                assert_eq!(tool_use_id, "t1");
                assert_eq!(content, "FILE BODY");
            }
            _ => panic!("expected a tool_result block"),
        },
        TurnContent::Text(_) => panic!("expected blocks"),
    }
}

#[test]
fn consecutive_tool_results_merge_into_one_user_turn() {
    let msgs = vec![
        Message::new_tool_response("a".into(), "r1".into(), vec![]),
        Message::new_tool_response("b".into(), "r2".into(), vec![]),
    ];
    let body = build_body("m", &msgs, "none", None);
    let arr = &body.messages;
    assert_eq!(arr.len(), 1);
    match &arr[0].content {
        TurnContent::Blocks(blocks) => assert_eq!(blocks.len(), 2),
        TurnContent::Text(_) => panic!("expected blocks"),
    }
}

#[test]
fn tools_map_to_input_schema_and_thinking_sets_effort() {
    let mut schema = serde_json::Map::new();
    schema.insert("type".to_string(), serde_json::Value::String("object".to_string()));
    let tools = vec![Tool {
        tool_type: "function".into(),
        function: FunctionDefinition {
            name: "list_dir".into(),
            description: "list".into(),
            parameters: serde_json::Value::Object(schema),
        },
    }];
    let body = build_body("m", &[user("x")].to_vec(), "high", Some(&tools));
    let out = body.tools.expect("tools are carried over");
    assert_eq!(out[0].name, "list_dir");
    assert_eq!(out[0].description, "list");
    assert_eq!(out[0].input_schema["type"], "object");
    assert_eq!(out[0].input_schema, tools[0].function.parameters);
    assert_eq!(body.effort.as_deref(), Some("high"));
}

#[test]
fn no_system_message_means_no_system_field() {
    let body = build_body("m", &vec![user("x")], "none", None);
    assert!(body.system.is_none());
    assert!(body.tools.is_none());
    assert!(matches!(&body.messages[0].content, TurnContent::Text(t) if t == "x"));
}

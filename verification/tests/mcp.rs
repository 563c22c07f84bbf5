use seekcli::mcp::{reply_step, ReplyStep};
use seekcli::mcp::{flatten_blocks, is_mcp_tool, qualify, server_of, ContentBlock, McpRegistry, McpTool};

fn tool(name: &str, read_only: bool) -> McpTool {
    McpTool {
        name: name.to_string(),
        description: "does a thing".to_string(),
        input_schema: serde_json::Value::Null,
        read_only,
    }
}

#[test]
fn names_are_namespaced_so_two_servers_can_offer_the_same_tool() {
    assert_eq!(qualify("github", "search"), "mcp__github__search");
    assert_ne!(qualify("a", "search"), qualify("b", "search"));
    assert!(is_mcp_tool("mcp__github__search"));
    assert!(!is_mcp_tool("read_file"));
}

#[test]
fn a_foreign_tool_is_not_parallel_safe_unless_the_server_says_so() {
    let mut r = McpRegistry::empty();
    r.tools.push(McpRegistry::register("srv", tool("writes", false)));
    r.tools.push(McpRegistry::register("srv", tool("reads", true)));
    assert!(!r.is_read_only("mcp__srv__writes"));
    assert!(r.is_read_only("mcp__srv__reads"));
    assert!(!r.is_read_only("mcp__srv__nonexistent"));
}

#[test]
fn the_description_says_which_server_a_tool_came_from() {
    let registered = McpRegistry::register("github", tool("create_issue", false));
    assert!(
        registered.schema.function.description.starts_with("[github]"),
        "got: {}",
        registered.schema.function.description
    );
    assert_eq!(registered.schema.function.name, "mcp__github__create_issue");
    assert_eq!(registered.remote_name, "create_issue");
}

#[test]
fn a_server_with_no_description_still_produces_a_usable_schema() {
    let mut bare = tool("thing", false);
    bare.description = String::new();
    let registered = McpRegistry::register("srv", bare);
    assert!(!registered.schema.function.description.is_empty());
}

#[test]
fn a_failed_server_explains_itself_when_one_of_its_tools_is_called() {
    let mut r = McpRegistry::empty();
    r.record_failure("github", "command `ghmcp` not found".to_string());
    let err = r.resolve("mcp__github__create_issue").unwrap_err();
    assert!(err.contains("github"), "{err}");
    assert!(err.contains("not found"), "must carry the reason: {err}");
    assert!(err.to_lowercase().contains("do not retry"), "{err}");
    assert!(err.contains("user's action"), "{err}");
}

#[test]
fn an_unknown_name_with_no_failed_server_lists_what_does_exist() {
    let mut r = McpRegistry::empty();
    r.tools.push(McpRegistry::register("srv", tool("reads", true)));
    let err = r.resolve("mcp__srv__typo").unwrap_err();
    assert!(err.contains("mcp__srv__reads"), "must name the real one: {err}");
}

#[test]
fn the_server_half_of_a_qualified_name_is_recoverable() {
    assert_eq!(server_of("mcp__github__create_issue").as_deref(), Some("github"));
    assert_eq!(server_of("read_file"), None);
    assert_eq!(server_of("mcp__nounderscores"), None);
}

#[test]
fn calling_an_unknown_tool_names_it_rather_than_panicking() {
    let err = McpRegistry::empty().resolve("mcp__x__y").unwrap_err();
    assert!(err.contains("mcp__x__y"), "got: {}", err);
}

#[test]
fn a_known_tool_resolves_to_its_server_and_remote_name() {
    let mut r = McpRegistry::empty();
    r.tools.push(McpRegistry::register("srv", tool("reads", true)));
    assert_eq!(r.resolve("mcp__srv__reads"), Ok(("srv".to_string(), "reads".to_string())));
    assert_eq!(r.listing(), vec![("mcp__srv__reads".to_string(), "srv".to_string())]);
}

fn text(t: &str) -> ContentBlock {
    ContentBlock { kind: Some("text".to_string()), text: Some(t.to_string()) }
}

#[test]
fn text_blocks_are_joined() {
    let blocks = vec![text("line one"), text("line two")];
    assert_eq!(flatten_blocks(Some(&blocks)), "line one\nline two");
}

#[test]
fn non_text_blocks_are_named_not_dropped() {
    let blocks = vec![text("here"), ContentBlock { kind: Some("image".to_string()), text: None }];
    let out = flatten_blocks(Some(&blocks));
    assert!(out.contains("here"));
    assert!(out.contains("[image content omitted]"), "got: {}", out);
}

#[test]
fn a_result_with_no_content_is_empty_not_an_error() {
    assert_eq!(flatten_blocks(None), "");
    assert_eq!(flatten_blocks(Some(&[])), "");
}

#[test]
fn only_the_answer_with_our_id_is_taken() {
    assert!(matches!(reply_step("files", "tools/list", 3, None, None), ReplyStep::Skip));
    assert!(matches!(reply_step("files", "tools/list", 3, Some(2), None), ReplyStep::Skip));
    assert!(matches!(reply_step("files", "tools/list", 3, Some(3), None), ReplyStep::Answer));
    assert!(matches!(
        reply_step("files", "tools/list", 3, Some(3), Some(Some("nope"))),
        ReplyStep::Refused(m) if m == "`files` rejected tools/list: nope"
    ));
    assert!(matches!(
        reply_step("files", "tools/list", 3, Some(3), Some(None)),
        ReplyStep::Refused(m) if m.ends_with("unknown error")
    ));
}

#[test]
fn a_tool_error_is_not_a_server_error() {
    assert_eq!(seekcli::mcp::tool_outcome(true, "no".into()), Err("no".to_string()));
    assert_eq!(seekcli::mcp::tool_outcome(false, "ok".into()), Ok("ok".to_string()));
    assert_eq!(seekcli::mcp::timed_out_message("f", "initialize"), "`f` timed out waiting for initialize");
    assert_eq!(seekcli::mcp::closed_message("f", "tools/call"), "`f` closed its output during tools/call");
}

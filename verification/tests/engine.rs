use seekcli::api::{Message, StreamItem, ToolCall, FunctionCall};
use seekcli::engine::{
    activate_skill, append_plan_with_bridge, begin_delegation, budget_spent, budget_stop_text, cache_hit_percent,
    child_summary, ensure_agent_system_prompt, extract_code_blocks, finish_run, log_push, mcp_state,
    parse_invoke_agent_args, parse_load_skill_args, plan_before_turn, planning_only_directive, preview_args,
    result_is_failure, run_spent, skill_state, status_name, strip_fake_tool_syntax, take_interrupt, title_from,
    turn_verdict, ContextKind, Delegation, InjectionLog, LoopStatus, Response,
};
use seekcli::prompt::agent_system_prompt;
use seekcli::skills::Skill;

#[test]
fn a_sub_agent_sees_the_interrupt() {
    let mut flag = true;
    assert!(take_interrupt(&mut flag, 1), "a sub-agent must observe the flag");
    assert!(take_interrupt(&mut flag, 3), "so must a nested one");
}

#[test]
fn only_the_top_level_consumes_the_interrupt() {
    let mut flag = true;
    assert!(take_interrupt(&mut flag, 2));
    assert!(flag, "a sub-agent must leave the flag set for its parent");
    assert!(take_interrupt(&mut flag, 0), "the parent then sees it");
    assert!(!flag, "and the top level is what clears it, so the next turn starts clean");
}

#[test]
fn an_unset_interrupt_stops_nobody() {
    let mut flag = false;
    assert!(!take_interrupt(&mut flag, 0));
    assert!(!take_interrupt(&mut flag, 1));
}

#[test]
fn budget_exhaustion_is_not_reported_as_max_iterations() {
    assert_ne!(LoopStatus::BudgetExhausted, LoopStatus::MaxIterations);
    assert_ne!(LoopStatus::BudgetExhausted, LoopStatus::Completed);
}

#[test]
fn the_run_budget_is_measured_from_the_runs_own_baseline() {
    let max = 10;
    let baseline = 500;
    assert_eq!(run_spent(500, baseline), 0, "a fresh run starts with nothing spent");
    assert!(!budget_spent(500, baseline, max));
    assert!(budget_spent(510, baseline, max), "the ceiling must be reachable");
}

#[test]
fn a_sub_agent_spends_the_same_budget_as_its_parent() {
    let baseline = 0;
    assert_eq!(run_spent(3, baseline), 3);
    assert_eq!(run_spent(23, baseline), 23, "the child's calls must come out of the same budget");
    assert_eq!(run_spent(2, 5), 0, "never negative");
}

#[test]
fn a_run_that_spent_its_budget_says_so() {
    assert_eq!(budget_stop_text(150), "[Stopped: run budget of 150 model calls spent]");
}

#[test]
fn the_status_of_a_run_follows_what_stopped_it() {
    assert_eq!(finish_run(true, true, false, "x".into(), 5).1, LoopStatus::Interrupted);
    assert_eq!(finish_run(true, false, true, "x".into(), 5).1, LoopStatus::BudgetExhausted);
    assert_eq!(finish_run(true, false, false, "x".into(), 5).1, LoopStatus::Completed);
    let (text, status) = finish_run(false, false, false, String::new(), 25);
    assert_eq!(status, LoopStatus::MaxIterations);
    assert_eq!(text, "[Stopped at max iterations (25)]");
    assert_eq!(status_name(LoopStatus::MaxIterations), "maxiterations");
}

#[test]
fn planning_runs_on_open_with_thinking_or_after_a_failure() {
    assert!(plan_before_turn(0, 0, true, false));
    assert!(!plan_before_turn(0, 1, true, false));
    assert!(plan_before_turn(0, 4, false, true));
    assert!(!plan_before_turn(1, 0, true, true), "sub-agents never plan");
}

#[test]
fn strip_fake_tool_syntax_truncates_at_marker() {
    let plan = "两个文件都不存在，现在按需创建它们。\n\n\u{FF5C}\u{FF5C}tool_calls>\n\u{FF5C}\u{FF5C}invoke name=\"write_file\">...";
    assert_eq!(strip_fake_tool_syntax(plan), "两个文件都不存在，现在按需创建它们。");
}

#[test]
fn strip_fake_tool_syntax_leaves_clean_prose_untouched() {
    let plan = "The file doesn't exist yet; I should create it with write_file next.";
    assert_eq!(strip_fake_tool_syntax(plan), plan);
}

#[test]
fn planning_only_directive_is_system_and_forbids_tool_syntax() {
    match planning_only_directive() {
        Message::Simple { role, content, tool_calls, .. } => {
            assert_eq!(role, "system");
            assert!(tool_calls.is_none());
            assert!(content.contains("do not write tool-call syntax"));
        }
        _ => panic!("expected Simple system message"),
    }
}

#[test]
fn plan_bridge_appends_assistant_then_user() {
    let mut messages = vec![Message::ToolResponse {
        images: Vec::new(),
        role: "tool".to_string(),
        content: "some result".to_string(),
        tool_call_id: "t1".to_string(),
    }];
    append_plan_with_bridge(&mut messages, "I should read the file next.".to_string());
    assert_eq!(messages.len(), 3);
    match &messages[1] {
        Message::Simple { role, content, tool_calls, .. } => {
            assert_eq!(role, "assistant");
            assert_eq!(content, "I should read the file next.");
            assert!(tool_calls.is_none());
        }
        _ => panic!("expected Simple assistant message"),
    }
    match &messages[2] {
        Message::Simple { role, content, .. } => {
            assert_eq!(role, "user");
            assert!(content.contains("Proceed"));
        }
        _ => panic!("expected Simple user bridge message"),
    }
}

#[test]
fn plan_bridge_skips_empty_plan() {
    let mut messages = vec![Message::new_user_text("hi".to_string())];
    append_plan_with_bridge(&mut messages, "   ".to_string());
    assert_eq!(messages.len(), 1, "blank plan must not append anything");
}

const RESEARCH: &str = "# Research and citation\ncite what you fetched";

fn mentions(ms: &[Message], needle: &str) -> usize {
    ms.iter().filter(|m| matches!(m, Message::Simple { content, .. } if content.contains(needle))).count()
}

#[test]
fn the_citation_contract_appears_only_with_the_web_tools() {
    let mut without = vec![Message::new_user_text("hi".to_string())];
    ensure_agent_system_prompt(&mut without, None, None, None, None);
    assert_eq!(mentions(&without, "Research and citation"), 0, "must not describe tools that are not offered");

    let mut with = vec![Message::new_user_text("hi".to_string())];
    ensure_agent_system_prompt(&mut with, None, Some(RESEARCH.to_string()), None, None);
    assert_eq!(mentions(&with, "Research and citation"), 1, "{with:?}");
}

#[test]
fn injecting_the_contract_does_not_disturb_the_cache_prefix() {
    let kernel = agent_system_prompt();
    let mut messages = vec![Message::new_user_text("hi".to_string())];
    ensure_agent_system_prompt(&mut messages, Some("# rules".into()), Some(RESEARCH.to_string()), Some("# memory".into()), Some("# Plan Mode (active)\nplan".into()));
    match messages.first() {
        Some(Message::Simple { role, content, .. }) => {
            assert_eq!(role, "system");
            assert_eq!(content, &kernel, "the cache prefix moved");
        }
        other => panic!("expected the kernel at index 0, got {other:?}"),
    }
}

#[test]
fn the_contract_is_injected_once_not_once_per_turn() {
    let mut messages = vec![Message::new_user_text("hi".to_string())];
    for _ in 0..3 {
        ensure_agent_system_prompt(&mut messages, None, Some(RESEARCH.to_string()), None, Some("# Plan Mode (active)\nx".into()));
    }
    assert_eq!(mentions(&messages, "Research and citation"), 1, "{messages:?}");
    assert_eq!(mentions(&messages, "# Plan Mode (active)"), 1, "{messages:?}");
    assert_eq!(messages.len(), 4);
}

#[test]
fn the_injected_context_is_reported_by_kind() {
    let mut messages = vec![Message::new_user_text("hi".to_string())];
    let injected = ensure_agent_system_prompt(&mut messages, Some("w".into()), None, Some("m".into()), None);
    assert_eq!(injected, vec![(ContextKind::Workspace, "w".to_string()), (ContextKind::Memory, "m".to_string())]);
    match &messages[1] {
        Message::Simple { content, .. } => assert_eq!(content, "w"),
        _ => panic!("rules belong right after the kernel"),
    }
}

#[test]
fn unchanged_context_is_not_re_recorded_every_turn() {
    let mut log = InjectionLog::new();
    let mut recorded = 0;
    for _ in 0..5 {
        if log.note(ContextKind::Memory, "d1".to_string()) {
            recorded += 1;
        }
    }
    assert_eq!(recorded, 1, "five turns, one record");
}

#[test]
fn changed_context_is_recorded_again() {
    let mut log = InjectionLog::new();
    assert!(log.note(ContextKind::Memory, "d1".to_string()));
    assert!(log.note(ContextKind::Memory, "d2".to_string()));
    assert_eq!(log.records.len(), 2);
    assert_ne!(log.records[0].1, log.records[1].1, "the change must be visible");
}

#[test]
fn each_kind_is_deduplicated_against_its_own_history() {
    let mut log = InjectionLog::new();
    log.note(ContextKind::Memory, "m1".to_string());
    log.note(ContextKind::Workspace, "w1".to_string());
    log.note(ContextKind::Memory, "m2".to_string());
    log.note(ContextKind::Workspace, "w1".to_string());
    assert_eq!(log.records.len(), 3, "m1, w1, m2 — w1 unchanged so not repeated");
}

#[test]
fn failures_are_recognised_by_their_markers() {
    assert!(result_is_failure("ok\n[Recovery] try again"));
    assert!(result_is_failure("[ERROR] nope"));
    assert!(result_is_failure("Error executing tool x"));
    assert!(result_is_failure("Sub-agent 'x' failed: boom"));
    assert!(!result_is_failure("all good"));
    assert!(!result_is_failure("an [ERROR] in the middle is not one"));
}

#[test]
fn a_title_is_the_first_line_trimmed_and_capped() {
    assert_eq!(title_from("  fix the build  \nmore"), "fix the build");
    assert_eq!(title_from(&"x".repeat(60)), "x".repeat(48));
    assert_eq!(title_from("   "), seekcli::session::UNTITLED);
}

#[test]
fn long_arguments_are_previewed_on_a_char_boundary() {
    assert_eq!(preview_args("{}"), "{}");
    let long = "é".repeat(100);
    let p = preview_args(&long);
    assert_eq!(p, format!("{}…", "é".repeat(80)));
}

#[test]
fn fenced_blocks_are_extracted_in_order() {
    let text = "intro\n```rust\nlet a = 1;\n```\nmid\n  ```\nsecond\n```\n```\nunclosed";
    assert_eq!(extract_code_blocks(text), vec!["let a = 1;\n".to_string(), "second\n".to_string()]);
}

#[test]
fn the_verdict_names_what_the_model_did() {
    assert_eq!(turn_verdict(2, ""), "acted");
    assert_eq!(turn_verdict(0, "  "), "empty");
    assert_eq!(turn_verdict(0, "hi"), "answered");
}

#[test]
fn delegation_arguments_fall_back_to_a_general_agent() {
    assert_eq!(
        parse_invoke_agent_args(r#"{"subagent_type":"explore","prompt":"look"}"#),
        ("explore".to_string(), "look".to_string())
    );
    assert_eq!(parse_invoke_agent_args(r#"{"prompt":"look"}"#), ("general".to_string(), "look".to_string()));
    assert_eq!(parse_invoke_agent_args("not json"), ("general".to_string(), "not json".to_string()));
    assert_eq!(parse_load_skill_args(r#"{"name":"tr"}"#), "tr");
    assert_eq!(parse_load_skill_args("tr"), "tr");
}

#[test]
fn a_delegation_starts_a_child_with_only_its_task() {
    match begin_delegation("explore", "find it".to_string(), 0) {
        Delegation::Spawn { template, messages, depth } => {
            assert_eq!(template.name, "explore");
            assert_eq!(depth, 1);
            assert_eq!(messages.len(), 2);
            assert!(messages[0].is_system());
            assert_eq!(messages[1].content(), "find it");
        }
        Delegation::Refused(m) => panic!("{m}"),
    }
}

#[test]
fn a_delegation_too_deep_or_of_an_unknown_kind_is_refused() {
    match begin_delegation("explore", "x".to_string(), 3) {
        Delegation::Refused(m) => assert_eq!(m, "Cannot spawn sub-agent: max depth 3 reached."),
        _ => panic!("too deep"),
    }
    match begin_delegation("nope", "x".to_string(), 0) {
        Delegation::Refused(m) => {
            assert!(m.starts_with("Unknown subagent_type 'nope'. Available types:\n  - explore: "), "{m}");
            assert!(m.contains("\n  - general: "), "{m}");
        }
        _ => panic!("unknown"),
    }
}

#[test]
fn a_child_that_did_not_complete_is_not_reported_as_completed() {
    assert_eq!(child_summary("explore", LoopStatus::Completed, "s"), "Sub-agent 'explore' completed. Summary:\ns");
    assert!(child_summary("explore", LoopStatus::MaxIterations, "s").contains("hit its iteration cap"));
}

fn skill(name: &str) -> Skill {
    Skill { name: name.to_string(), description: "d".to_string(), system_prompt: "be terse".to_string(), tools: None }
}

#[test]
fn loading_a_skill_replaces_the_previous_persona() {
    let skills = vec![skill("a"), skill("b")];
    let mut messages = vec![Message::new_system("# Activated Skill: old\n\nx".into()), Message::new_user_text("hi".into())];
    let mut deferred = Vec::new();
    let (reply, chosen) = activate_skill(&skills, "b", 0, &mut messages, &mut deferred);
    assert_eq!(chosen, Some(1));
    assert!(reply.starts_with("Skill 'b' loaded."), "{reply}");
    assert_eq!(messages.len(), 1);
    assert_eq!(deferred.len(), 1);
    assert_eq!(deferred[0].content(), "# Activated Skill: b\n\nbe terse");
}

#[test]
fn a_sub_agent_cannot_switch_skills_and_unknown_skills_are_named() {
    let skills = vec![skill("a")];
    let mut messages = Vec::new();
    let mut deferred = Vec::new();
    let (reply, chosen) = activate_skill(&skills, "a", 1, &mut messages, &mut deferred);
    assert!(chosen.is_none());
    assert!(reply.starts_with("[ERROR] load_skill is restricted"), "{reply}");
    let (reply, chosen) = activate_skill(&skills, "zz", 0, &mut messages, &mut deferred);
    assert!(chosen.is_none());
    assert_eq!(reply, "Skill 'zz' not found. Available: [\"a\"]");
}

#[test]
fn a_reply_is_assembled_from_its_stream() {
    let mut r = Response::new();
    r.absorb(StreamItem::Reasoning("think".into()));
    r.absorb(StreamItem::Content("he".into()));
    r.absorb(StreamItem::Content("llo".into()));
    r.absorb(StreamItem::ToolCall(ToolCall {
        id: "c".into(),
        tool_type: "function".into(),
        function: FunctionCall { name: "n".into(), arguments: "{}".into() },
    }));
    r.absorb(StreamItem::Finish(Some("stop".into())));
    assert_eq!(r.content, "hello");
    assert_eq!(r.reasoning, "think");
    assert_eq!(r.tool_calls.len(), 1);
}

#[test]
fn the_cache_share_is_a_whole_percentage() {
    assert_eq!(cache_hit_percent(75, 100), 75);
    assert_eq!(cache_hit_percent(1, 0), 0);
}

#[test]
fn every_logged_message_is_recorded_as_an_event() {
    let mut messages = Vec::new();
    let mut events = Vec::new();
    log_push(&mut messages, &mut events, Message::new_user_text("hi".into()));
    log_push(&mut messages, &mut events, Message::new_system("sys".into()));
    log_push(
        &mut messages,
        &mut events,
        Message::Simple {
            images: Vec::new(),
            role: "narrator".into(),
            content: "x".into(),
            reasoning_content: None,
            tool_calls: None,
        },
    );
    assert_eq!(messages.len(), 3);
    assert_eq!(events.len(), 2, "only roles the log knows become events");
}

#[test]
fn extension_states_read_as_sentences() {
    assert_eq!(skill_state(true), "active in this conversation");
    assert_eq!(mcp_state(false, Some(3)), "disabled in config");
    assert_eq!(mcp_state(true, Some(3)), "connected, 3 tool(s)");
    assert_eq!(mcp_state(true, None), "enabled but not connected");
}

#[test]
fn result_is_failure_classification() {
    // Failures (drive the Two-Stage ReAct micro trigger).
    assert!(result_is_failure("Error executing tool read_file: no such file"));
    assert!(result_is_failure("foo\n\n[Recovery] do X"));
    assert!(result_is_failure("[BAD ARGS] not json"));
    assert!(result_is_failure("[ERROR] load_skill is restricted to the main agent."));
    assert!(result_is_failure("Sub-agent 'explore' failed: boom"));
    // Successes must NOT trigger replanning.
    assert!(!result_is_failure("fn main() {}"));
    assert!(!result_is_failure("Successfully wrote to foo.txt"));
    assert!(!result_is_failure("a.rs\nb.rs\n"));
}

#[test]
fn a_tools_source_is_its_server_the_builtins_or_the_skill() {
    let builtin = vec!["read_file".to_string(), "run_shell".to_string()];
    assert_eq!(seekcli::engine::tool_source("mcp__files__read", &builtin), "mcp:files");
    assert_eq!(seekcli::engine::tool_source("read_file", &builtin), "built-in");
    assert_eq!(seekcli::engine::tool_source("translate", &builtin), "skill");
}

#[test]
fn compactions_are_counted_in_the_log() {
    let mut s = seekcli::session::Session::new("id".into(), "m".into());
    s.record(seekcli::session::EventPayload::UserMessage { content: "a".into(), images: vec![] });
    s.record(seekcli::session::EventPayload::Compaction { from: 0, to: 1, summary: "s".into() });
    s.record(seekcli::session::EventPayload::Compaction { from: 1, to: 2, summary: "t".into() });
    assert_eq!(seekcli::engine::count_compactions(&s.events), 2);
}

fn tool(name: &str) -> seekcli::api::Tool {
    seekcli::api::Tool {
        tool_type: "function".into(),
        function: seekcli::api::FunctionDefinition {
            name: name.into(),
            description: "d".into(),
            parameters: serde_json::Value::Null,
        },
    }
}

fn names(ts: &[seekcli::api::Tool]) -> Vec<String> {
    ts.iter().map(|t| t.function.name.clone()).collect()
}

#[test]
fn a_skills_whitelist_narrows_the_whole_surface_not_just_the_builtins() {
    let assembled = vec![tool("read_file"), tool("run_shell"), tool("memory"), tool("web_search"), tool("web_fetch")];
    let allowed = vec!["read_file".to_string(), "web_search".to_string()];
    let (surface, unknown) = seekcli::engine::effective_tool_surface(None, 0, assembled, Some(&allowed));
    assert_eq!(names(&surface), vec!["read_file", "web_search"]);
    assert!(unknown.is_empty());
}

#[test]
fn a_sub_agent_surface_is_not_widened_by_host_configuration() {
    let assembled = vec![tool("read_file"), tool("mcp__files__read")];
    let (surface, _) = seekcli::engine::effective_tool_surface(Some(vec![tool("read_file")]), 1, assembled, None);
    assert_eq!(names(&surface), vec!["read_file"]);
}

#[test]
fn without_a_whitelist_the_surface_is_what_was_assembled() {
    let (surface, unknown) = seekcli::engine::effective_tool_surface(None, 0, vec![tool("a"), tool("b")], None);
    assert_eq!(names(&surface), vec!["a", "b"]);
    assert!(unknown.is_empty());
}

#[test]
fn a_whitelisted_name_matching_nothing_is_reported() {
    let allowed = vec!["reed_file".to_string()];
    let (kept, unknown) = seekcli::engine::narrow_to_skill(vec![tool("read_file")], &allowed);
    assert!(kept.is_empty());
    assert_eq!(unknown, vec!["reed_file"]);
    let warnings = seekcli::engine::surface_warnings(kept.len(), &unknown);
    assert_eq!(warnings.len(), 2);
    assert!(warnings[0].ends_with("reed_file"));
    assert!(warnings[1].contains("matched nothing"));
    assert!(seekcli::engine::surface_warnings(1, &vec![]).is_empty());
}

#[test]
fn an_image_that_could_not_be_stored_is_noted_not_lost() {
    let mut messages = Vec::new();
    let mut events = Vec::new();
    seekcli::engine::push_tool_response(
        &mut messages,
        &mut events,
        "c1".into(),
        "shot taken".into(),
        vec![],
        &vec!["disk full".to_string()],
    );
    assert_eq!(messages.len(), 1);
    assert_eq!(messages[0].content(), "shot taken\n[an image could not be stored: disk full]");
    match &events[0] {
        seekcli::session::EventPayload::ToolResult { call_id, content, images } => {
            assert_eq!(call_id, "c1");
            assert_eq!(content, "shot taken\n[an image could not be stored: disk full]");
            assert!(images.is_empty());
        }
        other => panic!("expected a tool result, got {other:?}"),
    }
    let mut m2 = Vec::new();
    let mut e2 = Vec::new();
    seekcli::engine::push_tool_response(&mut m2, &mut e2, "c2".into(), String::new(), vec![], &vec!["a".into()]);
    assert_eq!(m2[0].content(), "[an image could not be stored: a]");
}

use seekcli::api::Message;
use seekcli::compressor::{estimate_tokens, head_tail_truncate, truncate_tail};

fn make_simple(role: &str, content: &str) -> Message {
    Message::Simple {
        images: Vec::new(),
        role: role.to_string(),
        content: content.to_string(),
        reasoning_content: None,
        tool_calls: None,
    }
}

fn make_tool(content: &str) -> Message {
    Message::ToolResponse {
        images: Vec::new(),
        role: "tool".to_string(),
        content: content.to_string(),
        tool_call_id: "call_1".to_string(),
    }
}

#[test]
fn estimate_tokens_nonzero() {
    let msgs = vec![make_simple("user", "hello world")];
    assert!(estimate_tokens(&msgs) > 0);
}

#[test]
fn estimate_tokens_grows_with_content() {
    let small = vec![make_simple("user", "hi")];
    let large = vec![make_simple("user", &"x".repeat(10_000))];
    assert!(estimate_tokens(&large) > estimate_tokens(&small) * 100);
}

#[test]
fn the_threshold_no_longer_depends_on_script() {
    let latin = vec![make_simple("user", &"a".repeat(300))];
    let cjk = vec![make_simple("user", &"中".repeat(300))];
    let latin_tokens = estimate_tokens(&latin) as f64;
    let cjk_tokens = estimate_tokens(&cjk) as f64;
    let ratio = cjk_tokens / latin_tokens;
    assert!((0.5..=5.0).contains(&ratio), "scripts should be comparable, got ratio {}", ratio);
}

#[test]
fn head_tail_truncate_keeps_ends() {
    let body = format!("HEAD{}TAIL", "x".repeat(5_000));
    let out = head_tail_truncate(&body);
    assert!(out.starts_with("HEAD"));
    assert!(out.ends_with("TAIL"));
    assert!(out.contains("[...truncated"));
    assert!(out.len() < body.len());
}

#[test]
fn truncate_tail_is_idempotent() {
    let mut msgs = vec![make_tool(&"y".repeat(5_000))];
    assert!(truncate_tail(&mut msgs, 0));
    assert!(!truncate_tail(&mut msgs, 0));
}

#[test]
fn small_tool_results_untouched() {
    let mut msgs = vec![make_tool("short output")];
    assert!(!truncate_tail(&mut msgs, 0));
    if let Message::ToolResponse { content, .. } = &msgs[0] {
        assert_eq!(content, "short output");
    } else {
        panic!("expected tool response");
    }
}

#[test]
fn a_large_tool_result_is_clipped_to_both_ends() {
    let body = format!("{}{}", "a".repeat(600), "b".repeat(600));
    let out = head_tail_truncate(&body);
    assert!(out.starts_with(&"a".repeat(500)));
    assert!(out.ends_with(&"b".repeat(500)));
}

#[test]
fn a_session_under_the_threshold_is_not_compacted() {
    let msgs = vec![make_simple("system", "k"), make_simple("user", "hi")];
    assert_eq!(seekcli::compressor::compaction_plan(&msgs, &[0, 1], 1_000_000, 1), None);
}

#[test]
fn compaction_keeps_the_head_and_the_tail() {
    let mut msgs = vec![make_simple("system", "kernel")];
    for i in 0..6 {
        msgs.push(make_simple("user", &format!("message {i}")));
    }
    let seqs: Vec<u64> = (10..17).collect();
    // Threshold zero: always over it.
    let plan = seekcli::compressor::compaction_plan(&msgs, &seqs, 0, 2);
    assert_eq!(plan, Some((1, 5, 11, 15)));
    // Nothing between head and tail: nothing to fold.
    assert_eq!(seekcli::compressor::compaction_plan(&msgs, &seqs, 0, 6), None);
    // Event numbers that do not advance are refused.
    assert_eq!(seekcli::compressor::compaction_plan(&msgs, &[0; 7], 0, 2), None);
    // Missing event numbers are refused rather than guessed.
    assert_eq!(seekcli::compressor::compaction_plan(&msgs, &[0, 1], 0, 2), None);
}

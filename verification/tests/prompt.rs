use seekcli::prompt::{agent_system_prompt, rules_message, workspace_rule_files, WORKSPACE_RULES_CAP};

#[test]
fn workspace_rules_none_when_absent() {
    assert!(rules_message("AGENTS.md", "").is_none());
    assert!(rules_message("AGENTS.md", "  \n\t ").is_none());
}

#[test]
fn workspace_rules_reads_agents_md() {
    let out = rules_message("AGENTS.md", "Use 2-space indentation.").expect("should find AGENTS.md");
    assert!(out.contains("Use 2-space indentation."));
    assert!(out.contains("Workspace Rules"));
    assert!(out.starts_with("# Workspace Rules (AGENTS.md)"));
}

#[test]
fn workspace_rules_truncates_oversized() {
    let big = "x".repeat(WORKSPACE_RULES_CAP + 5_000);
    let out = rules_message("AGENTS.md", &big).expect("should find AGENTS.md");
    assert!(out.contains("truncated"));
    assert!(out.matches('x').count() <= WORKSPACE_RULES_CAP + 10);
}

#[test]
fn truncation_never_splits_a_char() {
    let big = "中".repeat(WORKSPACE_RULES_CAP);
    let out = rules_message("AGENTS.md", &big).expect("rules");
    let kept = out.matches('中').count();
    assert_eq!(kept, WORKSPACE_RULES_CAP / 3);
}

#[test]
fn the_rules_file_looked_for_is_agents_md() {
    assert_eq!(workspace_rule_files(), vec!["AGENTS.md"]);
}

#[test]
fn the_kernel_prompt_states_its_limits() {
    let p = agent_system_prompt();
    assert!(p.starts_with("You are SeekCLI"));
    assert!(p.contains("Maximum 25 iterations per chat turn."), "{p}");
    assert!(p.contains("Maximum sub-agent nesting depth: 3."), "{p}");
    assert!(p.contains("[PROMPT INCOMPLETE]"));
}

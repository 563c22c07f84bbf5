use seekcli::prompt::agent_system_prompt;
use seekcli::registry::{catalog, lookup, subagents, PROMPT_INCOMPLETE};

#[test]
fn only_the_read_only_template_is_parallel_safe() {
    let all = subagents();
    for t in &all {
        let writes = t.allowed_tools.iter().any(|tool| matches!(*tool, "write_file" | "edit_file"));
        assert!(!(writes && t.parallel_safe), "`{}` can write and must not be marked parallel_safe", t.name);
    }
    assert!(all.iter().any(|t| t.parallel_safe), "no template is parallel_safe — fan-out can never happen");
}

#[test]
fn both_ends_of_the_incomplete_prompt_contract_exist() {
    const MARKER: &str = "[PROMPT INCOMPLETE]";
    assert_eq!(PROMPT_INCOMPLETE, MARKER);
    for t in subagents() {
        assert!(t.system_prompt.contains(MARKER), "`{}` is never told to report an unresolvable prompt", t.name);
    }
    let parent = agent_system_prompt();
    assert!(parent.contains(MARKER), "the parent is never told what `{MARKER}` means");
}

#[test]
fn explore_excludes_write() {
    let t = lookup("explore").expect("explore template exists");
    assert!(!t.allowed_tools.contains(&"write_file"));
    assert!(!t.allowed_tools.contains(&"invoke_agent"));
    assert!(!t.allowed_tools.contains(&"create_skill"));
}

#[test]
fn general_excludes_invoke() {
    let t = lookup("general").expect("general template exists");
    assert!(!t.allowed_tools.contains(&"invoke_agent"));
    assert!(!t.allowed_tools.contains(&"create_skill"));
    assert!(t.allowed_tools.contains(&"write_file"));
}

#[test]
fn lookup_unknown_returns_none() {
    assert!(lookup("nonexistent").is_none());
}

#[test]
fn catalog_lists_all_with_descriptions() {
    let cat = catalog();
    let names: Vec<_> = cat.iter().map(|(n, _)| *n).collect();
    assert!(names.contains(&"explore"));
    assert!(names.contains(&"general"));
    for (_, desc) in &cat {
        assert!(!desc.is_empty(), "every template must have a description");
    }
}

#[test]
fn the_catalog_follows_the_registry_order() {
    let names: Vec<&str> = catalog().iter().map(|(n, _)| *n).collect();
    assert_eq!(names, vec!["explore", "general"]);
}

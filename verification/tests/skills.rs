use seekcli::skills::{
    frontmatter_scalar, is_legacy_skill_file, parse_skill_md, proposal_not_found_message, quote_if_needed,
    render_skill_md, sanitize_name, skill_exists_message, split_frontmatter, MigrateReport, Skill, SkillManager,
    SkillTool,
};

#[test]
fn parses_minimal_skill_md() {
    let content = "---\nname: translator\ndescription: translate stuff\n---\n# Body\n\nHello.";
    let (fm, body) = parse_skill_md(content).expect("parse ok");
    assert_eq!(fm.name, "translator");
    assert_eq!(fm.description, "translate stuff");
    assert!(fm.allowed_tools.is_none());
    assert!(body.starts_with("# Body"));
}

#[test]
fn parses_allowed_tools_list() {
    let content = "---\nname: explorer\ndescription: read-only\nallowed_tools:\n  - read_file\n  - list_dir\n  - run_shell\n---\nbody";
    let (fm, _) = parse_skill_md(content).expect("parse ok");
    let tools = fm.allowed_tools.expect("has tools");
    assert_eq!(tools, vec!["read_file", "list_dir", "run_shell"]);
}

#[test]
fn parses_quoted_values() {
    let content = "---\nname: \"my-skill\"\ndescription: 'has spaces'\nversion: \"1.2\"\n---\nbody";
    let (fm, _) = parse_skill_md(content).expect("parse ok");
    assert_eq!(fm.name, "my-skill");
    assert_eq!(fm.description, "has spaces");
    assert_eq!(fm.version.as_deref(), Some("1.2"));
}

#[test]
fn ignores_unknown_keys() {
    let content = "---\nname: x\ndescription: y\nfuture_field: ignored\nweird:\n  - a\n  - b\n---\nbody";
    let (fm, _) = parse_skill_md(content).expect("parse ok");
    assert_eq!(fm.name, "x");
    assert!(fm.allowed_tools.is_none());
}

#[test]
fn errors_on_missing_frontmatter() {
    let content = "no delimiter here\nname: x\n---\nbody";
    assert!(parse_skill_md(content).is_err());
}

#[test]
fn errors_on_unclosed_frontmatter() {
    let content = "---\nname: x\ndescription: y\nbody never gets out";
    assert!(parse_skill_md(content).is_err());
}

#[test]
fn errors_on_missing_required_field() {
    let content = "---\ndescription: only-desc\n---\nbody";
    assert!(parse_skill_md(content).is_err());
}

#[test]
fn body_is_preserved_verbatim() {
    let content = "---\nname: x\ndescription: y\n---\n\n# Title\n\n```rust\nlet x = 1;\n```\n";
    let (_, body) = parse_skill_md(content).expect("parse ok");
    assert!(body.contains("```rust"));
    assert!(body.contains("let x = 1;"));
}

#[test]
fn render_skill_md_minimal() {
    let skill = Skill {
        name: "tester".to_string(),
        description: "a test skill".to_string(),
        system_prompt: "do the thing".to_string(),
        tools: None,
    };
    let md = render_skill_md(&skill);
    assert!(md.starts_with("---\n"));
    assert!(md.contains("name: tester"));
    assert!(md.contains("description: a test skill"));
    assert!(md.ends_with("do the thing\n"));
}

#[test]
fn render_then_parse_roundtrips() {
    let original = Skill {
        name: "rt-test".to_string(),
        description: "round: trip with # special chars".to_string(),
        system_prompt: "Body line 1.\nBody line 2.".to_string(),
        tools: None,
    };
    let md = render_skill_md(&original);
    let (fm, body) = parse_skill_md(&md).expect("roundtrip parses");
    assert_eq!(fm.name, original.name);
    assert_eq!(fm.description, original.description);
    assert!(body.contains("Body line 1."));
    assert!(body.contains("Body line 2."));
}

#[test]
fn render_quotes_problematic_values() {
    let skill = Skill {
        name: "x".to_string(),
        description: "has: colon and #hash".to_string(),
        system_prompt: "body".to_string(),
        tools: None,
    };
    let md = render_skill_md(&skill);
    assert!(md.contains("description: \"has: colon and #hash\""));
}

#[test]
fn render_includes_allowed_tools() {
    let skill = Skill {
        name: "x".to_string(),
        description: "y".to_string(),
        system_prompt: "body".to_string(),
        tools: Some(vec![
            SkillTool { name: "read_file".to_string(), description: "".to_string(), parameters: serde_json::Value::Null },
            SkillTool { name: "run_shell".to_string(), description: "".to_string(), parameters: serde_json::Value::Null },
        ]),
    };
    let md = render_skill_md(&skill);
    assert!(md.contains("allowed_tools:"));
    assert!(md.contains("  - read_file"));
    assert!(md.contains("  - run_shell"));
}

#[test]
fn a_rendered_skill_with_tools_parses_back_to_its_tool_names() {
    let skill = Skill {
        name: "t".to_string(),
        description: "d".to_string(),
        system_prompt: "p".to_string(),
        tools: Some(vec![SkillTool {
            name: "read_file".to_string(),
            description: String::new(),
            parameters: serde_json::Value::Null,
        }]),
    };
    let (fm, body) = parse_skill_md(&render_skill_md(&skill)).expect("parses");
    assert_eq!(fm.allowed_tools, Some(vec!["read_file".to_string()]));
    assert_eq!(body, "p\n");
}

#[test]
fn legacy_tools_become_function_schemas() {
    let skill = Skill {
        name: "t".to_string(),
        description: "d".to_string(),
        system_prompt: "p".to_string(),
        tools: Some(vec![SkillTool {
            name: "lookup".to_string(),
            description: "find it".to_string(),
            parameters: serde_json::Value::Null,
        }]),
    };
    let tools = skill.to_api_tools().expect("has tools");
    assert_eq!(tools.len(), 1);
    assert_eq!(tools[0].tool_type, "function");
    assert_eq!(tools[0].function.name, "lookup");
    assert_eq!(tools[0].function.description, "find it");
    let bare = Skill { tools: None, ..skill };
    assert!(bare.to_api_tools().is_none());
}

#[test]
fn quoting_is_only_for_values_that_need_it() {
    assert_eq!(quote_if_needed("plain"), "plain");
    assert_eq!(quote_if_needed(""), "\"\"");
    assert_eq!(quote_if_needed("a: b"), "\"a: b\"");
    assert_eq!(quote_if_needed(" padded"), "\" padded\"");
}

#[test]
fn names_cannot_carry_path_separators() {
    assert_eq!(sanitize_name("a/b\\c"), "a_b_c");
    assert_eq!(sanitize_name("plain"), "plain");
}

#[test]
fn frontmatter_splits_from_its_body() {
    let (fm, body) = split_frontmatter("---\nname: x\n---\nbody\n", "SKILL.md").expect("splits");
    assert_eq!(fm.trim(), "name: x");
    assert_eq!(body, "body\n");
    assert!(split_frontmatter("no frontmatter", "SKILL.md").is_err());
}

#[test]
fn a_scalar_is_read_from_the_frontmatter() {
    let yaml = "name: x\nschedule: \"1h\"\nempty:\n";
    assert_eq!(frontmatter_scalar(yaml, "schedule").as_deref(), Some("1h"));
    assert_eq!(frontmatter_scalar(yaml, "name").as_deref(), Some("x"));
    assert!(frontmatter_scalar(yaml, "empty").is_none());
    assert!(frontmatter_scalar(yaml, "missing").is_none());
}

#[test]
fn skill_manager_initializes_cleanly() {
    let m = SkillManager::at("/home/u");
    assert_eq!(m.skills_dir(), "/home/u/.seekcli/skills");
    assert_eq!(m.proposals_dir(), "/home/u/.seekcli/skills/proposals");
}

#[test]
fn a_proposal_is_promoted_into_the_active_library() {
    let m = SkillManager::at("/home/u");
    let (src_dir, src_json, dst_dir, dst_json) = m.promotion_paths("a/b");
    assert_eq!(src_dir, "/home/u/.seekcli/skills/proposals/a_b");
    assert_eq!(src_json, "/home/u/.seekcli/skills/proposals/a_b.json");
    assert_eq!(dst_dir, "/home/u/.seekcli/skills/a_b");
    assert_eq!(dst_json, "/home/u/.seekcli/skills/a_b.json");
    assert_eq!(
        skill_exists_message("x"),
        "A skill named 'x' already exists. Reject the proposal or rename it first."
    );
    assert_eq!(proposal_not_found_message("x"), "Proposal 'x' not found");
}

#[test]
fn only_legacy_json_files_are_migrated() {
    assert!(is_legacy_skill_file("t.json", true, Some("json")));
    assert!(!is_legacy_skill_file("proposals", false, None));
    assert!(!is_legacy_skill_file("t", false, None));
    assert!(!is_legacy_skill_file("t.md", true, Some("md")));
}

#[test]
fn a_migration_report_says_what_happened_to_each_skill() {
    let mut r = MigrateReport::default();
    r.record_migrated("a".to_string());
    r.record_skipped("b");
    r.record_error("c", "invalid JSON", "eof");
    assert_eq!(r.migrated, vec!["a".to_string()]);
    assert_eq!(r.skipped, vec!["b: directory already exists".to_string()]);
    assert_eq!(r.errors, vec!["c: invalid JSON: eof".to_string()]);
}

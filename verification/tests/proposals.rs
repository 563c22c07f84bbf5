use seekcli::proposals::{check_skill, check_task, kind_names, land_mcp, not_found_message, toml_string, Kind, Pending, ProposalStore};

#[test]
fn accepting_an_mcp_proposal_appends_and_keeps_the_comments() {
    let original = "# my notes\n[brain]\nflash_model = \"x\"\n";
    let (after, note) = land_mcp(original, "files", "command = \"npx\"\n", "/h/config.toml").ok().expect("lands");
    assert!(note.contains("files"), "{note}");
    assert!(after.starts_with(original), "comments were lost:\n{after}");
    assert!(after.contains("[[mcp]]"), "{after}");
    assert!(after.ends_with("name = \"files\"\ncommand = \"npx\"\n"), "{after}");
}

#[test]
fn a_duplicate_server_name_is_refused_rather_than_appended_twice() {
    let existing = "[[mcp]]\nname = \"files\"\ncommand = \"npx\"\n";
    let err = land_mcp(existing, "files", "command = \"other\"\n", "/h/config.toml").err().expect("refused");
    assert_eq!(err, "/h/config.toml already mentions a server named `files`");
}

#[test]
fn a_task_proposal_needs_a_body_because_the_body_is_the_prompt() {
    let header = "---\ninterval_hint: 1d\n---\n";
    assert!(check_task(header).is_err());
    assert!(check_task(&format!("{header}Summarise today's commits.\n")).is_ok());
    let s = ProposalStore::at("/h");
    assert_eq!(s.task_dir("real"), "/h/tasks/real");
}

#[test]
fn propose_refuses_skills_and_says_what_to_use_instead() {
    let s = ProposalStore::at("/h");
    let err = s.draft_target(Kind::Skill, "x").err().expect("refused");
    assert!(err.contains("create_skill"), "{err}");
}

#[test]
fn drafts_land_under_their_kind() {
    let s = ProposalStore::at("/h");
    let (safe, path) = s.draft_target(Kind::Mcp, "files").ok().expect("drafted");
    assert_eq!(safe, "files");
    assert_eq!(path, "/h/proposals/mcp/files.toml");
    let (_, path) = s.draft_target(Kind::Task, "daily").ok().expect("drafted");
    assert_eq!(path, "/h/proposals/task/daily.md");
    assert!(s.draft_target(Kind::Task, "").is_err());
    assert_eq!(s.skill_target("x"), "/h/skills/x");
    assert_eq!(s.config_path(), "/h/config.toml");
}

#[test]
fn an_unknown_name_lists_what_is_pending() {
    let pending = vec![Pending { kind: Kind::Mcp, name: "files".into(), path: "/p".into() }];
    let err = not_found_message(Kind::Mcp, "nope", &pending);
    assert!(err.contains("mcp files"), "must list what is pending: {err}");
    let err = not_found_message(Kind::Task, "nope", &[]);
    assert!(err.ends_with("none"), "{err}");
}

#[test]
fn kinds_round_trip_through_their_names() {
    for k in [Kind::Skill, Kind::Mcp, Kind::Task] {
        assert_eq!(Kind::parse(k.as_str()), Some(k));
    }
    assert_eq!(Kind::parse("plugin"), None);
    assert!(kind_names().contains("mcp"));
}

#[test]
fn toml_strings_are_quoted_and_escaped() {
    assert_eq!(toml_string("a\"b\\c"), "\"a\\\"b\\\\c\"");
}

#[test]
fn a_skill_draft_needs_frontmatter() {
    assert!(check_skill("---\nname: x\n---\nbody\n").is_ok());
    assert!(check_skill("no frontmatter here").is_err());
}

#[test]
fn pending_proposals_are_listed_across_every_kind() {
    let p = |kind, name: &str| Pending { kind, name: name.into(), path: format!("/p/{name}") };
    let listed = seekcli::proposals::sort_pending(vec![p(Kind::Task, "b"), p(Kind::Mcp, "z"), p(Kind::Mcp, "a"), p(Kind::Skill, "s")]);
    let keys: Vec<String> = listed.iter().map(|x| format!("{} {}", x.kind.as_str(), x.name)).collect();
    assert_eq!(keys, vec!["mcp a", "mcp z", "skill s", "task b"]);
}

#[test]
fn landing_messages_name_what_changed() {
    assert_eq!(seekcli::proposals::skill_landed("x"), "skill `x` is now active");
    assert!(seekcli::proposals::skill_taken("x").contains("already exists"));
    assert_eq!(seekcli::proposals::task_landed("t", "/h/tasks/t/TASK.md"), "task `t` defined at /h/tasks/t/TASK.md");
    assert_eq!(seekcli::proposals::task_taken("t"), "a task named `t` already exists");
    assert!(seekcli::proposals::draft_kept("/p", "bad").contains("will not be accepted as is"));
    assert_eq!(seekcli::proposals::not_acceptable("n", "why"), "`n` cannot be accepted as is: why");
    assert_eq!(seekcli::proposals::adopted_notice(0, "/d"), None);
    assert_eq!(
        seekcli::proposals::adopted_notice(2, "/d").as_deref(),
        Some("[Proposals] moved 2 pending skill proposal(s) to /d")
    );
}

use seekcli::commands::{
    copy_choice, fork_count, model_choice, parse_command, rest_of_line, switch_choice, thinking_choice, Command,
    CopyChoice, ProposeCommand, SkillCommand, ThinkingMode,
};

#[test]
fn a_blank_line_is_no_command() {
    assert!(parse_command("   ").is_none());
    assert!(parse_command("").is_none());
}

#[test]
fn quit_has_two_spellings() {
    assert!(matches!(parse_command("/quit"), Some(Command::Quit)));
    assert!(matches!(parse_command("  /exit  "), Some(Command::Quit)));
    assert!(matches!(parse_command("/frobnicate"), Some(Command::Unknown)));
}

#[test]
fn skill_subcommands_are_told_apart() {
    assert!(matches!(parse_command("/skill"), Some(Command::Skill(SkillCommand::Usage))));
    assert!(matches!(parse_command("/skill list"), Some(Command::Skill(SkillCommand::List))));
    assert!(matches!(
        parse_command("/skill accept"),
        Some(Command::Skill(SkillCommand::Accept(None)))
    ));
    assert!(matches!(
        parse_command("/skill reject foo"),
        Some(Command::Skill(SkillCommand::Reject(Some(n)))) if n == "foo"
    ));
    match parse_command("/skill translator look at   main.rs") {
        Some(Command::Skill(SkillCommand::Activate { name, prompt })) => {
            assert_eq!(name, "translator");
            assert_eq!(prompt.as_deref(), Some("look at main.rs"));
        }
        _ => panic!("expected an activation"),
    }
    assert!(matches!(
        parse_command("/skill translator"),
        Some(Command::Skill(SkillCommand::Activate { prompt: None, .. }))
    ));
}

#[test]
fn propose_needs_a_kind_and_a_name() {
    assert!(matches!(parse_command("/propose"), Some(Command::Propose(ProposeCommand::List))));
    assert!(matches!(parse_command("/propose accept skill"), Some(Command::Propose(ProposeCommand::Usage))));
    match parse_command("/propose accept skill foo --skip-eval") {
        Some(Command::Propose(ProposeCommand::Act { accept, kind, name, skip_eval })) => {
            assert!(accept);
            assert_eq!(kind, "skill");
            assert_eq!(name, "foo");
            assert!(skip_eval);
        }
        _ => panic!("expected an act"),
    }
    assert!(matches!(
        parse_command("/propose reject mcp bar"),
        Some(Command::Propose(ProposeCommand::Act { accept: false, skip_eval: false, .. }))
    ));
}

#[test]
fn paste_and_search_take_the_rest_of_the_line() {
    assert!(matches!(parse_command("/paste  what is  this "), Some(Command::Paste(t)) if t == "what is  this"));
    assert!(matches!(parse_command("/search"), Some(Command::Search(None))));
    assert!(matches!(parse_command("/search two words"), Some(Command::Search(Some(t))) if t == "two words"));
    assert_eq!(rest_of_line("/x"), "");
}

#[test]
fn resume_remembers_how_it_was_called() {
    match parse_command("/load abc") {
        Some(Command::Resume { cmd, id }) => {
            assert_eq!(cmd, "/load");
            assert_eq!(id.as_deref(), Some("abc"));
        }
        _ => panic!("expected resume"),
    }
    match parse_command("/fork abc 4") {
        Some(Command::Fork { id, count }) => {
            assert_eq!(id.as_deref(), Some("abc"));
            assert_eq!(count.as_deref(), Some("4"));
        }
        _ => panic!("expected fork"),
    }
}

#[test]
fn model_and_thinking_choices_keep_the_current_value_on_nonsense() {
    assert_eq!(model_choice(Some("pro"), "f", "p", "c"), "p");
    assert_eq!(model_choice(Some("flash"), "f", "p", "c"), "f");
    assert_eq!(model_choice(Some("gpt"), "f", "p", "c"), "c");
    assert_eq!(model_choice(None, "f", "p", "c"), "c");
    assert_eq!(thinking_choice(Some("h"), ThinkingMode::Off), ThinkingMode::High);
    assert_eq!(thinking_choice(Some("m"), ThinkingMode::Off), ThinkingMode::Max);
    assert_eq!(thinking_choice(Some("n"), ThinkingMode::Max), ThinkingMode::Off);
    assert_eq!(thinking_choice(Some("x"), ThinkingMode::Max), ThinkingMode::Max);
    assert_eq!(ThinkingMode::Off.label(), "None");
    assert_eq!(ThinkingMode::High.as_str(), "high");
}

#[test]
fn switches_toggle_without_an_argument() {
    assert!(switch_choice(None, false));
    assert!(!switch_choice(None, true));
    assert!(switch_choice(Some("on"), true));
    assert!(!switch_choice(Some("off"), false));
    assert!(switch_choice(Some("maybe"), false));
}

#[test]
fn fork_counts_and_copy_indices() {
    assert_eq!(fork_count(Some("3"), 10), 3);
    assert_eq!(fork_count(Some("x"), 10), 10);
    assert_eq!(fork_count(None, 10), 10);
    assert!(matches!(copy_choice(None, 2), CopyChoice::Hint));
    assert!(matches!(copy_choice(Some("two"), 2), CopyChoice::NotANumber));
    assert!(matches!(copy_choice(Some("0"), 2), CopyChoice::OutOfRange));
    assert!(matches!(copy_choice(Some("3"), 2), CopyChoice::OutOfRange));
    assert!(matches!(copy_choice(Some("2"), 2), CopyChoice::Block(1)));
}

use seekcli::completer::{
    byte_len, dedup_strings, filter_starting, plan_completion, skill_tokens, slash_commands, sorted_unique, Completion,
};

fn ready(c: Completion) -> (usize, Vec<String>) {
    match c {
        Completion::Ready { start, items } => (start, items),
        _ => panic!("expected a ready list"),
    }
}

#[test]
fn a_bare_slash_offers_every_command() {
    let (start, items) = ready(plan_completion("/", 1));
    assert_eq!(start, 0);
    assert_eq!(items, slash_commands());
    let (_, items) = ready(plan_completion("/h", 2));
    assert_eq!(items, vec!["/help".to_string(), "/history".to_string()]);
}

#[test]
fn plain_text_completes_nothing() {
    let (start, items) = ready(plan_completion("hello", 5));
    assert_eq!(start, 5);
    assert!(items.is_empty());
}

#[test]
fn model_and_thinking_arguments() {
    let (start, items) = ready(plan_completion("/model f", 8));
    assert_eq!(start, 7);
    assert_eq!(items, vec!["flash".to_string()]);
    let (start, items) = ready(plan_completion("/thinking ", 10));
    assert_eq!(start, 10);
    assert_eq!(items, vec!["n".to_string(), "h".to_string(), "m".to_string()]);
}

#[test]
fn propose_completes_verb_then_kind_then_name() {
    let (start, items) = ready(plan_completion("/propose a", 10));
    assert_eq!(start, 9);
    assert_eq!(items, vec!["accept".to_string()]);
    let (start, items) = ready(plan_completion("/propose accept m", 17));
    assert_eq!(start, 16);
    assert_eq!(items, vec!["mcp".to_string()]);
    match plan_completion("/propose reject task no", 23) {
        Completion::Pending { start, kind, prefix } => {
            assert_eq!(start, 21);
            assert_eq!(kind, "task");
            assert_eq!(prefix, "no");
        }
        _ => panic!("expected pending names"),
    }
}

#[test]
fn skill_completes_proposals_or_tokens() {
    match plan_completion("/skill accept re", 16) {
        Completion::Proposals { start, prefix } => {
            assert_eq!(start, 14);
            assert_eq!(prefix, "re");
        }
        _ => panic!("expected proposals"),
    }
    match plan_completion("/skill li", 9) {
        Completion::SkillTokens { start, prefix } => {
            assert_eq!(start, 7);
            assert_eq!(prefix, "li");
        }
        _ => panic!("expected skill tokens"),
    }
}

#[test]
fn offsets_are_bytes_not_chars() {
    assert_eq!(byte_len(&['a', 'é', '中', '😀']), 1 + 2 + 3 + 4);
    // "/model é" is 9 bytes; the argument starts at byte 7.
    let (start, items) = ready(plan_completion("/model é", 9));
    assert_eq!(start, 7);
    assert!(items.is_empty());
}

#[test]
fn skill_tokens_merge_sort_and_filter() {
    let installed = vec!["translator".to_string(), "list".to_string(), "aaa".to_string()];
    let got = skill_tokens(installed, "");
    assert_eq!(got, vec!["aaa", "accept", "list", "migrate", "proposals", "reject", "translator"]);
    let got = skill_tokens(vec!["translator".to_string()], "re");
    assert_eq!(got, vec!["reject"]);
}

#[test]
fn helpers_keep_order_and_drop_repeats() {
    let v = vec!["b".to_string(), "a".to_string(), "b".to_string()];
    assert_eq!(sorted_unique(v.clone()), vec!["a", "b"]);
    assert_eq!(dedup_strings(&vec!["a".into(), "a".into(), "b".into(), "a".into()]), vec!["a", "b", "a"]);
    assert_eq!(filter_starting(&v, "b"), vec!["b", "b"]);
}

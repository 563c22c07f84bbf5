use seekcli::trace::{render_trace, SpanNote, TraceRow};
use seekcli::trace::Trace;

#[test]
fn disabled_is_noop() {
    let mut t = Trace::new(false);
    assert!(t.start_run().is_none());
    let s = t.begin("turn", "x", None, 5);
    assert!(s.is_none());
    t.end(s, 9);
    assert!(t.spans.is_empty());
}

#[test]
fn builds_nested_tree() {
    let mut t = Trace::new(true);
    let run = t.start_run();
    let turn = t.begin("turn", "iter 0", run, 1);
    let generate = t.begin("generate", "llm", turn, 2);
    t.end(generate, 3);
    t.end(turn, 4);
    t.end(run, 5);

    // One run at the root.
    let roots = t.children_of(None);
    assert_eq!(roots.len(), 1);
    assert_eq!(t.spans[roots[0]].kind, "run");
    // Run has one turn child; turn has one generate child.
    let turns = t.children_of(Some(roots[0]));
    assert_eq!(turns.len(), 1);
    assert_eq!(t.spans[turns[0]].kind, "turn");
    let leaves = t.children_of(Some(turns[0]));
    assert_eq!(t.spans[leaves[0]].kind, "generate");
    assert_eq!(t.total_ms(), 5);
    assert_eq!(t.spans[turns[0]].dur_ms, 3);
}

#[test]
fn an_absorbed_child_keeps_its_shape_under_the_graft_point() {
    let mut parent = Trace::new(true);
    let run = parent.start_run();
    let execute = parent.begin("execute", "1 tool(s)", run, 0);

    let mut child = parent.child(10);
    let sub = child.begin("subagent", "explore", None, 0);
    let turn = child.begin("turn", "iter 0", sub, 1);
    child.end(turn, 2);
    child.end(sub, 3);

    parent.absorb(child, execute);
    parent.end(execute, 20);
    parent.end(run, 21);

    let roots = parent.children_of(None);
    assert_eq!(roots.len(), 1, "the child must not surface as a second root");
    let executes = parent.children_of(Some(roots[0]));
    let subs = parent.children_of(Some(executes[0]));
    assert_eq!(parent.spans[subs[0]].kind, "subagent");
    assert_eq!(parent.spans[subs[0]].name, "explore");
    let turns = parent.children_of(Some(subs[0]));
    assert_eq!(turns.len(), 1, "the child's own nesting must survive");
    assert_eq!(parent.spans[turns[0]].kind, "turn");
    // The child's spans land in place on the parent's timeline.
    assert_eq!(parent.spans[subs[0]].start_ms, 10);
}

#[test]
fn two_absorbed_children_stay_separate() {
    let mut parent = Trace::new(true);
    let run = parent.start_run();
    for name in ["a", "b"] {
        let mut child = parent.child(0);
        let sub = child.begin("subagent", name, None, 0);
        let turn = child.begin("turn", "iter 0", sub, 0);
        child.end(turn, 0);
        child.end(sub, 0);
        parent.absorb(child, run);
    }
    let roots = parent.children_of(None);
    let subs = parent.children_of(Some(roots[0]));
    assert_eq!(subs.len(), 2);
    for (span, expected) in subs.iter().zip(["a", "b"]) {
        assert_eq!(parent.spans[*span].name, expected);
        assert_eq!(parent.children_of(Some(*span)).len(), 1, "`{expected}` lost or gained a turn");
    }
}

#[test]
fn a_disabled_child_absorbs_to_nothing() {
    let mut parent = Trace::new(false);
    let mut child = parent.child(0);
    assert!(child.begin("subagent", "explore", None, 0).is_none());
    parent.absorb(child, None);
    assert!(parent.spans.is_empty());
}

#[test]
fn annotate_records_meta() {
    let mut t = Trace::new(true);
    let run = t.start_run();
    let ex = t.begin("execute", "tools", run, 0);
    let mut meta = serde_json::Map::new();
    meta.insert(
        "tools".to_string(),
        serde_json::Value::Array(vec![serde_json::Value::String("read_file".to_string())]),
    );
    t.annotate(ex, serde_json::Value::Object(meta));
    let kids = t.children_of(run);
    assert_eq!(t.spans[kids[0]].meta["tools"][0], "read_file");
}

#[test]
fn a_new_run_starts_a_fresh_tree() {
    let mut t = Trace::new(true);
    let run = t.start_run();
    let _ = t.begin("turn", "x", run, 1);
    let first_id = t.run_id.clone();
    assert_eq!(t.start_run(), Some(0));
    assert_eq!(t.spans.len(), 1);
    assert_eq!(t.spans[0].kind, "run");
    assert_ne!(t.run_id, first_id);
}

#[test]
fn rendering_puts_each_turns_tools_on_its_own_line() {
    let row = |depth, kind: &str, name: &str, note| TraceRow { depth, kind: kind.into(), name: name.into(), start_ms: 0, dur_ms: 1, note };
    let rows = vec![
        row(0, "run", "chat", SpanNote::Plain),
        row(1, "execute", "1 tool(s)", SpanNote::Plain),
        row(2, "subagent", "explore", SpanNote::Outcome { status: "max_iterations".into(), iterations: 2 }),
        row(3, "turn", "iter 0", SpanNote::Calls(1)),
        row(4, "execute", "1 tool(s)", SpanNote::Tools(vec!["grep".into()])),
        row(3, "turn", "iter 1", SpanNote::Plain),
        row(4, "execute", "1 tool(s)", SpanNote::Tools(vec!["grep".into()])),
    ];
    let text = render_trace("abc", 1, "/w", &rows);
    assert!(text.starts_with("run abc  1ms  /w\n"), "header missing:\n{text}");
    assert!(text.contains("max_iterations after 2 iteration(s)"), "{text}");
    assert_eq!(text.matches("[grep]").count(), 2, "{text}");
    let sub_line = text.lines().find(|l| l.contains("subagent")).unwrap_or_default();
    let turn_line = text.lines().find(|l| l.contains("iter 0")).unwrap_or_default();
    assert!(turn_line.len() - turn_line.trim_start().len() > sub_line.len() - sub_line.trim_start().len(), "{text}");
    assert!(text.contains("1 call(s)"));
}

#[test]
fn a_row_has_fixed_columns() {
    let rows = vec![TraceRow { depth: 1, kind: "turn".into(), name: "iter 0".into(), start_ms: 12, dur_ms: 345, note: SpanNote::Plain }];
    let text = render_trace("r", 0, "", &rows);
    let expected = format!("  {:<9} {:<26} {:>6}+{:<6} \n", "turn", "iter 0", 12, 345);
    assert_eq!(text, format!("run r  0ms  \n{expected}"));
}

#[test]
fn a_missing_trace_says_how_to_get_one() {
    let m = seekcli::trace::missing_trace_message(None, "/t");
    assert!(m.contains("SEEKCLI_TRACE=1"), "{m}");
    let m = seekcli::trace::missing_trace_message(Some("ab"), "/t");
    assert_eq!(m, "no trace whose run id starts with `ab` in /t");
}

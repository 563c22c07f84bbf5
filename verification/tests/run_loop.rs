use seekcli::api::{FunctionCall, Message, ToolCall};
use seekcli::engine::{Journaling, LoopStatus};
use seekcli::run_loop::{loop_step, plan_and_bridge, LoopAction, LoopEvent, LoopState, Phase, ToolOutcome};
use seekcli::session::EventPayload;

fn call(id: &str, name: &str, args: &str) -> ToolCall {
    ToolCall {
        id: id.into(),
        tool_type: "function".into(),
        function: FunctionCall { name: name.into(), arguments: args.into() },
    }
}

fn start(max_iter: usize, journaling: Journaling, thinking: bool) -> LoopState {
    LoopState::new(vec![Message::new_user_text("go".into())], 0, max_iter, 10, journaling, thinking)
}

fn outcome(id: &str, content: &str) -> ToolOutcome {
    ToolOutcome { call_id: id.into(), content: content.into(), failed: false }
}

#[test]
fn a_run_reads_concurrently_then_plans_after_a_failure_and_answers() {
    let mut s = start(5, Journaling::Buffered, false);
    assert!(matches!(
        loop_step(&mut s, LoopEvent::Tick { interrupted: false }),
        LoopAction::Prepare { compact: true, plan: false }
    ));
    assert!(matches!(loop_step(&mut s, LoopEvent::Prepared { plan: None, spent: 0 }), LoopAction::Request));
    let calls = vec![call("a", "read_file", "{}"), call("b", "list_dir", "{}")];
    match loop_step(
        &mut s,
        LoopEvent::Reply { content: String::new(), reasoning: String::new(), calls, read_only: vec![true, true] },
    ) {
        LoopAction::Dispatch { concurrent, calls } => {
            assert!(concurrent);
            assert_eq!(calls.len(), 2);
        }
        _ => panic!("expected the calls to be handed out"),
    }
    let a = loop_step(
        &mut s,
        LoopEvent::Results {
            outcomes: vec![outcome("a", "Error executing tool read_file: gone"), outcome("b", "x\ny")],
            deferred: Vec::new(),
        },
    );
    assert!(matches!(a, LoopAction::Continue));
    assert!(s.plan_next, "a failed call plans the next turn");
    assert_eq!(s.messages.len(), 4);
    assert_eq!(s.events.len(), 3, "the reply and both results are logged");
    assert!(matches!(
        loop_step(&mut s, LoopEvent::Tick { interrupted: false }),
        LoopAction::Prepare { compact: true, plan: true }
    ));
    assert!(matches!(
        loop_step(&mut s, LoopEvent::Prepared { plan: Some("look elsewhere".into()), spent: 1 }),
        LoopAction::Request
    ));
    assert_eq!(s.messages.len(), 6, "the plan and its bridge enter the working set");
    assert_eq!(s.events.len(), 5, "and the log");
    assert!(matches!(&s.events[3], EventPayload::AssistantMessage { content, .. } if content == "look elsewhere"));
    assert!(matches!(&s.events[4], EventPayload::UserMessage { .. }));
    match loop_step(
        &mut s,
        LoopEvent::Reply { content: "done".into(), reasoning: String::new(), calls: Vec::new(), read_only: Vec::new() },
    ) {
        LoopAction::Finish { status, text } => {
            assert_eq!(status, LoopStatus::Completed);
            assert_eq!(text, "done");
        }
        _ => panic!("a reply without calls ends the run"),
    }
    assert_eq!(s.phase, Phase::Done);
    assert_eq!(s.iterations, 2);
    assert_eq!(s.events.len(), 6);
    assert_eq!(s.messages.len(), s.events.len() + 1, "everything after the prompt is in the log");
}

#[test]
fn a_write_among_the_calls_runs_serially() {
    let mut s = start(5, Journaling::Buffered, false);
    loop_step(&mut s, LoopEvent::Tick { interrupted: false });
    loop_step(&mut s, LoopEvent::Prepared { plan: None, spent: 0 });
    let calls = vec![call("a", "read_file", "{}"), call("b", "write_file", "{}")];
    match loop_step(
        &mut s,
        LoopEvent::Reply { content: String::new(), reasoning: String::new(), calls, read_only: vec![true, false] },
    ) {
        LoopAction::Dispatch { concurrent, .. } => assert!(!concurrent),
        _ => panic!("expected the calls to be handed out"),
    }
}

#[test]
fn a_failed_journal_refuses_a_turn_that_writes() {
    let mut s = start(5, Journaling::Session, false);
    loop_step(&mut s, LoopEvent::Tick { interrupted: false });
    loop_step(&mut s, LoopEvent::Prepared { plan: None, spent: 0 });
    let calls = vec![call("a", "write_file", "{}")];
    assert!(matches!(
        loop_step(
            &mut s,
            LoopEvent::Reply { content: String::new(), reasoning: String::new(), calls, read_only: vec![false] },
        ),
        LoopAction::Journal
    ));
    match loop_step(&mut s, LoopEvent::Journaled { failure: Some("disk full".into()) }) {
        LoopAction::Refuse(t) => {
            assert!(t.starts_with("refusing to run tools with side effects"));
            assert!(t.contains("(disk full)"));
        }
        _ => panic!("expected a refusal"),
    }
}

#[test]
fn a_failed_journal_lets_a_reading_turn_go_on() {
    let mut s = start(5, Journaling::Session, false);
    loop_step(&mut s, LoopEvent::Tick { interrupted: false });
    loop_step(&mut s, LoopEvent::Prepared { plan: None, spent: 0 });
    let calls = vec![call("a", "read_file", "{}")];
    loop_step(&mut s, LoopEvent::Reply { content: String::new(), reasoning: String::new(), calls, read_only: vec![true] });
    match loop_step(&mut s, LoopEvent::Journaled { failure: Some("disk full".into()) }) {
        LoopAction::Dispatch { concurrent, calls } => {
            assert!(!concurrent, "a single call is not fanned out");
            assert_eq!(calls.len(), 1);
        }
        _ => panic!("a read-only turn goes on"),
    }
}

#[test]
fn thinking_plans_the_first_turn_and_the_budget_stops_the_run() {
    let mut s = start(5, Journaling::Buffered, true);
    assert!(matches!(
        loop_step(&mut s, LoopEvent::Tick { interrupted: false }),
        LoopAction::Prepare { plan: true, .. }
    ));
    match loop_step(&mut s, LoopEvent::Prepared { plan: None, spent: 10 }) {
        LoopAction::Finish { status, text } => {
            assert_eq!(status, LoopStatus::BudgetExhausted);
            assert_eq!(text, "[Stopped: run budget of 10 model calls spent]");
        }
        _ => panic!("a spent budget ends the run"),
    }
}

#[test]
fn an_interrupt_ends_the_run_and_is_logged() {
    let mut s = start(5, Journaling::Buffered, false);
    match loop_step(&mut s, LoopEvent::Tick { interrupted: true }) {
        LoopAction::Finish { status, text } => {
            assert_eq!(status, LoopStatus::Interrupted);
            assert_eq!(text, "[Interrupted by user]");
        }
        _ => panic!("an interrupt ends the run"),
    }
    assert!(matches!(s.events.last(), Some(EventPayload::Interrupted)));
}

#[test]
fn a_run_without_iterations_says_where_it_stopped() {
    let mut s = start(0, Journaling::Buffered, false);
    match loop_step(&mut s, LoopEvent::Tick { interrupted: false }) {
        LoopAction::Finish { status, text } => {
            assert_eq!(status, LoopStatus::MaxIterations);
            assert_eq!(text, "[Stopped at max iterations (0)]");
        }
        _ => panic!("no iterations left"),
    }
}

#[test]
fn an_event_out_of_turn_changes_nothing() {
    let mut s = start(5, Journaling::Buffered, false);
    assert!(matches!(loop_step(&mut s, LoopEvent::Journaled { failure: None }), LoopAction::Ignored));
    assert_eq!(s.phase, Phase::Top);
    assert_eq!(s.iterations, 0);
}

#[test]
fn the_third_identical_turn_gets_a_logged_reminder() {
    let mut s = start(10, Journaling::Buffered, false);
    let mut fired = Vec::new();
    for _ in 0..3 {
        loop_step(&mut s, LoopEvent::Tick { interrupted: false });
        loop_step(&mut s, LoopEvent::Prepared { plan: None, spent: 0 });
        let calls = vec![call("x", "read_file", "{\"path\":\"a\"}")];
        loop_step(&mut s, LoopEvent::Reply { content: String::new(), reasoning: String::new(), calls, read_only: vec![true] });
        let a = loop_step(&mut s, LoopEvent::Results { outcomes: vec![outcome("x", "same")], deferred: Vec::new() });
        fired.push(matches!(a, LoopAction::Remind(_)));
    }
    assert_eq!(fired, vec![false, false, true]);
    assert_eq!(s.messages.len(), s.events.len() + 1, "everything after the prompt is in the log");
}

#[test]
fn a_plan_and_its_bridge_can_be_logged() {
    let ms = plan_and_bridge("step one".into());
    assert_eq!(ms.len(), 2);
    assert!(plan_and_bridge("   ".into()).is_empty());
}

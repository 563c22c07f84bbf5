use seekcli::bench::{eval_plan, EvalPlan};
use seekcli::proposals::Kind;
use seekcli::bench::{
    agent_error_note, failure_note, regression_refusal, setup_error_note, Regression, Report, Task, TaskResult,
    TestSuite,
};

fn report(rows: &[(&str, bool)]) -> Report {
    let mut r = Report::default();
    for (name, passed) in rows {
        r.push(TaskResult { name: (*name).to_string(), passed: *passed, duration_ms: 0, llm_calls: 0, note: String::new() });
    }
    r
}

fn task(name: &str) -> Task {
    Task {
        note: String::new(),
        name: name.to_string(),
        prompt: "p".to_string(),
        files: Vec::new(),
        setup: Vec::new(),
        eval: "true".to_string(),
        expect_fail: false,
        flags: Vec::new(),
        cleanup: Vec::new(),
    }
}

#[test]
fn a_skill_that_breaks_nothing_is_clean() {
    let before = report(&[("a", true), ("b", true)]);
    let after = report(&[("a", true), ("b", true)]);
    assert!(matches!(Regression::compare(&before, &after), Regression::Clean));
}

#[test]
fn losing_ground_names_exactly_which_tasks() {
    let before = report(&[("a", true), ("b", true), ("c", false)]);
    let after = report(&[("a", true), ("b", false), ("c", false)]);
    match Regression::compare(&before, &after) {
        Regression::Broke(names) => assert_eq!(names, vec!["b".to_string()]),
        Regression::Clean => panic!("expected a regression"),
    }
}

#[test]
fn a_task_that_was_already_failing_is_not_a_regression() {
    let before = report(&[("a", false)]);
    let after = report(&[("a", false)]);
    assert!(matches!(Regression::compare(&before, &after), Regression::Clean));
}

#[test]
fn a_newly_passing_task_does_not_offset_a_broken_one() {
    let before = report(&[("a", true), ("b", false)]);
    let after = report(&[("a", false), ("b", true)]);
    match Regression::compare(&before, &after) {
        Regression::Broke(names) => assert_eq!(names, vec!["a".to_string()]),
        Regression::Clean => panic!("a win must not cancel a loss"),
    }
}

#[test]
fn the_refusal_names_the_tasks_and_the_way_out() {
    let text = Regression::Broke(vec!["fix_bug".into()]).explain();
    assert!(text.contains("fix_bug"), "{text}");
    assert!(text.contains("--skip-eval"), "{text}");
}

#[test]
fn the_explanation_counts_the_broken_tasks() {
    assert_eq!(
        Regression::Broke(vec!["a".into(), "b".into()]).explain(),
        "it breaks 2 task(s) that passed without it: a, b. Fix the skill's instructions, or accept it anyway with --skip-eval"
    );
    assert_eq!(Regression::Clean.explain(), "no task that passed before fails with it");
}

#[test]
fn a_refused_proposal_says_why() {
    assert_eq!(regression_refusal("tidy", &Regression::Clean), None);
    let m = regression_refusal("tidy", &Regression::Broke(vec!["a".into()])).expect("refused");
    assert!(m.starts_with("`tidy` was not accepted: it breaks 1 task(s)"), "{m}");
}

#[test]
fn report_scores_and_renders() {
    let mut rep = Report::default();
    rep.push(TaskResult { name: "t1".to_string(), passed: true, duration_ms: 100, llm_calls: 2, note: String::new() });
    rep.push(TaskResult {
        name: "t2".to_string(),
        passed: false,
        duration_ms: 200,
        llm_calls: 5,
        note: "eval failed".to_string(),
    });
    assert_eq!(rep.passed(), 1);
    assert_eq!(rep.total(), 2);
    let text = rep.render(&vec!["0.0100".to_string(), "0.0200".to_string()], "0.0300");
    assert!(text.contains("Score: 1/2 (50%)"));
    assert!(text.contains("PASS"));
    assert!(text.contains("FAIL"));
    assert!(text.contains("[PASS] t1                          100ms  2 calls  ≈¥0.0100\n"), "{text}");
    assert!(text.contains("  — eval failed\n"), "{text}");
    assert!(text.ends_with("Score: 1/2 (50%)  ·  total ≈¥0.0300  ·  300ms\n"), "{text}");
}

#[test]
fn an_empty_report_scores_zero_percent() {
    let rep = Report::default();
    assert!(rep.render(&Vec::new(), "0.0000").contains("Score: 0/0 (0%)"));
    assert_eq!(rep.total_ms(), 0);
}

#[test]
fn expect_fail_inverts_the_verdict() {
    let mut guard = task("no_write");
    guard.expect_fail = true;
    assert!(guard.verdict(false), "the eval failing means the guard held");
    assert!(!guard.verdict(true), "the eval succeeding means the guard was breached");
    assert!(task("p").verdict(true));
    assert!(!task("p").verdict(false));
}

#[test]
fn the_testbed_is_named_after_the_task() {
    assert_eq!(task("prep_test").testbed("/bench"), "/bench/prep_test");
}

#[test]
fn a_read_only_task_says_so() {
    let mut t = task("x");
    assert!(!t.wants_read_only());
    t.flags.push("--read-only".into());
    assert!(t.wants_read_only());
}

#[test]
fn an_empty_suite_is_refused() {
    let empty = TestSuite { comment: String::new(), tasks: Vec::new() };
    match empty.require_tasks(false) {
        Err(e) => assert_eq!(e, "testsuite has no tasks"),
        Ok(_) => panic!("an empty suite would pass everything"),
    }
    let one = TestSuite { comment: String::new(), tasks: vec![task("t")] };
    assert!(one.require_tasks(true).is_ok());
}

#[test]
fn a_failed_task_is_noted_by_the_first_line_of_its_output() {
    assert_eq!(failure_note(false, "boom\nmore"), "boom");
    assert_eq!(failure_note(true, "boom"), "");
    assert_eq!(setup_error_note("x"), "setup error: x");
    assert_eq!(agent_error_note("y"), "agent error: y");
}

#[test]
fn only_a_skill_is_measured_before_it_lands() {
    assert!(matches!(eval_plan(Kind::Skill, false, "x"), EvalPlan::Measure));
    assert!(matches!(eval_plan(Kind::Skill, true, "x"), EvalPlan::Skipped(m) if m.contains("`x` lands unmeasured")));
    assert!(matches!(eval_plan(Kind::Mcp, false, "x"), EvalPlan::NotApplicable(m) if m.contains("mcp proposal")));
    assert!(matches!(eval_plan(Kind::Task, true, "x"), EvalPlan::NotApplicable(_)));
}

#[test]
fn the_score_line_shows_both_runs() {
    let before = report(&[("a", true), ("b", true)]);
    let after = report(&[("a", true), ("b", false)]);
    assert_eq!(seekcli::bench::score_line("s", &before, &after), "baseline 2/2 \u{2192} with `s` 1/2");
    assert!(seekcli::bench::measuring_notice("s").starts_with("checking `s`"));
}

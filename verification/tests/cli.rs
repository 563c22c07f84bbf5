use seekcli::cli::{
    exit_code, is_headless, iteration_cap, json_status, piped_text, silent_stdin_notice, with_piped_stdin, EXIT_NOT_CONVERGED,
    EXIT_OK, EXIT_POLICY_REFUSED,
};
use seekcli::engine::LoopStatus;

#[test]
fn exit_codes_tell_not_converged_from_broken() {
    assert_eq!(exit_code(LoopStatus::Completed), EXIT_OK);
    assert_eq!(exit_code(LoopStatus::MaxIterations), EXIT_NOT_CONVERGED);
    assert_eq!(exit_code(LoopStatus::BudgetExhausted), EXIT_NOT_CONVERGED);
    assert_eq!(exit_code(LoopStatus::Interrupted), EXIT_POLICY_REFUSED);
    assert_eq!(json_status(LoopStatus::MaxIterations), "max_iterations");
}

#[test]
fn piped_stdin_is_appended_under_a_separator() {
    assert_eq!(piped_text("  \n "), None);
    assert_eq!(piped_text(" log line \n").as_deref(), Some("log line"));
    assert_eq!(with_piped_stdin("explain".into(), Some("log".into())), "explain\n\n--- piped stdin ---\nlog");
    assert_eq!(with_piped_stdin("explain".into(), None), "explain");
    assert_eq!(silent_stdin_notice(2), "[Input] stdin stayed open with no data for 2s; continuing without it");
}

#[test]
fn the_iteration_ceiling_is_at_least_one() {
    assert_eq!(iteration_cap(Some(0), 25), 1);
    assert_eq!(iteration_cap(Some(7), 25), 7);
    assert_eq!(iteration_cap(None, 25), 25);
    assert!(is_headless(false, true, false));
    assert!(!is_headless(false, false, false));
}

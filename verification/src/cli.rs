//! What the command line decides before and after a run: whether the run is
//! headless, the prompt it is given, its iteration ceiling, and the exit
//! code its outcome maps to.

use vstd::prelude::*;
use crate::engine::LoopStatus;
use crate::text::{lit, push_str, trim_spec};

verus! {

/// The run finished.
pub const EXIT_OK: i32 = 0;
/// Something broke.
pub const EXIT_RUNTIME_ERROR: i32 = 1;
/// The agent ran fine but did not finish within its budget.
pub const EXIT_NOT_CONVERGED: i32 = 2;
/// The run was stopped before it could finish.
pub const EXIT_POLICY_REFUSED: i32 = 3;

/// The exit code of a headless run that ended with `status`: a run that
/// ran out of turns or of model calls did not converge, which a caller
/// treats differently from a failure.
pub fn exit_code(status: LoopStatus) -> (code: i32)
    ensures
        code == (match status {
            LoopStatus::Completed => EXIT_OK,
            LoopStatus::MaxIterations => EXIT_NOT_CONVERGED,
            LoopStatus::BudgetExhausted => EXIT_NOT_CONVERGED,
            LoopStatus::Interrupted => EXIT_POLICY_REFUSED,
        }),
{
    match status {
        LoopStatus::Completed => EXIT_OK,
        LoopStatus::MaxIterations => EXIT_NOT_CONVERGED,
        LoopStatus::BudgetExhausted => EXIT_NOT_CONVERGED,
        LoopStatus::Interrupted => EXIT_POLICY_REFUSED,
    }
}

/// Every entry point but the REPL is headless: nobody is there to answer a
/// prompt, and stdout carries only the result.
pub fn is_headless(prompt: bool, bench: bool, task: bool) -> (b: bool)
    ensures
        b == (prompt || bench || task),
{
    prompt || bench || task
}

/// The iteration ceiling a run gets: the one asked for, at least 1, or the
/// default.
pub fn iteration_cap(asked: Option<usize>, default: usize) -> (n: usize)
    ensures
        n == (match asked {
            Some(k) => if k >= 1 { k } else { 1 },
            None => default,
        }),
{
    match asked {
        Some(k) => if k >= 1 { k } else { 1 },
        None => default,
    }
}

/// What piped stdin contributes: its trimmed text, or nothing when blank.
pub fn piped_text(text: &str) -> (r: Option<String>)
    ensures
        match r {
            Some(t) => t@ == trim_spec(text@) && t@.len() > 0,
            None => trim_spec(text@).len() == 0,
        },
{
    let t = crate::text::trim(text);
    if t.as_str().is_empty() {
        None
    } else {
        Some(t)
    }
}

/// The prompt a `-p` run sends: the given text, followed by piped stdin
/// under a separator when there is some.
pub fn with_piped_stdin(prompt: String, stdin: Option<String>) -> (r: String)
    ensures
        r@ == (match stdin {
            Some(s) => prompt@ + "\n\n--- piped stdin ---\n"@ + s@,
            None => prompt@,
        }),
{
    match stdin {
        Some(s) => {
            let mut r = prompt;
            push_str(&mut r, "\n\n--- piped stdin ---\n");
            push_str(&mut r, s.as_str());
            r
        },
        None => prompt,
    }
}

/// The notice when piped stdin stays open without data for `secs` seconds.
pub fn silent_stdin_notice(secs: u64) -> (r: String)
    ensures
        r@ == "[Input] stdin stayed open with no data for "@ + crate::text::decimal_spec(secs as nat)
            + "s; continuing without it"@,
{
    let mut r = lit("[Input] stdin stayed open with no data for ");
    push_str(&mut r, crate::text::decimal(secs).as_str());
    push_str(&mut r, "s; continuing without it");
    r
}


/// The status as a `-p --output json` result reports it.
pub fn json_status(status: LoopStatus) -> (s: &'static str)
    ensures
        s@ == (match status {
            LoopStatus::Completed => "completed"@,
            LoopStatus::MaxIterations => "max_iterations"@,
            LoopStatus::Interrupted => "interrupted"@,
            LoopStatus::BudgetExhausted => "budget_exhausted"@,
        }),
{
    match status {
        LoopStatus::Completed => "completed",
        LoopStatus::MaxIterations => "max_iterations",
        LoopStatus::Interrupted => "interrupted",
        LoopStatus::BudgetExhausted => "budget_exhausted",
    }
}

} // verus!

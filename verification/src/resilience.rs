//! Retry, backoff and timeout policy for model requests.
//!
//! Only the request is retried, never a stream that has started: a stream
//! that dies after emitting tool calls has already caused side effects, and
//! replaying it would duplicate them. The decisions live here; the loop that
//! sends, waits and sleeps drives them from outside. The policy's durations
//! are whole milliseconds; a backoff is reckoned in microseconds, which hold
//! a quarter of any whole number of milliseconds exactly.

use vstd::prelude::*;

use crate::api::LlmError;

verus! {

/// How a request is retried and how long it may wait.
#[derive(Debug, Clone, Copy, PartialEq)]
pub struct RetryPolicy {
    /// Calls made in all, the first included.
    pub max_attempts: u32,
    pub base_delay_ms: u64,
    /// Cap on a single backoff sleep, so a large `Retry-After` or a high
    /// attempt count cannot park the agent for minutes.
    pub max_delay_ms: u64,
    /// How long to wait for response headers; not a cap on generation.
    pub request_timeout_ms: u64,
    /// How long the stream may go silent between items before it fails.
    pub stream_idle_timeout_ms: u64,
}

impl RetryPolicy {
    pub open spec fn default_spec() -> RetryPolicy {
        RetryPolicy {
            max_attempts: 4,
            base_delay_ms: 500,
            max_delay_ms: 30_000,
            request_timeout_ms: 120_000,
            stream_idle_timeout_ms: 60_000,
        }
    }
}

impl Default for RetryPolicy {
    fn default() -> (r: Self)
        ensures
            r == RetryPolicy::default_spec(),
    {
        RetryPolicy {
            max_attempts: 4,
            base_delay_ms: 500,
            max_delay_ms: 30_000,
            request_timeout_ms: 120_000,
            stream_idle_timeout_ms: 60_000,
        }
    }
}

/// Whether another attempt could plausibly succeed after `e`: the failure is
/// about the world (transport, 408, 429, 5xx), not about this request (other
/// 4xx). An unclassified failure is never retried: repeating unknown work
/// risks duplicating it.
pub open spec fn retryable_spec(e: Option<LlmError>) -> bool {
    match e {
        Some(LlmError::Transport { .. }) => true,
        Some(LlmError::Status { status, .. }) => status == 429 || status == 408 || status >= 500,
        None => false,
    }
}

pub open spec fn deref_err(e: Option<&LlmError>) -> Option<LlmError> {
    match e {
        Some(x) => Some(*x),
        None => None,
    }
}

/// Whether another attempt could plausibly succeed; `None` stands for a
/// failure that is not an [`LlmError`].
pub fn is_retryable(err: Option<&LlmError>) -> (b: bool)
    ensures
        b == retryable_spec(deref_err(err)),
{
    match err {
        Some(LlmError::Transport { .. }) => true,
        Some(LlmError::Status { status, .. }) => *status == 429 || *status == 408 || *status >= 500,
        None => false,
    }
}

/// `secs` seconds in milliseconds, saturating.
pub open spec fn secs_to_ms(secs: u64) -> u64 {
    if secs * 1000 <= u64::MAX { (secs * 1000) as u64 } else { u64::MAX }
}

/// The server's `Retry-After`, in milliseconds, when it sent one.
pub open spec fn retry_after_spec(e: Option<LlmError>) -> Option<u64> {
    match e {
        Some(LlmError::Status { retry_after_secs: Some(s), .. }) => Some(secs_to_ms(s)),
        _ => None,
    }
}

pub fn retry_after(err: Option<&LlmError>) -> (r: Option<u64>)
    ensures
        r == retry_after_spec(deref_err(err)),
{
    match err {
        Some(LlmError::Status { retry_after_secs: Some(s), .. }) => match s.checked_mul(1000) {
            Some(ms) => Some(ms),
            None => Some(u64::MAX),
        },
        _ => None,
    }
}

pub open spec fn pow2(k: nat) -> nat
    decreases k,
{
    if k == 0 { 1 } else { 2 * pow2((k - 1) as nat) }
}

pub open spec fn min_int(a: int, b: int) -> int {
    if a < b { a } else { b }
}

/// Backoff before retry number `attempt` (0-based), in microseconds: a
/// server-supplied `Retry-After` of `hint` milliseconds wins, else the base
/// delay doubled per attempt (the doubling stops at 2^16), with a
/// deterministic +25% on odd attempts so one client's retries are not
/// perfectly periodic; always at most `max_delay_ms`.
pub open spec fn backoff_spec(p: RetryPolicy, attempt: u32, hint: Option<u64>) -> u128 {
    match hint {
        Some(h) => (min_int(h as int, p.max_delay_ms as int) * 1000) as u128,
        None => {
            let factor = pow2(if attempt < 16 { attempt as nat } else { 16 });
            let base = p.base_delay_ms * 1000 * factor;
            let jitter = if attempt % 2 == 1 { base / 4 } else { 0 };
            min_int(base + jitter, p.max_delay_ms * 1000) as u128
        },
    }
}

proof fn lemma_pow2_mono(a: nat, b: nat)
    requires
        a <= b,
    ensures
        pow2(a) <= pow2(b),
    decreases b,
{
    if a < b {
        lemma_pow2_mono(a, (b - 1) as nat);
        lemma_pow2_pos((b - 1) as nat);
    }
}

proof fn lemma_pow2_pos(k: nat)
    ensures
        pow2(k) >= 1,
    decreases k,
{
    if k > 0 {
        lemma_pow2_pos((k - 1) as nat);
    }
}

/// How long to wait before retry number `attempt` (0-based), in
/// microseconds, honouring a server-supplied `Retry-After` of
/// `server_hint_ms`.
pub fn backoff(policy: &RetryPolicy, attempt: u32, server_hint_ms: Option<u64>) -> (d: u128)
    ensures
        d == backoff_spec(*policy, attempt, server_hint_ms),
        d <= policy.max_delay_ms * 1000,
{
    if let Some(hint) = server_hint_ms {
        let h: u64 = if hint < policy.max_delay_ms { hint } else { policy.max_delay_ms };
        return h as u128 * 1000;
    }
    let k: u32 = if attempt < 16 { attempt } else { 16 };
    let mut factor: u128 = 1;
    let mut j: u32 = 0;
    while j < k
        invariant
            k <= 16,
            j <= k,
            factor == pow2(j as nat),
        decreases k - j,
    {
        proof {
            lemma_pow2_mono(j as nat, 15);
            assert(pow2(15) == 32768) by {
                reveal_with_fuel(pow2, 16);
            }
        }
        factor = factor * 2;
        j += 1;
    }
    proof {
        lemma_pow2_mono(k as nat, 16);
        assert(pow2(16) == 65536) by {
            reveal_with_fuel(pow2, 17);
        }
    }
    let base_ms: u128 = policy.base_delay_ms as u128;
    assert(base_ms * 1000 * factor <= u64::MAX as u128 * 1000 * 65536) by (nonlinear_arith)
        requires
            factor <= 65536,
            base_ms <= u64::MAX,
    ;
    let base: u128 = base_ms * 1000 * factor;
    let jitter: u128 = if attempt % 2 == 1 { base / 4 } else { 0 };
    let total: u128 = base + jitter;
    let cap: u128 = policy.max_delay_ms as u128 * 1000;
    if total < cap {
        total
    } else {
        cap
    }
}

/// What to do after a failed call.
#[derive(Debug, Clone, Copy, PartialEq, Eq)]
pub enum RetryDecision {
    /// Sleep this many microseconds, then call again.
    Retry { delay_us: u128 },
    /// Surface the failure.
    GiveUp,
}

/// The decision after `calls_made` calls, the last of which failed with
/// `e`: give up once the attempts are spent or the failure is not worth
/// repeating, else wait the backoff for retry number `calls_made - 1`.
pub open spec fn decision_spec(p: RetryPolicy, calls_made: u32, e: Option<LlmError>) -> RetryDecision {
    if calls_made >= p.max_attempts || !retryable_spec(e) {
        RetryDecision::GiveUp
    } else {
        RetryDecision::Retry { delay_us: backoff_spec(p, (calls_made - 1) as u32, retry_after_spec(e)) }
    }
}

/// Decide, after `calls_made` calls whose last failed with `err`, whether
/// to retry and after how long.
pub fn after_failure(policy: &RetryPolicy, calls_made: u32, err: Option<&LlmError>) -> (r: RetryDecision)
    requires
        calls_made >= 1,
    ensures
        r == decision_spec(*policy, calls_made, deref_err(err)),
{
    if calls_made >= policy.max_attempts || !is_retryable(err) {
        RetryDecision::GiveUp
    } else {
        RetryDecision::Retry { delay_us: backoff(policy, calls_made - 1, retry_after(err)) }
    }
}

/// Retries are bounded and earned: a retry is granted only while fewer than
/// `max_attempts` calls were made and only for a retryable failure, so a
/// client error is sent once and no request is sent more than
/// `max(max_attempts, 1)` times.
pub proof fn retries_are_bounded(p: RetryPolicy, calls_made: u32, e: Option<LlmError>)
    ensures
        decision_spec(p, calls_made, e) is Retry ==> calls_made < p.max_attempts && retryable_spec(e),
        !retryable_spec(e) ==> decision_spec(p, calls_made, e) is GiveUp,
{
}

/// No wait exceeds the cap, whatever the attempt or the server asked for.
pub proof fn backoff_is_capped(p: RetryPolicy, attempt: u32, hint: Option<u64>)
    ensures
        backoff_spec(p, attempt, hint) <= p.max_delay_ms * 1000,
        hint matches Some(h) ==> backoff_spec(p, attempt, hint) == min_int(h as int, p.max_delay_ms as int) * 1000,
{
}

/// Below the cap, each later attempt waits at least as long as the one
/// before: the schedule grows. It does not once the doubling has stopped
/// (from attempt 16) and an odd attempt's jitter is followed by an even
/// attempt's none.
pub proof fn backoff_grows(p: RetryPolicy, attempt: u32)
    requires
        attempt < u32::MAX,
        attempt < 16 || attempt % 2 == 0,
    ensures
        backoff_spec(p, attempt, None) <= backoff_spec(p, (attempt + 1) as u32, None),
{
    let a = attempt;
    let b = (attempt + 1) as u32;
    let ka: nat = if a < 16 { a as nat } else { 16 };
    let kb: nat = if b < 16 { b as nat } else { 16 };
    lemma_pow2_mono(ka, kb);
    let fa = pow2(ka);
    let fb = pow2(kb);
    let bd = p.base_delay_ms * 1000;
    assert(bd * fa <= bd * fb) by (nonlinear_arith)
        requires
            fa <= fb,
            bd >= 0,
    ;
    if a < 16 {
        assert(fb == 2 * fa);
        assert(bd * fb == 2 * (bd * fa)) by (nonlinear_arith)
            requires
                fb == 2 * fa,
        ;
    } else {
        assert(ka == kb);
    }
}

/// What a retry loop does once a call has come back.
#[derive(Debug, Clone, Copy, PartialEq, Eq)]
pub enum RetryAction {
    /// The call succeeded: hand its response on.
    Succeed,
    /// Sleep this many microseconds, then call again.
    Wait { delay_us: u128 },
    /// Surface the failure.
    Fail,
}

/// The action after call number `calls_made` came back with `outcome`:
/// `None` for success, `Some(e)` for a failure, where `e` is as
/// [`after_failure`] takes it.
pub open spec fn retry_step_spec(p: RetryPolicy, calls_made: nat, outcome: Option<Option<LlmError>>) -> RetryAction {
    match outcome {
        None => RetryAction::Succeed,
        Some(e) => if 1 <= calls_made <= u32::MAX && decision_spec(p, calls_made as u32, e) is Retry {
            RetryAction::Wait { delay_us: decision_spec(p, calls_made as u32, e)->delay_us }
        } else {
            RetryAction::Fail
        },
    }
}

/// Counts the calls of one request through its retries.
pub struct RetryCounter {
    /// Calls made so far.
    pub calls: u32,
}

impl RetryCounter {
    pub fn new() -> (r: RetryCounter)
        ensures
            r.calls == 0,
    {
        RetryCounter { calls: 0 }
    }

    /// Count a call that succeeded.
    pub fn succeeded(&mut self) -> (a: RetryAction)
        requires
            old(self).calls < u32::MAX,
        ensures
            final(self).calls == old(self).calls + 1,
            a == RetryAction::Succeed,
    {
        self.calls = self.calls + 1;
        RetryAction::Succeed
    }

    /// Count a call that failed with `err` and say what to do next.
    pub fn failed(&mut self, policy: &RetryPolicy, err: Option<&LlmError>) -> (a: RetryAction)
        requires
            old(self).calls < u32::MAX,
        ensures
            final(self).calls == old(self).calls + 1,
            a == retry_step_spec(*policy, (old(self).calls + 1) as nat, Some(deref_err(err))),
    {
        self.calls = self.calls + 1;
        match after_failure(policy, self.calls, err) {
            RetryDecision::Retry { delay_us } => RetryAction::Wait { delay_us },
            RetryDecision::GiveUp => RetryAction::Fail,
        }
    }
}

/// How a retry loop driven by a [`RetryCounter`] ends over a
/// scripted series of call outcomes, having made `i` calls: the number of
/// calls made and whether the last succeeded.
pub open spec fn retry_run(p: RetryPolicy, os: Seq<Option<Option<LlmError>>>, i: nat) -> (nat, bool)
    decreases os.len() - i,
{
    if i >= os.len() {
        (i, false)
    } else {
        match retry_step_spec(p, i + 1, os[i as int]) {
            RetryAction::Succeed => (i + 1, true),
            RetryAction::Wait { .. } => retry_run(p, os, i + 1),
            RetryAction::Fail => (i + 1, false),
        }
    }
}

/// `k` failures with `e`, then a success.
pub open spec fn failing_then_ok(e: LlmError, k: nat) -> Seq<Option<Option<LlmError>>> {
    Seq::new(k, |j: int| Some(Some(e))).push(None)
}

proof fn lemma_retry_run_from(p: RetryPolicy, e: LlmError, k: nat, i: nat)
    requires
        p.max_attempts >= 1,
        retryable_spec(Some(e)),
        k < u32::MAX,
        i <= k,
        i < p.max_attempts,
    ensures
        retry_run(p, failing_then_ok(e, k), i) == (
            if k < p.max_attempts { (k + 1) as nat } else { p.max_attempts as nat },
            k < p.max_attempts,
        ),
    decreases k - i,
{
    let os = failing_then_ok(e, k);
    if i < k {
        assert(os[i as int] == Some(Some(e)));
        if i + 1 < p.max_attempts {
            lemma_retry_run_from(p, e, k, i + 1);
        }
    } else {
        assert(os[i as int] == None::<Option<LlmError>>);
    }
}

/// A call that fails `k` times with a retryable error and then succeeds is
/// made exactly `min(k + 1, max_attempts)` times, and the result is a
/// success exactly when `k < max_attempts`. A failure that is not worth
/// retrying is tried once and surfaced.
pub proof fn retries_stop_at_max_attempts(p: RetryPolicy, e: LlmError, k: nat)
    requires
        p.max_attempts >= 1,
        k < u32::MAX,
    ensures
        retryable_spec(Some(e)) ==> retry_run(p, failing_then_ok(e, k), 0) == (
            if k < p.max_attempts { (k + 1) as nat } else { p.max_attempts as nat },
            k < p.max_attempts,
        ),
        !retryable_spec(Some(e)) && k >= 1 ==> retry_run(p, failing_then_ok(e, k), 0) == (1nat, false),
{
    if retryable_spec(Some(e)) {
        lemma_retry_run_from(p, e, k, 0);
    } else if k >= 1 {
        assert(failing_then_ok(e, k)[0] == Some(Some(e)));
    }
}

} // verus!

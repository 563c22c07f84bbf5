//! Trajectory export: a bench run as records an outside pipeline can read.
//!
//! The pure part only: events plus a verdict in, records out. A record holds
//! one terminal reward per task and the run folded into steps, each pairing
//! what the model saw with what it did.

use vstd::prelude::*;

use crate::api::ToolCall;
use crate::session::{EventPayload, PayloadView};
use crate::text::{lit, push_char, push_str};

verus! {

/// How `reward` was decided, written out so that another verdict style
/// added later cannot make old data read as if it used the new one.
pub const FAIL_TO_PASS: &'static str = "fail_to_pass";

/// One tool call the model asked for.
#[derive(Debug, Clone, PartialEq)]
pub struct ActionCall {
    pub name: String,
    pub arguments: String,
}

/// What the model did at a step.
#[derive(Debug, Clone, PartialEq)]
pub struct Action {
    pub text: String,
    pub tool_calls: Vec<ActionCall>,
}

/// One step: what the model saw, and what it did about it.
#[derive(Debug, Clone, PartialEq)]
pub struct Step {
    pub index: usize,
    /// Everything that arrived since the previous action: the prompt on the
    /// first step, tool results after that.
    pub observation: String,
    pub action: Action,
}

/// One task's trajectory.
#[derive(Debug, Clone, PartialEq)]
pub struct Record {
    pub task: String,
    pub prompt: String,
    /// `1` passed, `0` did not, with any expected-failure inversion applied.
    pub reward: u8,
    pub reward_kind: String,
    /// `completed` / `max_iterations` / `interrupted`.
    pub status: String,
    pub llm_calls: u64,
    pub steps: Vec<Step>,
}

pub struct StepView {
    pub index: int,
    pub observation: Seq<char>,
    pub text: Seq<char>,
    pub calls: Seq<(Seq<char>, Seq<char>)>,
}

pub open spec fn calls_of(a: Action) -> Seq<(Seq<char>, Seq<char>)> {
    a.tool_calls@.map_values(|c: ActionCall| (c.name@, c.arguments@))
}

impl View for Step {
    type V = StepView;

    open spec fn view(&self) -> StepView {
        StepView {
            index: self.index as int,
            observation: self.observation@,
            text: self.action.text@,
            calls: calls_of(self.action),
        }
    }
}

pub open spec fn steps_view(v: Seq<Step>) -> Seq<StepView> {
    v.map_values(|s: Step| s@)
}

/// `text` appended to `buffer` on a line of its own.
pub open spec fn push_line_spec(buffer: Seq<char>, text: Seq<char>) -> Seq<char> {
    if buffer.len() > 0 { buffer.push('\n') + text } else { text }
}

/// The steps from `ev` on, given the steps so far and the observation
/// gathered since the last action. A step closes at each assistant message;
/// user messages, tool results and compaction summaries are observed;
/// bookkeeping (system prompts, skills, usage, interrupts) is skipped.
pub open spec fn fold_steps(ev: Seq<PayloadView>, steps: Seq<StepView>, obs: Seq<char>) -> Seq<StepView>
    decreases ev.len(),
{
    if ev.len() == 0 {
        steps
    } else {
        let rest = ev.drop_first();
        match ev[0] {
            PayloadView::UserMessage { content, .. } => fold_steps(rest, steps, push_line_spec(obs, content)),
            PayloadView::ToolResult { content, .. } => fold_steps(rest, steps, push_line_spec(obs, content)),
            PayloadView::Compaction { summary, .. } => fold_steps(rest, steps, push_line_spec(obs, summary)),
            PayloadView::AssistantMessage { content, tool_calls, .. } => fold_steps(
                rest,
                steps.push(StepView {
                    index: steps.len() as int,
                    observation: obs,
                    text: content,
                    calls: tool_calls.map_values(|c: crate::api::ToolCallView| (c.name, c.arguments)),
                }),
                seq![],
            ),
            _ => fold_steps(rest, steps, obs),
        }
    }
}

/// Whether the log carries the user's input itself.
pub open spec fn logs_input(ev: Seq<PayloadView>) -> bool {
    exists|i: int| 0 <= i < ev.len() && #[trigger] ev[i] is UserMessage
}

/// The steps of a run: the prompt seeds the first observation only when
/// the log does not carry the input.
pub open spec fn steps_spec(prompt: Seq<char>, ev: Seq<PayloadView>) -> Seq<StepView> {
    fold_steps(ev, seq![], if logs_input(ev) { seq![] } else { prompt })
}

pub open spec fn payloads_view(v: Seq<EventPayload>) -> Seq<PayloadView> {
    v.map_values(|p: EventPayload| p@)
}

/// Number of assistant messages in `ev`.
pub open spec fn assistant_count(ev: Seq<PayloadView>) -> nat
    decreases ev.len(),
{
    if ev.len() == 0 {
        0
    } else {
        (if ev[0] is AssistantMessage { 1nat } else { 0nat }) + assistant_count(ev.drop_first())
    }
}

fn push_line(buffer: &mut String, text: &str)
    ensures
        final(buffer)@ == push_line_spec(old(buffer)@, text@),
{
    if !buffer.as_str().is_empty() {
        push_char(buffer, '\n');
    }
    push_str(buffer, text);
}

fn action_calls(calls: &Vec<ToolCall>) -> (r: Vec<ActionCall>)
    ensures
        r@.map_values(|c: ActionCall| (c.name@, c.arguments@))
            == crate::api::calls_view(calls@).map_values(|c: crate::api::ToolCallView| (c.name, c.arguments)),
{
    let mut r: Vec<ActionCall> = Vec::new();
    let mut i: usize = 0;
    while i < calls.len()
        invariant
            i <= calls@.len(),
            r@.len() == i,
            forall|j: int| 0 <= j < i ==> #[trigger] r@[j].name@ == calls@[j].function.name@
                && r@[j].arguments@ == calls@[j].function.arguments@,
        decreases calls.len() - i,
    {
        r.push(ActionCall {
            name: calls[i].function.name.clone(),
            arguments: calls[i].function.arguments.clone(),
        });
        i += 1;
    }
    assert(r@.map_values(|c: ActionCall| (c.name@, c.arguments@)) =~= crate::api::calls_view(calls@).map_values(
        |c: crate::api::ToolCallView| (c.name, c.arguments),
    ));
    r
}

fn logged_input(events: &[EventPayload]) -> (b: bool)
    ensures
        b == logs_input(payloads_view(events@)),
{
    let mut i: usize = 0;
    while i < events.len()
        invariant
            i <= events@.len(),
            forall|j: int| 0 <= j < i ==> !(#[trigger] payloads_view(events@)[j] is UserMessage),
        decreases events.len() - i,
    {
        match &events[i] {
            EventPayload::UserMessage { .. } => {
                assert(payloads_view(events@)[i as int] is UserMessage);
                return true;
            },
            _ => {},
        }
        i += 1;
    }
    false
}

/// Fold the event log into (observation, action) pairs.
pub fn steps_of(prompt: &str, events: &[EventPayload]) -> (r: Vec<Step>)
    ensures
        steps_view(r@) == steps_spec(prompt@, payloads_view(events@)),
{
    let ghost ev = payloads_view(events@);
    let mut steps: Vec<Step> = Vec::new();
    let mut observation = if logged_input(events) { String::new() } else { lit(prompt) };
    let n = events.len();
    let mut i: usize = 0;
    assert(ev.skip(0) =~= ev);
    assert(steps_view(steps@) =~= Seq::<StepView>::empty());
    while i < n
        invariant
            n == events@.len(),
            ev == payloads_view(events@),
            i <= n,
            steps_spec(prompt@, ev) == fold_steps(ev.skip(i as int), steps_view(steps@), observation@),
        decreases n - i,
    {
        assert(ev.skip(i as int)[0] == events@[i as int]@);
        assert(ev.skip(i as int).drop_first() =~= ev.skip(i + 1));
        match &events[i] {
            EventPayload::UserMessage { content, .. } => push_line(&mut observation, content.as_str()),
            EventPayload::ToolResult { content, .. } => push_line(&mut observation, content.as_str()),
            EventPayload::Compaction { summary, .. } => push_line(&mut observation, summary.as_str()),
            EventPayload::AssistantMessage { content, tool_calls, .. } => {
                let obs = observation;
                observation = String::new();
                let step = Step {
                    index: steps.len(),
                    observation: obs,
                    action: Action { text: content.clone(), tool_calls: action_calls(tool_calls) },
                };
                let ghost before = steps@;
                steps.push(step);
                assert(steps_view(steps@) =~= steps_view(before).push(step@));
            },
            _ => {},
        }
        i += 1;
    }
    steps
}

/// One task's record: a single terminal reward, and the run as steps.
pub fn record(task: &str, prompt: &str, passed: bool, status: &str, llm_calls: u64, events: &[EventPayload]) -> (r: Record)
    ensures
        r.task@ == task@,
        r.prompt@ == prompt@,
        r.reward == (if passed { 1u8 } else { 0u8 }),
        r.reward_kind@ == FAIL_TO_PASS@,
        r.status@ == status@,
        r.llm_calls == llm_calls,
        steps_view(r.steps@) == steps_spec(prompt@, payloads_view(events@)),
{
    Record {
        task: lit(task),
        prompt: lit(prompt),
        reward: if passed { 1 } else { 0 },
        reward_kind: lit(FAIL_TO_PASS),
        status: lit(status),
        llm_calls,
        steps: steps_of(prompt, events),
    }
}

proof fn lemma_fold_shape(ev: Seq<PayloadView>, steps: Seq<StepView>, obs: Seq<char>)
    requires
        forall|k: int| 0 <= k < steps.len() ==> #[trigger] steps[k].index == k,
    ensures
        fold_steps(ev, steps, obs).len() == steps.len() + assistant_count(ev),
        forall|k: int| 0 <= k < fold_steps(ev, steps, obs).len() ==> #[trigger] fold_steps(ev, steps, obs)[k].index == k,
        fold_steps(ev, steps, obs).take(steps.len() as int) == steps,
    decreases ev.len(),
{
    if ev.len() == 0 {
        assert(steps.take(steps.len() as int) =~= steps);
    } else {
        let rest = ev.drop_first();
        match ev[0] {
            PayloadView::UserMessage { content, .. } => lemma_fold_shape(rest, steps, push_line_spec(obs, content)),
            PayloadView::ToolResult { content, .. } => lemma_fold_shape(rest, steps, push_line_spec(obs, content)),
            PayloadView::Compaction { summary, .. } => lemma_fold_shape(rest, steps, push_line_spec(obs, summary)),
            PayloadView::AssistantMessage { content, tool_calls, .. } => {
                let s2 = steps.push(StepView {
                    index: steps.len() as int,
                    observation: obs,
                    text: content,
                    calls: tool_calls.map_values(|c: crate::api::ToolCallView| (c.name, c.arguments)),
                });
                lemma_fold_shape(rest, s2, seq![]);
                let f = fold_steps(rest, s2, seq![]);
                assert(f.take(steps.len() as int) =~= f.take(s2.len() as int).take(steps.len() as int));
                assert(s2.take(steps.len() as int) =~= steps);
            },
            _ => lemma_fold_shape(rest, steps, obs),
        }
    }
}

/// One step per assistant message, numbered from zero in order: a run the
/// agent never answered yields no steps at all, not a phantom empty one.
pub proof fn one_step_per_answer(prompt: Seq<char>, ev: Seq<PayloadView>)
    ensures
        steps_spec(prompt, ev).len() == assistant_count(ev),
        forall|k: int| 0 <= k < steps_spec(prompt, ev).len() ==> #[trigger] steps_spec(prompt, ev)[k].index == k,
{
    lemma_fold_shape(ev, seq![], if logs_input(ev) { seq![] } else { prompt });
}

} // verus!

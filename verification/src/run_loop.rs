//! The agent loop as a state machine.
//!
//! A run alternates outside work (compaction, the planning pass, the model
//! call, the journal write, the tool calls) with decisions. The outside work
//! awaits and runs outside the library; each time one piece of it is done,
//! its outcome comes back here as a [`LoopEvent`], and [`loop_step`] decides
//! what happens next and says so as a [`LoopAction`]. The working set of
//! messages and the run's event log live in the [`LoopState`], and every
//! message a step puts into the working set goes into the log with it.

use vstd::prelude::*;

use crate::api::{Message, MessageView, ToolCall, ToolCallView, calls_view, copy_tool_calls, messages_view};
use crate::engine::{
    Journaling, LoopStatus, PLAN_BRIDGE_TEXT, append_plan_with_bridge, budget_stop_text, failure_spec, finish_run,
    log_push, payloads_view, result_is_failure, status_spec,
};
use crate::reminders::{REMINDER, ReminderInjector, ReminderState, observe_spec};
use crate::session::{EventPayload, PayloadView, event_for_spec};
use crate::text::{decimal_spec, lit, push_str, trim_spec};

verus! {

/// Where a run stands: which event it waits for.
#[derive(Debug, Clone, Copy, PartialEq, Eq, Structural)]
pub enum Phase {
    /// At the top of an iteration, waiting for the interrupt flag.
    Top,
    /// Waiting for compaction and the planning pass to be done.
    Preparing,
    /// Waiting for the model's reply.
    AwaitReply,
    /// Waiting for the intent to call tools to be journaled.
    AwaitJournal,
    /// Waiting for the tool results.
    AwaitResults,
    /// The run is over.
    Done,
}

/// What one tool call gave back.
pub struct ToolOutcome {
    pub call_id: String,
    pub content: String,
    /// Whether the dispatcher classified the call as failed.
    pub failed: bool,
}

pub struct OutcomeView {
    pub call_id: Seq<char>,
    pub content: Seq<char>,
    pub failed: bool,
}

impl View for ToolOutcome {
    type V = OutcomeView;

    open spec fn view(&self) -> OutcomeView {
        OutcomeView { call_id: self.call_id@, content: self.content@, failed: self.failed }
    }
}

pub open spec fn outcomes_view(v: Seq<ToolOutcome>) -> Seq<OutcomeView> {
    v.map_values(|o: ToolOutcome| o@)
}

/// What the outside work reports back.
pub enum LoopEvent {
    /// The top of an iteration: whether the user interrupted.
    Tick { interrupted: bool },
    /// Compaction and planning are done: the plan, when the planning pass
    /// ran and produced one, and the model calls the run has spent so far.
    Prepared { plan: Option<String>, spent: u64 },
    /// The model replied. `read_only[i]` says whether call `i` only reads;
    /// a call with no entry counts as one that writes.
    Reply { content: String, reasoning: String, calls: Vec<ToolCall>, read_only: Vec<bool> },
    /// The journal write before the tools run: `Some` holds the error.
    Journaled { failure: Option<String> },
    /// The tool results in call order, and the messages that tools asked to
    /// append after them (a skill's activation note).
    Results { outcomes: Vec<ToolOutcome>, deferred: Vec<Message> },
}

pub enum EventView {
    Tick { interrupted: bool },
    Prepared { plan: Option<Seq<char>>, spent: u64 },
    Reply { content: Seq<char>, reasoning: Seq<char>, calls: Seq<ToolCallView>, read_only: Seq<bool> },
    Journaled { failure: Option<Seq<char>> },
    Results { outcomes: Seq<OutcomeView>, deferred: Seq<MessageView> },
}

impl View for LoopEvent {
    type V = EventView;

    open spec fn view(&self) -> EventView {
        match self {
            LoopEvent::Tick { interrupted } => EventView::Tick { interrupted: *interrupted },
            LoopEvent::Prepared { plan, spent } => EventView::Prepared {
                plan: crate::api::opt_text(*plan),
                spent: *spent,
            },
            LoopEvent::Reply { content, reasoning, calls, read_only } => EventView::Reply {
                content: content@,
                reasoning: reasoning@,
                calls: calls_view(calls@),
                read_only: read_only@,
            },
            LoopEvent::Journaled { failure } => EventView::Journaled { failure: crate::api::opt_text(*failure) },
            LoopEvent::Results { outcomes, deferred } => EventView::Results {
                outcomes: outcomes_view(outcomes@),
                deferred: messages_view(deferred@),
            },
        }
    }
}

/// What the outside work is to do next.
pub enum LoopAction {
    /// Compact the working set (when `compact`) and run the tools-free
    /// planning pass (when `plan`), then report `Prepared`.
    Prepare { compact: bool, plan: bool },
    /// Ask the model for the next turn, with the tools; report `Reply`.
    Request,
    /// Write the run's events to the session journal; report `Journaled`.
    Journal,
    /// Run these calls, all at once when `concurrent`, else one after
    /// another; report `Results`.
    Dispatch { concurrent: bool, calls: Vec<ToolCall> },
    /// The run stops with an error: tools that write would run while the
    /// journal cannot record why. Nothing was executed.
    Refuse(String),
    /// A doom-loop reminder was appended; go on with the next `Tick`.
    Remind(String),
    /// Go on with the next `Tick`.
    Continue,
    /// The run is over, with this text and status.
    Finish { status: LoopStatus, text: String },
    /// The event does not belong in this phase; nothing changed.
    Ignored,
}

pub enum ActionView {
    Prepare { compact: bool, plan: bool },
    Request,
    Journal,
    Dispatch { concurrent: bool, calls: Seq<ToolCallView> },
    Refuse(Seq<char>),
    Remind(Seq<char>),
    Continue,
    Finish { status: LoopStatus, text: Seq<char> },
    Ignored,
}

impl View for LoopAction {
    type V = ActionView;

    open spec fn view(&self) -> ActionView {
        match self {
            LoopAction::Prepare { compact, plan } => ActionView::Prepare { compact: *compact, plan: *plan },
            LoopAction::Request => ActionView::Request,
            LoopAction::Journal => ActionView::Journal,
            LoopAction::Dispatch { concurrent, calls } => ActionView::Dispatch {
                concurrent: *concurrent,
                calls: calls_view(calls@),
            },
            LoopAction::Refuse(t) => ActionView::Refuse(t@),
            LoopAction::Remind(t) => ActionView::Remind(t@),
            LoopAction::Continue => ActionView::Continue,
            LoopAction::Finish { status, text } => ActionView::Finish { status: *status, text: text@ },
            LoopAction::Ignored => ActionView::Ignored,
        }
    }
}

/// One run of the loop.
pub struct LoopState {
    pub depth: usize,
    pub max_iter: usize,
    /// The run's ceiling on model calls, sub-agents included.
    pub max_calls: u64,
    pub journaling: Journaling,
    /// Whether thinking is on: it opens a task with a planning pass.
    pub thinking: bool,
    /// Iterations begun so far.
    pub iterations: usize,
    /// Whether the next iteration plans first (a tool failed this turn).
    pub plan_next: bool,
    pub phase: Phase,
    /// The working set the model sees.
    pub messages: Vec<Message>,
    /// The run's record, in order.
    pub events: Vec<EventPayload>,
    /// The calls of the current turn, with whether each only reads.
    pub calls: Vec<ToolCall>,
    pub read_only: Vec<bool>,
    pub reminders: ReminderInjector,
    pub final_content: String,
    pub completed: bool,
    pub interrupted: bool,
    pub budget_exhausted: bool,
}

pub struct LoopView {
    pub depth: usize,
    pub max_iter: usize,
    pub max_calls: u64,
    pub journaling: Journaling,
    pub thinking: bool,
    pub iterations: usize,
    pub plan_next: bool,
    pub phase: Phase,
    pub messages: Seq<MessageView>,
    pub events: Seq<PayloadView>,
    pub calls: Seq<ToolCallView>,
    pub read_only: Seq<bool>,
    pub reminders: ReminderState,
    pub final_content: Seq<char>,
    pub completed: bool,
    pub interrupted: bool,
    pub budget_exhausted: bool,
}

impl View for LoopState {
    type V = LoopView;

    open spec fn view(&self) -> LoopView {
        LoopView {
            depth: self.depth,
            max_iter: self.max_iter,
            max_calls: self.max_calls,
            journaling: self.journaling,
            thinking: self.thinking,
            iterations: self.iterations,
            plan_next: self.plan_next,
            phase: self.phase,
            messages: messages_view(self.messages@),
            events: payloads_view(self.events@),
            calls: calls_view(self.calls@),
            read_only: self.read_only@,
            reminders: self.reminders@,
            final_content: self.final_content@,
            completed: self.completed,
            interrupted: self.interrupted,
            budget_exhausted: self.budget_exhausted,
        }
    }
}

// ------------------------------------------------------------------ the spec

/// The events that the messages `ms` leave in the log, in order: one for
/// each message the log keeps.
pub open spec fn logged(ms: Seq<MessageView>) -> Seq<PayloadView>
    decreases ms.len(),
{
    if ms.len() == 0 {
        Seq::empty()
    } else {
        match event_for_spec(ms.last()) {
            Some(p) => logged(ms.drop_last()).push(p),
            None => logged(ms.drop_last()),
        }
    }
}

/// `ms` appended to the working set, and their events to the log.
pub open spec fn log_all(s: LoopView, ms: Seq<MessageView>) -> LoopView {
    LoopView { messages: s.messages + ms, events: s.events + logged(ms), ..s }
}

/// Whether call `i` of the current turn only reads.
pub open spec fn call_reads(s: LoopView, i: int) -> bool {
    i < s.read_only.len() && s.read_only[i]
}

/// Whether every call of the current turn only reads.
pub open spec fn all_read(s: LoopView) -> bool {
    forall|i: int| 0 <= i < s.calls.len() ==> call_reads(s, i)
}

/// The text a run ends with: what it answered, or, when it never completed
/// and has nothing to say, where it stopped.
pub open spec fn final_text(s: LoopView) -> Seq<char> {
    if !s.completed && s.final_content.len() == 0 {
        "[Stopped at max iterations ("@ + decimal_spec(s.max_iter as nat) + ")]"@
    } else {
        s.final_content
    }
}

/// End the run.
pub open spec fn finish(s: LoopView) -> (LoopView, ActionView) {
    (
        LoopView { phase: Phase::Done, ..s },
        ActionView::Finish { status: status_spec(s.interrupted, s.budget_exhausted, s.completed), text: final_text(s) },
    )
}

/// Hand the current turn's calls out: concurrently when there are several
/// and every one only reads, else one after another.
pub open spec fn dispatch(s: LoopView) -> (LoopView, ActionView) {
    (
        LoopView { phase: Phase::AwaitResults, ..s },
        ActionView::Dispatch { concurrent: s.calls.len() > 1 && all_read(s), calls: s.calls },
    )
}

/// The assistant message a reply becomes.
pub open spec fn reply_message(content: Seq<char>, reasoning: Seq<char>, calls: Seq<ToolCallView>) -> MessageView {
    MessageView::Simple {
        role: "assistant"@,
        content,
        reasoning_content: if reasoning.len() == 0 { None } else { Some(reasoning) },
        tool_calls: if calls.len() == 0 { None } else { Some(calls) },
        images: Seq::empty(),
    }
}

/// The plan and its bridge, as the planning pass leaves them in the working
/// set: nothing for a blank plan.
pub open spec fn plan_messages(plan: Option<Seq<char>>) -> Seq<MessageView> {
    match plan {
        Some(p) => if trim_spec(p).len() > 0 {
            seq![
                MessageView::Simple {
                    role: "assistant"@,
                    content: p,
                    reasoning_content: None,
                    tool_calls: None,
                    images: Seq::empty(),
                },
                MessageView::Simple {
                    role: "user"@,
                    content: PLAN_BRIDGE_TEXT@,
                    reasoning_content: None,
                    tool_calls: None,
                    images: Seq::empty(),
                },
            ]
        } else {
            Seq::empty()
        },
        None => Seq::empty(),
    }
}

/// The tool messages for a turn's results, in order.
pub open spec fn result_messages(os: Seq<OutcomeView>) -> Seq<MessageView> {
    os.map_values(|o: OutcomeView| MessageView::ToolResponse {
        role: "tool"@,
        content: o.content,
        tool_call_id: o.call_id,
        images: Seq::empty(),
    })
}

/// Whether any result failed: classified so by the dispatcher, or carrying
/// a failure marker in its text.
pub open spec fn any_failed(os: Seq<OutcomeView>) -> bool {
    exists|i: int| 0 <= i < os.len() && #[trigger] outcome_failed(os[i])
}

/// Whether one result failed.
pub open spec fn outcome_failed(o: OutcomeView) -> bool {
    o.failed || failure_spec(o.content)
}

/// The user message a doom-loop reminder becomes.
pub open spec fn reminder_message() -> MessageView {
    MessageView::Simple {
        role: "user"@,
        content: REMINDER@,
        reasoning_content: None,
        tool_calls: None,
        images: Seq::empty(),
    }
}

/// The refusal when the journal failed and a call would write.
pub open spec fn refusal_text(err: Seq<char>) -> Seq<char> {
    "refusing to run tools with side effects: the session journal could not be written ("@ + err
        + "). Nothing was executed. Fix the problem with ~/.seekcli/sessions and retry."@
}

/// One step of the loop: the next state and what to do.
///
/// - `Tick`: a run that has begun all its iterations ends; an interrupt ends
///   it, logged; otherwise the iteration begins, compacting at the top level
///   and planning when [`crate::engine::plan_before_turn`] says so.
/// - `Prepared`: a plan is logged with its bridge; a spent
///   budget ends the run; otherwise the model is asked.
/// - `Reply`: the reply is logged; a reply without calls ends the run with
///   its text; otherwise the intent is journaled first when the run
///   journals, and the calls are handed out.
/// - `Journaled`: a failed write refuses a turn in which any call writes;
///   otherwise the calls are handed out.
/// - `Results`: the results and deferred messages are logged; at the top
///   level the trajectory is observed and a reminder logged when it fires;
///   the next iteration plans when a call failed at the top level.
pub open spec fn loop_step_spec(s: LoopView, e: EventView) -> (LoopView, ActionView) {
    match (s.phase, e) {
        (Phase::Top, EventView::Tick { interrupted }) => {
            if s.iterations >= s.max_iter {
                finish(s)
            } else if interrupted {
                finish(LoopView {
                    iterations: (s.iterations + 1) as usize,
                    final_content: "[Interrupted by user]"@,
                    completed: true,
                    interrupted: true,
                    events: s.events.push(PayloadView::Interrupted),
                    ..s
                })
            } else {
                (
                    LoopView { iterations: (s.iterations + 1) as usize, phase: Phase::Preparing, ..s },
                    ActionView::Prepare {
                        compact: s.depth == 0,
                        plan: s.depth == 0 && ((s.iterations == 0 && s.thinking) || s.plan_next),
                    },
                )
            }
        },
        (Phase::Preparing, EventView::Prepared { plan, spent }) => {
            let s1 = log_all(s, plan_messages(plan));
            if spent >= s.max_calls {
                finish(LoopView {
                    budget_exhausted: true,
                    completed: true,
                    final_content: "[Stopped: run budget of "@ + decimal_spec(s.max_calls as nat) + " model calls spent]"@,
                    ..s1
                })
            } else {
                (LoopView { phase: Phase::AwaitReply, ..s1 }, ActionView::Request)
            }
        },
        (Phase::AwaitReply, EventView::Reply { content, reasoning, calls, read_only }) => {
            let s1 = log_all(s, seq![reply_message(content, reasoning, calls)]);
            if calls.len() == 0 {
                finish(LoopView { final_content: content, completed: true, ..s1 })
            } else {
                let s2 = LoopView { calls, read_only, ..s1 };
                if s.journaling == Journaling::Session {
                    (LoopView { phase: Phase::AwaitJournal, ..s2 }, ActionView::Journal)
                } else {
                    dispatch(s2)
                }
            }
        },
        (Phase::AwaitJournal, EventView::Journaled { failure }) => {
            match failure {
                Some(err) => if !all_read(s) {
                    (LoopView { phase: Phase::Done, ..s }, ActionView::Refuse(refusal_text(err)))
                } else {
                    dispatch(s)
                },
                None => dispatch(s),
            }
        },
        (Phase::AwaitResults, EventView::Results { outcomes, deferred }) => {
            let s1 = log_all(s, result_messages(outcomes) + deferred);
            let failed = any_failed(outcomes);
            let (rs, fire) = if s.depth == 0 { observe_spec(s.reminders, s.calls) } else { (s.reminders, false) };
            let s2 = if fire { log_all(s1, seq![reminder_message()]) } else { s1 };
            (
                LoopView {
                    reminders: rs,
                    plan_next: s.depth == 0 && failed,
                    calls: Seq::empty(),
                    read_only: Seq::empty(),
                    phase: Phase::Top,
                    ..s2
                },
                if fire { ActionView::Remind(REMINDER@) } else { ActionView::Continue },
            )
        },
        _ => (s, ActionView::Ignored),
    }
}

// ------------------------------------------------------------------ proofs

proof fn lemma_logged_concat(a: Seq<MessageView>, b: Seq<MessageView>)
    ensures
        logged(a + b) == logged(a) + logged(b),
    decreases b.len(),
{
    if b.len() == 0 {
        assert(a + b =~= a);
        assert(logged(a) + logged(b) =~= logged(a));
    } else {
        lemma_logged_concat(a, b.drop_last());
        assert((a + b).drop_last() =~= a + b.drop_last());
        assert((a + b).last() == b.last());
        match event_for_spec(b.last()) {
            Some(p) => assert(logged(a) + logged(b) =~= (logged(a) + logged(b.drop_last())).push(p)),
            None => {},
        }
    }
}

proof fn lemma_log_all_twice(s: LoopView, a: Seq<MessageView>, b: Seq<MessageView>)
    ensures
        log_all(log_all(s, a), b) == log_all(s, a + b),
{
    lemma_logged_concat(a, b);
    assert(s.messages + a + b =~= s.messages + (a + b));
    assert(s.events + logged(a) + logged(b) =~= s.events + logged(a + b));
}


/// Whether `s2` extends `s` only by appending messages, each logged: the
/// working set gains a suffix, and the log gains those messages' events
/// first (an interrupt's marker may follow them).
pub open spec fn appends_logged(s: LoopView, s2: LoopView) -> bool {
    let added = s2.messages.skip(s.messages.len() as int);
    &&& s.messages.len() <= s2.messages.len()
    &&& s2.messages == s.messages + added
    &&& s.events.len() + logged(added).len() <= s2.events.len()
    &&& s2.events.take((s.events.len() + logged(added).len()) as int) == s.events + logged(added)
}

proof fn lemma_log_all_appends(s: LoopView, s2: LoopView, x: Seq<MessageView>)
    requires
        s2.messages == s.messages + x,
        s2.events == s.events + logged(x) || s2.events == (s.events + logged(x)).push(PayloadView::Interrupted),
    ensures
        appends_logged(s, s2),
{
    assert(s2.messages.skip(s.messages.len() as int) =~= x);
    let n = (s.events.len() + logged(x).len()) as int;
    assert(s2.events.take(n) =~= s.events + logged(x));
}

/// Everything the model sees is in the log: every message a step puts into
/// the working set (replies, tool results, deferred notes, reminders, and a
/// plan with its bridge) is appended to the run's event log with it, in
/// order, so the conversation can be rebuilt from the log alone.
pub proof fn what_the_model_sees_is_logged(s: LoopView, e: EventView)
    ensures
        appends_logged(s, loop_step_spec(s, e).0),
{
    let s2 = loop_step_spec(s, e).0;
    assert(logged(Seq::<MessageView>::empty()) == Seq::<PayloadView>::empty());
    assert(s.messages + Seq::<MessageView>::empty() =~= s.messages);
    assert(s.events + Seq::<PayloadView>::empty() =~= s.events);
    match (s.phase, e) {
        (Phase::Top, EventView::Tick { interrupted }) => {
            lemma_log_all_appends(s, s2, Seq::empty());
        },
        (Phase::Preparing, EventView::Prepared { plan, spent }) => {
            lemma_log_all_appends(s, s2, plan_messages(plan));
        },
        (Phase::AwaitReply, EventView::Reply { content, reasoning, calls, read_only }) => {
            lemma_log_all_appends(s, s2, seq![reply_message(content, reasoning, calls)]);
        },
        (Phase::AwaitJournal, EventView::Journaled { failure }) => {
            lemma_log_all_appends(s, s2, Seq::empty());
        },
        (Phase::AwaitResults, EventView::Results { outcomes, deferred }) => {
            let x = result_messages(outcomes) + deferred;
            let fire = if s.depth == 0 { observe_spec(s.reminders, s.calls).1 } else { false };
            if fire {
                lemma_log_all_twice(s, x, seq![reminder_message()]);
                lemma_log_all_appends(s, s2, x + seq![reminder_message()]);
            } else {
                lemma_log_all_appends(s, s2, x);
            }
        },
        _ => {
            lemma_log_all_appends(s, s2, Seq::empty());
        },
    }
}

// ------------------------------------------------------------------ the code

impl LoopState {
    /// A run about to begin on `messages`.
    pub fn new(
        messages: Vec<Message>,
        depth: usize,
        max_iter: usize,
        max_calls: u64,
        journaling: Journaling,
        thinking: bool,
    ) -> (r: LoopState)
        ensures
            r@ == (LoopView {
                depth,
                max_iter,
                max_calls,
                journaling,
                thinking,
                iterations: 0,
                plan_next: false,
                phase: Phase::Top,
                messages: messages_view(messages@),
                events: Seq::empty(),
                calls: Seq::empty(),
                read_only: Seq::empty(),
                reminders: ReminderState { last: None, repeats: 0 },
                final_content: Seq::empty(),
                completed: false,
                interrupted: false,
                budget_exhausted: false,
            }),
    {
        let r = LoopState {
            depth,
            max_iter,
            max_calls,
            journaling,
            thinking,
            iterations: 0,
            plan_next: false,
            phase: Phase::Top,
            messages,
            events: Vec::new(),
            calls: Vec::new(),
            read_only: Vec::new(),
            reminders: ReminderInjector::new(),
            final_content: String::new(),
            completed: false,
            interrupted: false,
            budget_exhausted: false,
        };
        assert(payloads_view(r.events@) =~= Seq::empty());
        assert(calls_view(r.calls@) =~= Seq::empty());
        r
    }

    fn log_many(&mut self, ms: Vec<Message>)
        ensures
            final(self)@ == log_all(old(self)@, messages_view(ms@)),
    {
        let ghost s0 = self@;
        let ghost mv = messages_view(ms@);
        let mut rest = ms;
        let mut i: usize = 0;
        let n = rest.len();
        assert(mv.take(0) =~= Seq::<MessageView>::empty());
        assert(s0.messages + Seq::<MessageView>::empty() =~= s0.messages);
        assert(s0.events + logged(Seq::<MessageView>::empty()) =~= s0.events);
        assert(messages_view(rest@) =~= mv.skip(0));
        while rest.len() > 0
            invariant
                i + rest@.len() == n,
                n == mv.len(),
                messages_view(rest@) == mv.skip(i as int),
                self@ == log_all(s0, mv.take(i as int)),
            decreases rest@.len(),
        {
            let ghost old_rest = rest@;
            let m = rest.remove(0);
            assert(m == old_rest[0]);
            assert(messages_view(old_rest)[0] == mv.skip(i as int)[0]);
            assert(m@ == mv[i as int]);
            assert(rest@ =~= old_rest.subrange(1, old_rest.len() as int));
            assert forall|k: int| 0 <= k < rest@.len() implies #[trigger] messages_view(rest@)[k] == mv.skip(i + 1)[k] by {
                assert(rest@[k] == old_rest[k + 1]);
                assert(messages_view(old_rest)[k + 1] == mv.skip(i as int)[k + 1]);
            }
            assert(messages_view(rest@) =~= mv.skip(i + 1));
            let ghost before = self@;
            let ghost mm = m@;
            log_push(&mut self.messages, &mut self.events, m);
            proof {
                assert(seq![mm].drop_last() =~= Seq::<MessageView>::empty());
                assert(seq![mm].last() == mm);
                assert(logged(Seq::<MessageView>::empty()) == Seq::<PayloadView>::empty());
                match event_for_spec(mm) {
                    Some(p) => {
                        assert(logged(seq![mm]) == seq![p]);
                        assert(self@.events =~= before.events + logged(seq![mm]));
                    },
                    None => {
                        assert(logged(seq![mm]) == Seq::<PayloadView>::empty());
                        assert(self@.events =~= before.events + logged(seq![mm]));
                    },
                }
                assert(self@.messages =~= before.messages + seq![mm]);
                assert(self@ == log_all(before, seq![mm]));
                lemma_log_all_twice(s0, mv.take(i as int), seq![mm]);
                assert(mv.take(i as int) + seq![mm] =~= mv.take(i + 1));
            }
            i += 1;
        }
        assert(mv.take(i as int) =~= mv);
    }

    fn all_calls_read(&self) -> (b: bool)
        ensures
            b == all_read(self@),
    {
        let mut i: usize = 0;
        while i < self.calls.len()
            invariant
                i <= self.calls@.len(),
                forall|j: int| 0 <= j < i ==> call_reads(self@, j),
            decreases self.calls.len() - i,
        {
            if !(i < self.read_only.len() && self.read_only[i]) {
                assert(!call_reads(self@, i as int));
                return false;
            }
            i += 1;
        }
        true
    }

    fn end(&mut self) -> (a: LoopAction)
        ensures
            (final(self)@, a@) == finish(old(self)@),
    {
        let content = lit(self.final_content.as_str());
        let (text, status) = finish_run(self.completed, self.interrupted, self.budget_exhausted, content, self.max_iter);
        self.phase = Phase::Done;
        LoopAction::Finish { status, text }
    }

    fn hand_out(&mut self) -> (a: LoopAction)
        ensures
            (final(self)@, a@) == dispatch(old(self)@),
    {
        let concurrent = self.calls.len() > 1 && self.all_calls_read();
        self.phase = Phase::AwaitResults;
        LoopAction::Dispatch { concurrent, calls: copy_tool_calls(&self.calls) }
    }
}

impl LoopState {
    fn on_tick(&mut self, interrupted: bool) -> (a: LoopAction)
        requires
            old(self).phase == Phase::Top,
        ensures
            (final(self)@, a@) == loop_step_spec(old(self)@, EventView::Tick { interrupted }),
    {
        let ghost s0 = self@;
        if self.iterations >= self.max_iter {
            self.end()
        } else if interrupted {
            self.iterations = self.iterations + 1;
            self.final_content = lit("[Interrupted by user]");
            self.completed = true;
            self.interrupted = true;
            self.events.push(EventPayload::Interrupted);
            assert(payloads_view(self.events@) =~= s0.events.push(PayloadView::Interrupted));
            self.end()
        } else {
            let plan = self.depth == 0 && ((self.iterations == 0 && self.thinking) || self.plan_next);
            self.iterations = self.iterations + 1;
            self.phase = Phase::Preparing;
            LoopAction::Prepare { compact: self.depth == 0, plan }
        }
    }

    fn on_prepared(&mut self, plan: Option<String>, spent: u64) -> (a: LoopAction)
        requires
            old(self).phase == Phase::Preparing,
        ensures
            (final(self)@, a@) == loop_step_spec(
                old(self)@,
                EventView::Prepared { plan: crate::api::opt_text(plan), spent },
            ),
    {
        let ghost s0 = self@;
        let ghost pv = crate::api::opt_text(plan);
        match plan {
            Some(p) => {
                let ms = plan_and_bridge(p);
                self.log_many(ms);
            },
            None => {
                assert(plan_messages(pv) =~= Seq::<MessageView>::empty());
                assert(logged(Seq::<MessageView>::empty()) == Seq::<PayloadView>::empty());
                assert(s0.messages + plan_messages(pv) =~= s0.messages);
                assert(s0.events + logged(plan_messages(pv)) =~= s0.events);
            },
        }
        if spent >= self.max_calls {
            self.budget_exhausted = true;
            self.completed = true;
            self.final_content = budget_stop_text(self.max_calls);
            self.end()
        } else {
            self.phase = Phase::AwaitReply;
            LoopAction::Request
        }
    }

    fn on_reply(&mut self, content: String, reasoning: String, calls: Vec<ToolCall>, read_only: Vec<bool>) -> (a: LoopAction)
        requires
            old(self).phase == Phase::AwaitReply,
        ensures
            (final(self)@, a@) == loop_step_spec(
                old(self)@,
                EventView::Reply { content: content@, reasoning: reasoning@, calls: calls_view(calls@), read_only: read_only@ },
            ),
    {
        let ghost s0 = self@;
        let ghost rm = reply_message(content@, reasoning@, calls_view(calls@));
        let no_calls = calls.len() == 0;
        let msg = Message::Simple {
            role: lit("assistant"),
            content: lit(content.as_str()),
            reasoning_content: if reasoning.as_str().is_empty() { None } else { Some(reasoning) },
            tool_calls: if no_calls { None } else { Some(copy_tool_calls(&calls)) },
            images: Vec::new(),
        };
        assert(crate::api::images_view(Seq::<crate::api::ImagePart>::empty()) =~= Seq::empty());
        assert(msg@ == rm);
        let mut one: Vec<Message> = Vec::new();
        one.push(msg);
        assert(messages_view(one@) =~= seq![rm]);
        self.log_many(one);
        if no_calls {
            self.final_content = content;
            self.completed = true;
            self.end()
        } else {
            self.calls = calls;
            self.read_only = read_only;
            if self.journaling == Journaling::Session {
                self.phase = Phase::AwaitJournal;
                LoopAction::Journal
            } else {
                self.hand_out()
            }
        }
    }

    fn on_journaled(&mut self, failure: Option<String>) -> (a: LoopAction)
        requires
            old(self).phase == Phase::AwaitJournal,
        ensures
            (final(self)@, a@) == loop_step_spec(old(self)@, EventView::Journaled { failure: crate::api::opt_text(failure) }),
    {
        match failure {
            Some(err) => {
                if !self.all_calls_read() {
                    let mut t = lit("refusing to run tools with side effects: the session journal could not be written (");
                    push_str(&mut t, err.as_str());
                    push_str(&mut t, "). Nothing was executed. Fix the problem with ~/.seekcli/sessions and retry.");
                    self.phase = Phase::Done;
                    LoopAction::Refuse(t)
                } else {
                    self.hand_out()
                }
            },
            None => self.hand_out(),
        }
    }

    fn on_results(&mut self, outcomes: Vec<ToolOutcome>, deferred: Vec<Message>) -> (a: LoopAction)
        requires
            old(self).phase == Phase::AwaitResults,
        ensures
            (final(self)@, a@) == loop_step_spec(
                old(self)@,
                EventView::Results { outcomes: outcomes_view(outcomes@), deferred: messages_view(deferred@) },
            ),
    {
        let ghost s0 = self@;
        let ghost ov = outcomes_view(outcomes@);
        let mut tool_msgs: Vec<Message> = Vec::new();
        let mut failed = false;
        let mut i: usize = 0;
        while i < outcomes.len()
            invariant
                i <= outcomes@.len(),
                ov == outcomes_view(outcomes@),
                messages_view(tool_msgs@) == result_messages(ov.take(i as int)),
                tool_msgs@.len() == i,
                failed == any_failed(ov.take(i as int)),
            decreases outcomes.len() - i,
        {
            let o = &outcomes[i];
            assert(o@ == ov[i as int]);
            let f = o.failed || result_is_failure(o.content.as_str());
            proof {
                let t = ov.take(i + 1);
                assert(t.take(i as int) =~= ov.take(i as int));
                assert(t[i as int] == ov[i as int]);
                if f {
                    assert(outcome_failed(t[i as int]));
                }
                if failed {
                    let j = choose|j: int| 0 <= j < ov.take(i as int).len() && #[trigger] outcome_failed(ov.take(i as int)[j]);
                    assert(outcome_failed(t[j]));
                }
                if any_failed(t) {
                    let j = choose|j: int| 0 <= j < t.len() && #[trigger] outcome_failed(t[j]);
                    if j < i {
                        assert(outcome_failed(ov.take(i as int)[j]));
                    }
                }
            }
            failed = failed || f;
            let m = Message::new_tool_response(lit(o.call_id.as_str()), lit(o.content.as_str()), Vec::new());
            assert(crate::api::images_view(Seq::<crate::api::ImagePart>::empty()) =~= Seq::empty());
            let ghost prev = tool_msgs@;
            let ghost mm = m@;
            tool_msgs.push(m);
            proof {
                let rm = result_messages(ov.take(i + 1));
                assert forall|k: int| 0 <= k < i + 1 implies #[trigger] messages_view(tool_msgs@)[k] == rm[k] by {
                    if k < i {
                        assert(tool_msgs@[k] == prev[k]);
                        assert(messages_view(prev)[k] == result_messages(ov.take(i as int))[k]);
                        assert(ov.take(i as int)[k] == ov.take(i + 1)[k]);
                    } else {
                        assert(tool_msgs@[k]@ == mm);
                        assert(ov.take(i + 1)[k] == ov[i as int]);
                    }
                }
                assert(messages_view(tool_msgs@) =~= rm);
            }
            i += 1;
        }
        assert(ov.take(i as int) =~= ov);
        let ghost dv = messages_view(deferred@);
        self.log_many(tool_msgs);
        self.log_many(deferred);
        proof {
            lemma_log_all_twice(s0, result_messages(ov), dv);
        }
        let mut fire = false;
        if self.depth == 0 {
            match self.reminders.observe(self.calls.as_slice()) {
                Some(_) => {
                    fire = true;
                },
                None => {},
            }
        }
        if fire {
            let mut one: Vec<Message> = Vec::new();
            one.push(Message::new_user_text(lit(REMINDER)));
            assert(messages_view(one@) =~= seq![reminder_message()]);
            self.log_many(one);
        }
        self.plan_next = self.depth == 0 && failed;
        self.calls = Vec::new();
        self.read_only = Vec::new();
        self.phase = Phase::Top;
        assert(calls_view(self.calls@) =~= Seq::<ToolCallView>::empty());
        assert(self.read_only@ =~= Seq::<bool>::empty());
        if fire {
            LoopAction::Remind(lit(REMINDER))
        } else {
            LoopAction::Continue
        }
    }
}


/// The plan and its bridge as messages, for a caller that logs them: what
/// the planning pass puts into the working set for `plan`.
pub fn plan_and_bridge(plan: String) -> (r: Vec<Message>)
    ensures
        messages_view(r@) == plan_messages(Some(plan@)),
{
    let ghost pv = plan@;
    let mut r: Vec<Message> = Vec::new();
    append_plan_with_bridge(&mut r, plan);
    assert(messages_view(r@) =~= plan_messages(Some(pv)));
    r
}

/// One step of the loop; see [`loop_step_spec`].
pub fn loop_step(state: &mut LoopState, event: LoopEvent) -> (a: LoopAction)
    ensures
        (final(state)@, a@) == loop_step_spec(old(state)@, event@),
{
    match (state.phase, event) {
        (Phase::Top, LoopEvent::Tick { interrupted }) => state.on_tick(interrupted),
        (Phase::Preparing, LoopEvent::Prepared { plan, spent }) => state.on_prepared(plan, spent),
        (Phase::AwaitReply, LoopEvent::Reply { content, reasoning, calls, read_only }) => {
            state.on_reply(content, reasoning, calls, read_only)
        },
        (Phase::AwaitJournal, LoopEvent::Journaled { failure }) => state.on_journaled(failure),
        (Phase::AwaitResults, LoopEvent::Results { outcomes, deferred }) => state.on_results(outcomes, deferred),
        (_, _) => LoopAction::Ignored,
    }
}

} // verus!

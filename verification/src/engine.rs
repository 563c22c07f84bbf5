//! The decisions of the agent loop: when a run stops and how its end is
//! reported, when the planning pass runs, how interrupts propagate through
//! sub-agents, what the per-run budget counts, and how the system prompts are
//! arranged ahead of the conversation.
//!
//! The loop itself awaits the model and the tools, and runs outside; at each
//! point where it decides something it asks this module.

use vstd::prelude::*;
use crate::api::{Message, MessageView, messages_view};
use crate::prompt::{agent_prompt_spec, agent_system_prompt, MAX_SUBAGENT_DEPTH};
use crate::skills::Skill;
use crate::record::{debug_list, debug_strings};
use crate::registry::{SubAgentTemplate, TemplateView, catalog, lookup, lookup_spec, templates_spec};
use crate::session::{EventPayload, PayloadView, UNTITLED, event_for, event_for_spec};
use crate::text::{
    chars_of, decimal, decimal_spec, find, join, join_spec, find_spec, lines, lines_spec, lit, push_char, push_str, str_contains,
    str_eq, str_starts_with, string_of, contains_spec, occurs_at, trim, trim_end_chars, trim_end_spec, trim_spec,
    trim_start_spec, char_width, char_len_utf8, utf8_len, chars_views, is_whitespace, is_ws,
};

verus! {

/// Whether a run writes its events to the session log as it goes.
#[derive(Debug, Clone, Copy, PartialEq, Eq, Structural)]
pub enum Journaling {
    /// Append to the current session at each ordering point.
    Session,
    /// Keep the events in the run's result and write nothing.
    Buffered,
}

/// How a loop run ended.
#[derive(Debug, Clone, Copy, PartialEq, Eq, Structural)]
pub enum LoopStatus {
    Completed,
    MaxIterations,
    Interrupted,
    /// The run hit its total model-call ceiling, sub-agents included.
    BudgetExhausted,
}

/// Whether this loop level should stop for a user interrupt. Every depth
/// observes the flag, but only the top level clears it: a sub-agent that
/// cleared it would stop itself and leave its parent running.
pub fn take_interrupt(flag: &mut bool, depth: usize) -> (stop: bool)
    ensures
        stop == *old(flag),
        *final(flag) == (if depth == 0 { false } else { *old(flag) }),
{
    let stop = *flag;
    if depth == 0 {
        *flag = false;
    }
    stop
}

/// Model calls this run has made: the session's counter measured from the
/// run's own baseline, never negative.
pub fn run_spent(api_calls: u64, baseline: u64) -> (spent: u64)
    ensures
        spent == (if api_calls >= baseline { api_calls - baseline } else { 0 }),
{
    api_calls.saturating_sub(baseline)
}

/// Whether the run has spent its whole budget of model calls.
pub fn budget_spent(api_calls: u64, baseline: u64, max_calls: u64) -> (stop: bool)
    ensures
        stop == ((if api_calls >= baseline { api_calls - baseline } else { 0 }) >= max_calls),
{
    run_spent(api_calls, baseline) >= max_calls
}

/// A sub-agent charges the same counter as its parent: calls made after the
/// run's baseline add one for one to what the run has spent, whoever made
/// them.
pub proof fn every_call_counts_against_the_run(baseline: nat, parent: nat, child: nat)
    ensures
        ((baseline + parent + child) - baseline) == ((baseline + parent) - baseline) + child,
{
}

/// What a run that spent its budget answers with.
pub fn budget_stop_text(max_calls: u64) -> (r: String)
    ensures
        r@ == "[Stopped: run budget of "@ + decimal_spec(max_calls as nat) + " model calls spent]"@,
{
    let mut r = lit("[Stopped: run budget of ");
    push_str(&mut r, decimal(max_calls).as_str());
    push_str(&mut r, " model calls spent]");
    r
}

/// The status a finished run reports. An interrupt outranks the budget, the
/// budget outranks completion, and a run that never completed ran out of
/// iterations.
pub open spec fn status_spec(interrupted: bool, budget_exhausted: bool, completed: bool) -> LoopStatus {
    if interrupted {
        LoopStatus::Interrupted
    } else if budget_exhausted {
        LoopStatus::BudgetExhausted
    } else if completed {
        LoopStatus::Completed
    } else {
        LoopStatus::MaxIterations
    }
}

/// The final text of a run and its status. A run that never completed and
/// produced no text says where it stopped.
pub fn finish_run(
    completed: bool,
    interrupted: bool,
    budget_exhausted: bool,
    final_content: String,
    max_iter: usize,
) -> (r: (String, LoopStatus))
    ensures
        r.1 == status_spec(interrupted, budget_exhausted, completed),
        r.0@ == (if !completed && final_content@.len() == 0 {
            "[Stopped at max iterations ("@ + decimal_spec(max_iter as nat) + ")]"@
        } else {
            final_content@
        }),
{
    let text = if !completed && final_content.as_str().is_empty() {
        let mut t = lit("[Stopped at max iterations (");
        push_str(&mut t, decimal(max_iter as u64).as_str());
        push_str(&mut t, ")]");
        t
    } else {
        final_content
    };
    let status = if interrupted {
        LoopStatus::Interrupted
    } else if budget_exhausted {
        LoopStatus::BudgetExhausted
    } else if completed {
        LoopStatus::Completed
    } else {
        LoopStatus::MaxIterations
    };
    (text, status)
}

/// Whether the tools-free planning pass runs before this turn: only for the
/// main agent, when opening a task with thinking enabled or after a turn in
/// which a tool failed.
pub fn plan_before_turn(depth: usize, iter: usize, thinking: bool, plan_next: bool) -> (b: bool)
    ensures
        b == (depth == 0 && ((iter == 0 && thinking) || plan_next)),
{
    depth == 0 && ((iter == 0 && thinking) || plan_next)
}

/// The one-word verdict on a model turn: it acted, answered, or said nothing.
pub fn turn_verdict(tool_calls: usize, content: &str) -> (v: &'static str)
    ensures
        v@ == (if tool_calls > 0 {
            "acted"@
        } else if trim_spec(content@).len() == 0 {
            "empty"@
        } else {
            "answered"@
        }),
{
    if tool_calls > 0 {
        "acted"
    } else if trim(content).as_str().is_empty() {
        "empty"
    } else {
        "answered"
    }
}

/// Heuristic failure classification of a tool result, for the results that
/// never pass through the tool pipeline (delegation and skill loading).
pub open spec fn failure_spec(r: Seq<char>) -> bool {
    contains_spec(r, "[Recovery]"@) || contains_spec(r, "[BAD ARGS]"@) || (r.len() >= "[ERROR]"@.len()
        && r.take("[ERROR]"@.len() as int) == "[ERROR]"@) || (r.len() >= "Error executing"@.len() && r.take(
        "Error executing"@.len() as int,
    ) == "Error executing"@) || contains_spec(r, "' failed:"@)
}

pub fn result_is_failure(result: &str) -> (b: bool)
    ensures
        b == failure_spec(result@),
{
    str_contains(result, "[Recovery]") || str_contains(result, "[BAD ARGS]") || str_starts_with(result, "[ERROR]")
        || str_starts_with(result, "Error executing") || str_contains(result, "' failed:")
}

/// The marker of the model's own function-calling grammar leaking into prose.
pub const FAKE_TOOL_MARKER: &'static str = "\u{FF5C}\u{FF5C}";

/// A planning pass's text cut off before any leaked tool-call syntax, with
/// the whitespace before the cut removed; untouched when there is none.
pub open spec fn strip_fake_spec(plan: Seq<char>) -> Seq<char> {
    match find_spec(plan, FAKE_TOOL_MARKER@) {
        Some(i) => trim_end_spec(plan.take(i as int)),
        None => plan,
    }
}

pub fn strip_fake_tool_syntax(plan: &str) -> (r: String)
    ensures
        r@ == strip_fake_spec(plan@),
{
    let cs = chars_of(plan);
    let marker = chars_of(FAKE_TOOL_MARKER);
    match find(cs.as_slice(), marker.as_slice()) {
        Some(i) => {
            let head = crate::text::slice_chars(cs.as_slice(), 0, i);
            assert(head@ =~= plan@.take(i as int));
            let t = trim_end_chars(head.as_slice());
            string_of(t.as_slice())
        },
        None => lit(plan),
    }
}

/// A system message with the given text.
pub open spec fn system_view(text: Seq<char>) -> MessageView {
    MessageView::Simple {
        role: "system"@,
        content: text,
        reasoning_content: None,
        tool_calls: None,
        images: Seq::empty(),
    }
}

/// A new system message.
pub fn system_message(text: String) -> (m: Message)
    ensures
        m@ == system_view(text@),
{
    let m = Message::Simple {
        role: lit("system"),
        content: text,
        reasoning_content: None,
        tool_calls: None,
        images: Vec::new(),
    };
    assert(crate::api::images_view(Seq::<crate::api::ImagePart>::empty()) =~= Seq::empty());
    m
}

/// The directive that scopes one tools-withheld planning call.
pub const PLANNING_ONLY_TEXT: &'static str = "[Two-Stage ReAct planning pass] Tools are deliberately withheld for this one completion only \u{2014} you cannot actually invoke anything right now, so do not write tool-call syntax, function invocations, or any tool-call-shaped text; doing so will be mistaken for a completed action on the next turn. Just think in plain prose: what's the situation, what should happen next, and why. The very next turn has tools available again and will act on this plan.";

/// The system directive for a tools-withheld planning call. It is pushed
/// onto a copy of the conversation for that one request, never into it.
pub fn planning_only_directive() -> (m: Message)
    ensures
        m@ == system_view(PLANNING_ONLY_TEXT@),
{
    system_message(lit(PLANNING_ONLY_TEXT))
}

/// The user turn that follows a plan, so the conversation keeps its
/// assistant-then-user alternation before the next tool-enabled request.
pub const PLAN_BRIDGE_TEXT: &'static str = "[System] Proceed: call the tool(s) needed to execute the plan above now.";

/// Append a non-blank plan as an assistant message followed by the bridge
/// user message; a blank plan appends nothing.
pub fn append_plan_with_bridge(messages: &mut Vec<Message>, plan: String)
    ensures
        trim_spec(plan@).len() == 0 ==> final(messages)@ == old(messages)@,
        trim_spec(plan@).len() > 0 ==> messages_view(final(messages)@) == messages_view(old(messages)@).push(
            MessageView::Simple {
                role: "assistant"@,
                content: plan@,
                reasoning_content: None,
                tool_calls: None,
                images: Seq::empty(),
            },
        ).push(
            MessageView::Simple {
                role: "user"@,
                content: PLAN_BRIDGE_TEXT@,
                reasoning_content: None,
                tool_calls: None,
                images: Seq::empty(),
            },
        ),
{
    if trim(plan.as_str()).as_str().is_empty() {
        return;
    }
    let ghost before = messages_view(messages@);
    let assistant = Message::Simple {
        role: lit("assistant"),
        content: plan,
        reasoning_content: None,
        tool_calls: None,
        images: Vec::new(),
    };
    assert(crate::api::images_view(Seq::<crate::api::ImagePart>::empty()) =~= Seq::empty());
    messages.push(assistant);
    messages.push(Message::new_user_text(lit(PLAN_BRIDGE_TEXT)));
    assert(messages_view(messages@) =~= before.push(
        MessageView::Simple {
            role: "assistant"@,
            content: plan@,
            reasoning_content: None,
            tool_calls: None,
            images: Seq::empty(),
        },
    ).push(
        MessageView::Simple {
            role: "user"@,
            content: PLAN_BRIDGE_TEXT@,
            reasoning_content: None,
            tool_calls: None,
            images: Seq::empty(),
        },
    ));
}

/// A title for a conversation: its first line, trimmed, at most 48 chars;
/// the untitled marker when that is empty.
pub open spec fn title_spec(prompt: Seq<char>) -> Seq<char> {
    let line = if lines_spec(prompt).len() > 0 { lines_spec(prompt)[0] } else { prompt };
    let t = trim_spec(line);
    let title = if t.len() > 48 { t.take(48) } else { t };
    if title.len() == 0 { UNTITLED@ } else { title }
}

pub fn title_from(prompt: &str) -> (r: String)
    ensures
        r@ == title_spec(prompt@),
{
    let cs = chars_of(prompt);
    let ls = lines(cs.as_slice());
    proof {
        assert(chars_views(ls@) == lines_spec(prompt@));
    }
    let line = if ls.len() > 0 {
        assert(chars_views(ls@)[0] == ls@[0]@);
        string_of(ls[0].as_slice())
    } else {
        lit(prompt)
    };
    let t = chars_of(trim(line.as_str()).as_str());
    let n = if t.len() > 48 { 48 } else { t.len() };
    let title = crate::text::slice_chars(t.as_slice(), 0, n);
    if title.len() == 0 {
        lit(UNTITLED)
    } else {
        proof {
            if t@.len() > 48 {
                assert(title@ =~= t@.take(48));
            } else {
                assert(title@ =~= t@);
            }
        }
        string_of(title.as_slice())
    }
}

/// How many bytes of tool arguments the console line shows.
pub const PREVIEW_LIMIT: usize = 160;

/// The longest prefix of `s` of at most `limit` UTF-8 bytes.
pub open spec fn byte_prefix_len(s: Seq<char>, limit: nat) -> nat
    decreases s.len(),
{
    if s.len() == 0 {
        0
    } else if utf8_len(s) <= limit {
        s.len()
    } else {
        byte_prefix_len(s.drop_last(), limit)
    }
}

/// Tool arguments for the console: whole when short enough, else cut to the
/// longest prefix that fits the byte limit, with an ellipsis.
pub open spec fn preview_spec(args: Seq<char>) -> Seq<char> {
    if utf8_len(args) <= PREVIEW_LIMIT {
        args
    } else {
        args.take(byte_prefix_len(args, PREVIEW_LIMIT as nat) as int) + "\u{2026}"@
    }
}

proof fn lemma_utf8_len_push(s: Seq<char>, c: char)
    ensures
        utf8_len(s.push(c)) == utf8_len(s) + char_width(c),
{
    assert(s.push(c).drop_last() =~= s);
}

proof fn lemma_byte_prefix(s: Seq<char>, limit: nat, k: nat)
    requires
        k <= s.len(),
        utf8_len(s.take(k as int)) <= limit,
        k == s.len() || utf8_len(s.take(k as int + 1)) > limit,
    ensures
        byte_prefix_len(s, limit) == k,
    decreases s.len(),
{
    if s.len() == 0 {
    } else if utf8_len(s) <= limit {
        if k < s.len() {
            lemma_utf8_mono(s, k as int + 1, s.len() as int);
            assert(s.take(s.len() as int) =~= s);
        }
    } else {
        if k == s.len() {
            assert(s.take(k as int) =~= s);
        }
        let t = s.drop_last();
        assert(t.take(k as int) =~= s.take(k as int));
        if k < t.len() {
            assert(t.take(k as int + 1) =~= s.take(k as int + 1));
        }
        lemma_byte_prefix(t, limit, k);
    }
}

proof fn lemma_utf8_mono(s: Seq<char>, a: int, b: int)
    requires
        0 <= a <= b <= s.len(),
    ensures
        utf8_len(s.take(a)) <= utf8_len(s.take(b)),
    decreases b - a,
{
    if a < b {
        lemma_utf8_mono(s, a, b - 1);
        assert(s.take(b).drop_last() =~= s.take(b - 1));
    }
}

pub fn preview_args(args: &str) -> (r: String)
    ensures
        r@ == preview_spec(args@),
{
    let cs = chars_of(args);
    let mut bytes: usize = 0;
    let mut k: usize = 0;
    while k < cs.len() && bytes + char_len_utf8(cs[k]) <= PREVIEW_LIMIT
        invariant
            k <= cs@.len(),
            cs@ == args@,
            bytes == utf8_len(cs@.take(k as int)),
            bytes <= PREVIEW_LIMIT,
        decreases cs.len() - k,
    {
        let w = char_len_utf8(cs[k]);
        proof {
            lemma_utf8_len_push(cs@.take(k as int), cs@[k as int]);
            assert(cs@.take(k as int).push(cs@[k as int]) =~= cs@.take(k + 1));
        }
        bytes = bytes + w;
        k += 1;
    }
    proof {
        if k < cs@.len() {
            lemma_utf8_len_push(cs@.take(k as int), cs@[k as int]);
            assert(cs@.take(k as int).push(cs@[k as int]) =~= cs@.take(k + 1));
        }
        lemma_byte_prefix(args@, PREVIEW_LIMIT as nat, k as nat);
    }
    if k == cs.len() {
        assert(cs@.take(k as int) =~= args@);
        lit(args)
    } else {
        proof {
            lemma_utf8_mono(args@, k as int + 1, args@.len() as int);
            assert(args@.take(args@.len() as int) =~= args@);
        }
        let head = crate::text::slice_chars(cs.as_slice(), 0, k);
        let mut r = string_of(head.as_slice());
        push_str(&mut r, "\u{2026}");
        assert(head@ =~= args@.take(k as int));
        r
    }
}


// ------------------------------------------------------- prompt arrangement

/// What kind of context the harness injected into a request.
#[derive(Debug, Clone, Copy, PartialEq, Eq, Structural)]
pub enum ContextKind {
    /// The workspace's rules file.
    Workspace,
    /// The research and citation contract.
    Research,
    /// The persistent memory note.
    Memory,
    /// Plan Mode guidance.
    Skill,
}

/// The prefix that marks Plan Mode guidance, so it can be found and dropped
/// without touching other system messages.
pub const PLAN_MODE_MARKER: &'static str = "# Plan Mode (active)";

pub open spec fn is_system(m: MessageView) -> bool {
    m matches MessageView::Simple { role, .. } && role == "system"@
}

pub open spec fn is_system_text(m: MessageView, t: Seq<char>) -> bool {
    m matches MessageView::Simple { role, content, .. } && role == "system"@ && content == t
}

/// Whether `m` is a system message whose text begins with `marker`.
pub open spec fn is_marked(m: MessageView, marker: Seq<char>) -> bool {
    m matches MessageView::Simple { role, content, .. } && role == "system"@ && content.len() >= marker.len()
        && content.take(marker.len() as int) == marker
}

pub open spec fn is_plan_note(m: MessageView) -> bool {
    is_marked(m, PLAN_MODE_MARKER@)
}

/// `ms` without the system messages that begin with `marker`.
pub open spec fn drop_marked(ms: Seq<MessageView>, marker: Seq<char>) -> Seq<MessageView>
    decreases ms.len(),
{
    if ms.len() == 0 {
        ms
    } else {
        drop_marked(ms.drop_last(), marker) + if is_marked(ms.last(), marker) {
            Seq::<MessageView>::empty()
        } else {
            seq![ms.last()]
        }
    }
}

/// `ms` without its Plan Mode guidance.
pub open spec fn drop_plan_notes(ms: Seq<MessageView>) -> Seq<MessageView> {
    drop_marked(ms, PLAN_MODE_MARKER@)
}

/// The length of the leading run of system messages.
pub open spec fn head_len(ms: Seq<MessageView>) -> nat
    decreases ms.len(),
{
    if ms.len() == 0 || !is_system(ms[0]) {
        0
    } else {
        1 + head_len(ms.skip(1))
    }
}

pub open spec fn has_system_text(ms: Seq<MessageView>, t: Seq<char>) -> bool {
    exists|i: int| 0 <= i < ms.len() && is_system_text(#[trigger] ms[i], t)
}

/// The kernel at index 0, inserted unless it is already there.
pub open spec fn with_kernel(ms: Seq<MessageView>) -> Seq<MessageView> {
    if ms.len() > 0 && is_system_text(ms[0], agent_prompt_spec()) {
        ms
    } else {
        ms.insert(0, system_view(agent_prompt_spec()))
    }
}

/// The workspace rules right after a leading system message, unless present.
pub open spec fn with_rules(ms: Seq<MessageView>, rules: Option<Seq<char>>) -> Seq<MessageView> {
    match rules {
        None => ms,
        Some(r) => if has_system_text(ms, r) {
            ms
        } else {
            ms.insert(if ms.len() > 0 && is_system(ms[0]) { 1 } else { 0 }, system_view(r))
        },
    }
}

/// `text` after the leading system messages, unless present.
pub open spec fn with_after_head(ms: Seq<MessageView>, text: Option<Seq<char>>) -> Seq<MessageView> {
    match text {
        None => ms,
        Some(t) => if has_system_text(ms, t) {
            ms
        } else {
            ms.insert(head_len(ms) as int, system_view(t))
        },
    }
}

/// Plan Mode guidance after the leading system messages.
pub open spec fn with_plan(ms: Seq<MessageView>, plan: Option<Seq<char>>) -> Seq<MessageView> {
    match plan {
        None => ms,
        Some(t) => ms.insert(head_len(ms) as int, system_view(t)),
    }
}

/// The conversation with its system prompts arranged: stale Plan Mode
/// guidance dropped; the kernel first; the workspace rules right after it;
/// then the research contract and the memory note after the leading system
/// messages, each only if not already present; then Plan Mode guidance when
/// Plan Mode is on.
pub open spec fn arranged(
    ms: Seq<MessageView>,
    workspace: Option<Seq<char>>,
    research: Option<Seq<char>>,
    memory: Option<Seq<char>>,
    plan: Option<Seq<char>>,
) -> Seq<MessageView> {
    with_plan(
        with_after_head(with_after_head(with_rules(with_kernel(drop_plan_notes(ms)), workspace), research), memory),
        plan,
    )
}

/// What the arrangement reports it injected, in order.
pub open spec fn injected_spec(
    workspace: Option<Seq<char>>,
    research: Option<Seq<char>>,
    memory: Option<Seq<char>>,
    plan: Option<Seq<char>>,
) -> Seq<(ContextKind, Seq<char>)> {
    (match workspace { Some(w) => seq![(ContextKind::Workspace, w)], None => seq![] })
        + (match research { Some(r) => seq![(ContextKind::Research, r)], None => seq![] })
        + (match memory { Some(m) => seq![(ContextKind::Memory, m)], None => seq![] })
        + (match plan { Some(p) => seq![(ContextKind::Skill, p)], None => seq![] })
}

pub open spec fn injected_view(v: Seq<(ContextKind, String)>) -> Seq<(ContextKind, Seq<char>)> {
    v.map_values(|e: (ContextKind, String)| (e.0, e.1@))
}

fn is_system_msg(m: &Message) -> (b: bool)
    ensures
        b == is_system(m@),
{
    match m {
        Message::Simple { role, .. } => str_eq(role.as_str(), "system"),
        _ => false,
    }
}

fn is_system_text_msg(m: &Message, t: &str) -> (b: bool)
    ensures
        b == is_system_text(m@, t@),
{
    match m {
        Message::Simple { role, content, .. } => str_eq(role.as_str(), "system") && str_eq(content.as_str(), t),
        _ => false,
    }
}

fn is_marked_msg(m: &Message, marker: &str) -> (b: bool)
    ensures
        b == is_marked(m@, marker@),
{
    match m {
        Message::Simple { role, content, .. } => {
            let r = str_eq(role.as_str(), "system") && str_starts_with(content.as_str(), marker);
            r
        },
        _ => false,
    }
}

fn has_system_text_exec(ms: &Vec<Message>, t: &str) -> (b: bool)
    ensures
        b == has_system_text(messages_view(ms@), t@),
{
    let mut i: usize = 0;
    while i < ms.len()
        invariant
            i <= ms@.len(),
            forall|j: int| 0 <= j < i ==> !is_system_text(#[trigger] messages_view(ms@)[j], t@),
        decreases ms.len() - i,
    {
        if is_system_text_msg(&ms[i], t) {
            assert(is_system_text(messages_view(ms@)[i as int], t@));
            return true;
        }
        i += 1;
    }
    false
}

fn head_len_exec(ms: &Vec<Message>) -> (n: usize)
    ensures
        n == head_len(messages_view(ms@)),
{
    let ghost v = messages_view(ms@);
    let mut n: usize = 0;
    assert(v.skip(0) =~= v);
    while n < ms.len() && is_system_msg(&ms[n])
        invariant
            n <= ms@.len(),
            v == messages_view(ms@),
            head_len(v) == n + head_len(v.skip(n as int)),
        decreases ms.len() - n,
    {
        proof {
            let w = v.skip(n as int);
            assert(w[0] == v[n as int]);
            assert(w.skip(1) =~= v.skip(n + 1));
        }
        n += 1;
    }
    proof {
        let w = v.skip(n as int);
        if n < ms@.len() {
            assert(w[0] == v[n as int]);
        }
    }
    n
}

proof fn lemma_head_len_pos(ms: Seq<MessageView>)
    requires
        ms.len() > 0,
        is_system(ms[0]),
    ensures
        head_len(ms) >= 1,
{
}

proof fn lemma_view_insert(ms: Seq<Message>, i: int, m: Message)
    requires
        0 <= i <= ms.len(),
    ensures
        messages_view(ms.insert(i, m)) == messages_view(ms).insert(i, m@),
{
    assert(messages_view(ms.insert(i, m)) =~= messages_view(ms).insert(i, m@));
}

/// Drop the system messages that begin with `marker`, in place.
fn remove_marked(messages: &mut Vec<Message>, marker: &str)
    ensures
        messages_view(final(messages)@) == drop_marked(messages_view(old(messages)@), marker@),
{
    let ghost orig = messages_view(messages@);
    let mut i: usize = 0;
    let ghost mut j: int = 0;
    while i < messages.len()
        invariant
            0 <= j <= orig.len(),
            i <= messages@.len(),
            messages_view(messages@).take(i as int) == drop_marked(orig.take(j), marker@),
            messages_view(messages@).skip(i as int) == orig.skip(j),
            messages@.len() - i == orig.len() - j,
        decreases messages@.len() - i,
    {
        let ghost before = messages_view(messages@);
        proof {
            assert(before[i as int] == orig.skip(j)[0]);
            assert(orig.skip(j)[0] == orig[j]);
            assert(orig.take(j + 1).drop_last() =~= orig.take(j));
        }
        if is_marked_msg(&messages[i], marker) {
            messages.remove(i);
            proof {
                let after = messages_view(messages@);
                assert(after =~= before.remove(i as int));
                assert(after.take(i as int) =~= before.take(i as int));
                assert(after.skip(i as int) =~= before.skip(i + 1));
                assert(before.skip(i + 1) =~= before.skip(i as int).skip(1));
                assert(orig.skip(j + 1) =~= orig.skip(j).skip(1));
                assert(after.skip(i as int) =~= orig.skip(j + 1));
                j = j + 1;
            }
        } else {
            proof {
                assert(before.take(i + 1) =~= before.take(i as int).push(before[i as int]));
                assert(before.skip(i + 1) =~= before.skip(i as int).skip(1));
                assert(orig.skip(j + 1) =~= orig.skip(j).skip(1));
                assert(before.skip(i + 1) =~= orig.skip(j + 1));
                j = j + 1;
            }
            i += 1;
        }
    }
    proof {
        assert(messages_view(messages@).take(i as int) =~= messages_view(messages@));
        assert(orig.take(j) =~= orig);
    }
}

fn insert_kernel(messages: &mut Vec<Message>)
    ensures
        messages_view(final(messages)@) == with_kernel(messages_view(old(messages)@)),
{
    let kernel = agent_system_prompt();
    if !(messages.len() > 0 && is_system_text_msg(&messages[0], kernel.as_str())) {
        let m = system_message(kernel);
        proof {
            lemma_view_insert(messages@, 0, m);
        }
        messages.insert(0, m);
    }
}

fn insert_rules(messages: &mut Vec<Message>, rules: String)
    ensures
        messages_view(final(messages)@) == with_rules(messages_view(old(messages)@), Some(rules@)),
{
    if !has_system_text_exec(messages, rules.as_str()) {
        let at: usize = if messages.len() > 0 && is_system_msg(&messages[0]) { 1 } else { 0 };
        let m = system_message(rules);
        proof {
            lemma_view_insert(messages@, at as int, m);
        }
        messages.insert(at, m);
    }
}

fn insert_after_head(messages: &mut Vec<Message>, t: String, always: bool)
    ensures
        always ==> messages_view(final(messages)@) == with_plan(messages_view(old(messages)@), Some(t@)),
        !always ==> messages_view(final(messages)@) == with_after_head(messages_view(old(messages)@), Some(t@)),
{
    if always || !has_system_text_exec(messages, t.as_str()) {
        let at = head_len_exec(messages);
        proof {
            lemma_head_len_le(messages_view(messages@));
        }
        let m = system_message(t);
        proof {
            lemma_view_insert(messages@, at as int, m);
        }
        messages.insert(at, m);
    }
}

/// Arrange the system prompts ahead of the conversation, and report what
/// was injected besides the kernel. `workspace` is the workspace's rules
/// message, `research` the citation contract when the web tools are on the
/// surface, `memory` the memory note, and `plan` the Plan Mode guidance when
/// Plan Mode is on. The kernel stays byte-identical at index 0, so the
/// prompt-cache prefix is stable across turns.
pub fn ensure_agent_system_prompt(
    messages: &mut Vec<Message>,
    workspace: Option<String>,
    research: Option<String>,
    memory: Option<String>,
    plan: Option<String>,
) -> (injected: Vec<(ContextKind, String)>)
    ensures
        messages_view(final(messages)@) == arranged(
            messages_view(old(messages)@),
            crate::config::opt_seq(workspace),
            crate::config::opt_seq(research),
            crate::config::opt_seq(memory),
            crate::config::opt_seq(plan),
        ),
        injected_view(injected@) == injected_spec(
            crate::config::opt_seq(workspace),
            crate::config::opt_seq(research),
            crate::config::opt_seq(memory),
            crate::config::opt_seq(plan),
        ),
{
    let ghost ws = crate::config::opt_seq(workspace);
    let ghost rs = crate::config::opt_seq(research);
    let ghost mm = crate::config::opt_seq(memory);
    let ghost pl = crate::config::opt_seq(plan);
    let mut injected: Vec<(ContextKind, String)> = Vec::new();
    remove_marked(messages, PLAN_MODE_MARKER);
    insert_kernel(messages);
    let ghost s1 = messages_view(messages@);
    match workspace {
        Some(rules) => {
            injected.push((ContextKind::Workspace, rules.clone()));
            insert_rules(messages, rules);
        },
        None => {},
    }
    let ghost s2 = messages_view(messages@);
    assert(s2 == with_rules(s1, ws));
    match research {
        Some(t) => {
            injected.push((ContextKind::Research, t.clone()));
            insert_after_head(messages, t, false);
        },
        None => {},
    }
    let ghost s3 = messages_view(messages@);
    assert(s3 == with_after_head(s2, rs));
    match memory {
        Some(t) => {
            injected.push((ContextKind::Memory, t.clone()));
            insert_after_head(messages, t, false);
        },
        None => {},
    }
    let ghost s4 = messages_view(messages@);
    assert(s4 == with_after_head(s3, mm));
    match plan {
        Some(t) => {
            injected.push((ContextKind::Skill, t.clone()));
            insert_after_head(messages, t, true);
        },
        None => {},
    }
    assert(messages_view(messages@) == with_plan(s4, pl));
    assert(injected_view(injected@) =~= injected_spec(ws, rs, mm, pl));
    injected
}

proof fn lemma_head_len_le(ms: Seq<MessageView>)
    ensures
        head_len(ms) <= ms.len(),
    decreases ms.len(),
{
    if ms.len() > 0 && is_system(ms[0]) {
        lemma_head_len_le(ms.skip(1));
    }
}


// ------------------------------------------------------------- its laws

pub open spec fn no_plan_notes(ms: Seq<MessageView>) -> bool {
    forall|i: int| 0 <= i < ms.len() ==> !is_plan_note(#[trigger] ms[i])
}

proof fn lemma_drop_has_none(ms: Seq<MessageView>)
    ensures
        no_plan_notes(drop_plan_notes(ms)),
    decreases ms.len(),
{
    if ms.len() > 0 {
        lemma_drop_has_none(ms.drop_last());
        let d = drop_plan_notes(ms.drop_last());
        let tail = if is_plan_note(ms.last()) { Seq::<MessageView>::empty() } else { seq![ms.last()] };
        assert forall|i: int| 0 <= i < (d + tail).len() implies !is_plan_note(#[trigger] (d + tail)[i]) by {
            if i < d.len() {
                assert((d + tail)[i] == d[i]);
            } else {
                assert((d + tail)[i] == tail[i - d.len()]);
            }
        }
    }
}

proof fn lemma_drop_identity(ms: Seq<MessageView>)
    requires
        no_plan_notes(ms),
    ensures
        drop_plan_notes(ms) == ms,
    decreases ms.len(),
{
    if ms.len() > 0 {
        let p = ms.drop_last();
        assert(no_plan_notes(p)) by {
            assert forall|i: int| 0 <= i < p.len() implies !is_plan_note(#[trigger] p[i]) by {
                assert(p[i] == ms[i]);
            }
        }
        lemma_drop_identity(p);
        assert(!is_plan_note(ms[ms.len() - 1]));
        assert(p + seq![ms.last()] =~= ms);
    }
}

proof fn lemma_drop_insert_note(ms: Seq<MessageView>, i: int, x: MessageView)
    requires
        0 <= i <= ms.len(),
        is_plan_note(x),
    ensures
        drop_plan_notes(ms.insert(i, x)) == drop_plan_notes(ms),
    decreases ms.len(),
{
    let t = ms.insert(i, x);
    if i == ms.len() {
        assert(t.drop_last() =~= ms);
        assert(t.last() == x);
        assert(drop_plan_notes(t) =~= drop_plan_notes(ms));
    } else {
        assert(t.drop_last() =~= ms.drop_last().insert(i, x));
        assert(t.last() == ms.last());
        lemma_drop_insert_note(ms.drop_last(), i, x);
    }
}

proof fn lemma_no_notes_insert(ms: Seq<MessageView>, i: int, x: MessageView)
    requires
        0 <= i <= ms.len(),
        no_plan_notes(ms),
        !is_plan_note(x),
    ensures
        no_plan_notes(ms.insert(i, x)),
{
    let t = ms.insert(i, x);
    assert forall|k: int| 0 <= k < t.len() implies !is_plan_note(#[trigger] t[k]) by {
        if k < i {
            assert(t[k] == ms[k]);
        } else if k > i {
            assert(t[k] == ms[k - 1]);
        }
    }
}

proof fn lemma_has_insert(ms: Seq<MessageView>, i: int, x: MessageView, t: Seq<char>)
    requires
        0 <= i <= ms.len(),
        has_system_text(ms, t),
    ensures
        has_system_text(ms.insert(i, x), t),
{
    let k = choose|k: int| 0 <= k < ms.len() && is_system_text(#[trigger] ms[k], t);
    let u = ms.insert(i, x);
    if k < i {
        assert(u[k] == ms[k]);
        assert(is_system_text(u[k], t));
    } else {
        assert(u[k + 1] == ms[k]);
        assert(is_system_text(u[k + 1], t));
    }
}

proof fn lemma_head_len_first(ms: Seq<MessageView>, i: int, x: MessageView)
    requires
        ms.len() > 0,
        is_system(ms[0]),
        1 <= i <= ms.len(),
    ensures
        ms.insert(i, x)[0] == ms[0],
{
}

proof fn lemma_kernel_not_note()
    ensures
        !is_plan_note(system_view(agent_prompt_spec())),
{
    reveal_strlit("You are SeekCLI, a terminal-based Harness Agent powered by DeepSeek V4.\n\n");
    reveal_strlit("# Plan Mode (active)");
    assert(agent_prompt_spec()[0] == 'Y');
    assert(PLAN_MODE_MARKER@[0] == '#');
    if agent_prompt_spec().len() >= PLAN_MODE_MARKER@.len() {
        assert(agent_prompt_spec().take(PLAN_MODE_MARKER@.len() as int)[0] == 'Y');
    }
}

/// The state before Plan Mode guidance is added.
pub open spec fn arranged_base(
    ms: Seq<MessageView>,
    workspace: Option<Seq<char>>,
    research: Option<Seq<char>>,
    memory: Option<Seq<char>>,
) -> Seq<MessageView> {
    with_after_head(with_after_head(with_rules(with_kernel(drop_plan_notes(ms)), workspace), research), memory)
}

pub open spec fn opt_not_note(o: Option<Seq<char>>) -> bool {
    match o {
        Some(t) => !is_plan_note(system_view(t)),
        None => true,
    }
}

pub open spec fn opt_present(ms: Seq<MessageView>, o: Option<Seq<char>>) -> bool {
    match o {
        Some(t) => has_system_text(ms, t),
        None => true,
    }
}

proof fn lemma_base_facts(
    ms: Seq<MessageView>,
    w: Option<Seq<char>>,
    r: Option<Seq<char>>,
    m: Option<Seq<char>>,
)
    requires
        opt_not_note(w),
        opt_not_note(r),
        opt_not_note(m),
    ensures
        ({
            let b = arranged_base(ms, w, r, m);
            &&& b.len() > 0
            &&& is_system_text(b[0], agent_prompt_spec())
            &&& no_plan_notes(b)
            &&& opt_present(b, w)
            &&& opt_present(b, r)
            &&& opt_present(b, m)
        }),
{
    let s0 = drop_plan_notes(ms);
    lemma_drop_has_none(ms);
    lemma_kernel_not_note();
    let s1 = with_kernel(s0);
    if !(s0.len() > 0 && is_system_text(s0[0], agent_prompt_spec())) {
        lemma_no_notes_insert(s0, 0, system_view(agent_prompt_spec()));
    }
    assert(is_system_text(s1[0], agent_prompt_spec()));
    let s2 = with_rules(s1, w);
    match w {
        Some(t) => {
            if !has_system_text(s1, t) {
                lemma_no_notes_insert(s1, 1, system_view(t));
                lemma_head_len_first(s1, 1, system_view(t));
                assert(is_system_text(s2[1], t));
            }
        },
        None => {},
    }
    assert(is_system_text(s2[0], agent_prompt_spec()));
    let s3 = with_after_head(s2, r);
    match r {
        Some(t) => {
            if !has_system_text(s2, t) {
                lemma_head_len_pos(s2);
                lemma_head_len_le(s2);
                let h = head_len(s2) as int;
                lemma_no_notes_insert(s2, h, system_view(t));
                lemma_head_len_first(s2, h, system_view(t));
                assert(is_system_text(s3[h], t));
                match w {
                    Some(wt) => lemma_has_insert(s2, h, system_view(t), wt),
                    None => {},
                }
            }
        },
        None => {},
    }
    assert(is_system_text(s3[0], agent_prompt_spec()));
    let s4 = with_after_head(s3, m);
    match m {
        Some(t) => {
            if !has_system_text(s3, t) {
                lemma_head_len_pos(s3);
                lemma_head_len_le(s3);
                let h = head_len(s3) as int;
                lemma_no_notes_insert(s3, h, system_view(t));
                lemma_head_len_first(s3, h, system_view(t));
                assert(is_system_text(s4[h], t));
                match w {
                    Some(wt) => lemma_has_insert(s3, h, system_view(t), wt),
                    None => {},
                }
                match r {
                    Some(rt) => lemma_has_insert(s3, h, system_view(t), rt),
                    None => {},
                }
            }
        },
        None => {},
    }
}

/// The kernel is always the first message after arranging, whatever else
/// is injected, so the prompt-cache prefix never moves.
pub proof fn the_kernel_stays_first(
    ms: Seq<MessageView>,
    workspace: Option<Seq<char>>,
    research: Option<Seq<char>>,
    memory: Option<Seq<char>>,
    plan: Option<Seq<char>>,
)
    requires
        opt_not_note(workspace),
        opt_not_note(research),
        opt_not_note(memory),
    ensures
        arranged(ms, workspace, research, memory, plan).len() > 0,
        is_system_text(arranged(ms, workspace, research, memory, plan)[0], agent_prompt_spec()),
{
    lemma_base_facts(ms, workspace, research, memory);
    let b = arranged_base(ms, workspace, research, memory);
    match plan {
        Some(t) => {
            lemma_head_len_pos(b);
            lemma_head_len_le(b);
            lemma_head_len_first(b, head_len(b) as int, system_view(t));
        },
        None => {},
    }
}

/// Arranging is idempotent: it runs at every turn, and a second run adds
/// nothing, so no contract is injected once per turn. This holds when the
/// Plan Mode guidance carries its marker and the other texts do not.
pub proof fn arranging_twice_changes_nothing(
    ms: Seq<MessageView>,
    workspace: Option<Seq<char>>,
    research: Option<Seq<char>>,
    memory: Option<Seq<char>>,
    plan: Option<Seq<char>>,
)
    requires
        opt_not_note(workspace),
        opt_not_note(research),
        opt_not_note(memory),
        match plan {
            Some(t) => is_plan_note(system_view(t)),
            None => true,
        },
    ensures
        arranged(arranged(ms, workspace, research, memory, plan), workspace, research, memory, plan) == arranged(
            ms,
            workspace,
            research,
            memory,
            plan,
        ),
{
    lemma_base_facts(ms, workspace, research, memory);
    let b = arranged_base(ms, workspace, research, memory);
    let a = arranged(ms, workspace, research, memory, plan);
    assert(a == with_plan(b, plan));
    // Dropping the guidance gives back the base.
    match plan {
        Some(t) => {
            lemma_head_len_le(b);
            lemma_drop_insert_note(b, head_len(b) as int, system_view(t));
        },
        None => {},
    }
    lemma_drop_identity(b);
    assert(drop_plan_notes(a) == b);
    // Every other step finds its text already there.
    assert(with_kernel(b) == b);
    assert(with_rules(b, workspace) == b);
    assert(with_after_head(b, research) == b);
    assert(with_after_head(b, memory) == b);
    assert(arranged_base(a, workspace, research, memory) == b);
}


// ------------------------------------------------------- the durable record

/// The views of a list of event payloads.
pub open spec fn payloads_view(v: Seq<EventPayload>) -> Seq<PayloadView> {
    v.map_values(|e: EventPayload| e@)
}

/// Append a message to the working set and, when it is one the log keeps,
/// its event to the run's record, in one step: model-visible means logged.
pub fn log_push(messages: &mut Vec<Message>, events: &mut Vec<EventPayload>, msg: Message)
    ensures
        messages_view(final(messages)@) == messages_view(old(messages)@).push(msg@),
        match event_for_spec(msg@) {
            Some(p) => payloads_view(final(events)@) == payloads_view(old(events)@).push(p),
            None => final(events)@ == old(events)@,
        },
{
    match event_for(&msg) {
        Some(payload) => {
            events.push(payload);
            assert(payloads_view(events@) =~= payloads_view(old(events)@).push(event_for_spec(msg@)->0));
        },
        None => {},
    }
    messages.push(msg);
    assert(messages_view(messages@) =~= messages_view(old(messages)@).push(msg@));
}

/// The last digest recorded for `kind`, if any.
pub open spec fn last_digest(rs: Seq<(ContextKind, String)>, kind: ContextKind) -> Option<Seq<char>>
    decreases rs.len(),
{
    if rs.len() == 0 {
        None
    } else if rs.last().0 == kind {
        Some(rs.last().1@)
    } else {
        last_digest(rs.drop_last(), kind)
    }
}

/// What the harness has recorded of the context it injected: one digest
/// per record, each kind tracked on its own.
pub struct InjectionLog {
    pub records: Vec<(ContextKind, String)>,
}

impl InjectionLog {
    pub fn new() -> (r: InjectionLog)
        ensures
            r.records@.len() == 0,
    {
        InjectionLog { records: Vec::new() }
    }

    /// The last digest recorded for `kind`.
    pub fn last_for(&self, kind: ContextKind) -> (r: Option<String>)
        ensures
            crate::config::opt_seq(r) == last_digest(self.records@, kind),
    {
        let mut i = self.records.len();
        assert(self.records@.take(i as int) =~= self.records@);
        while i > 0
            invariant
                i <= self.records@.len(),
                last_digest(self.records@, kind) == last_digest(self.records@.take(i as int), kind),
            decreases i,
        {
            let ghost t = self.records@.take(i as int);
            assert(t.drop_last() =~= self.records@.take(i - 1));
            if self.records[i - 1].0 == kind {
                return Some(self.records[i - 1].1.clone());
            }
            i -= 1;
        }
        None
    }

    /// Note that context of `kind` with `digest` went into a request. It is
    /// recorded only when it differs from the last record of the same kind;
    /// the result says whether it was.
    pub fn note(&mut self, kind: ContextKind, digest: String) -> (recorded: bool)
        ensures
            recorded == (last_digest(old(self).records@, kind) != Some(digest@)),
            recorded ==> final(self).records@ == old(self).records@.push((kind, digest)),
            !recorded ==> final(self).records@ == old(self).records@,
    {
        let unchanged = match self.last_for(kind) {
            Some(last) => str_eq(last.as_str(), digest.as_str()),
            None => false,
        };
        if unchanged {
            false
        } else {
            self.records.push((kind, digest));
            true
        }
    }
}

/// Unchanged context is recorded once, not once per turn: right after a
/// record, the same digest for the same kind is not recorded again, while
/// the other kinds keep their own last record.
pub proof fn unchanged_context_is_recorded_once(rs: Seq<(ContextKind, String)>, kind: ContextKind, digest: String, other: ContextKind)
    ensures
        last_digest(rs.push((kind, digest)), kind) == Some(digest@),
        other != kind ==> last_digest(rs.push((kind, digest)), other) == last_digest(rs, other),
{
    assert(rs.push((kind, digest)).drop_last() =~= rs);
}

// --------------------------------------------------------- fenced blocks

/// Whether a line opens or closes a fenced code block.
pub open spec fn is_fence(line: Seq<char>) -> bool {
    let t = trim_start_spec(line);
    t.len() >= 3 && t.take(3) == "```"@
}

/// The scan state after some lines: inside a block, the block so far, and
/// the finished blocks.
pub open spec fn fence_step(st: (bool, Seq<char>, Seq<Seq<char>>), line: Seq<char>) -> (bool, Seq<char>, Seq<Seq<char>>) {
    if is_fence(line) {
        if st.0 {
            (false, Seq::empty(), st.2.push(st.1))
        } else {
            (true, st.1, st.2)
        }
    } else if st.0 {
        (true, st.1 + line + "\n"@, st.2)
    } else {
        st
    }
}

pub open spec fn fence_scan(ls: Seq<Seq<char>>) -> (bool, Seq<char>, Seq<Seq<char>>)
    decreases ls.len(),
{
    if ls.len() == 0 {
        (false, Seq::empty(), Seq::empty())
    } else {
        fence_step(fence_scan(ls.drop_last()), ls.last())
    }
}

/// The fenced code blocks of a markdown text, in order; a block that is
/// never closed is not one.
pub open spec fn code_blocks_spec(text: Seq<char>) -> Seq<Seq<char>> {
    fence_scan(lines_spec(text)).2
}

pub fn extract_code_blocks(text: &str) -> (r: Vec<String>)
    ensures
        crate::text::strings_view(r@) == code_blocks_spec(text@),
{
    let cs = chars_of(text);
    let ls = lines(cs.as_slice());
    let ghost lv = chars_views(ls@);
    assert(lv == lines_spec(text@));
    let fence = chars_of("```");
    let mut blocks: Vec<String> = Vec::new();
    let mut in_block = false;
    let mut current = String::new();
    let mut i: usize = 0;
    while i < ls.len()
        invariant
            i <= ls@.len(),
            lv == chars_views(ls@),
            fence@ == "```"@,
            fence_scan(lv.take(i as int)) == (in_block, current@, crate::text::strings_view(blocks@)),
        decreases ls.len() - i,
    {
        assert(lv.take(i + 1).drop_last() =~= lv.take(i as int));
        assert(lv[i as int] == ls@[i as int]@);
        let line = &ls[i];
        let t = crate::text::trim_start_chars(line.as_slice());
        let fenced = crate::text::starts_with(t.as_slice(), fence.as_slice());
        proof {
            reveal_strlit("```");
            if t@.len() >= 3 && t@.take(3) == "```"@ {
                assert(t@.subrange(0, 3) =~= fence@);
            }
            if fenced {
                assert(t@.take(3) =~= fence@);
            }
        }
        if fenced {
            if in_block {
                let done = current;
                current = String::new();
                blocks.push(done);
                in_block = false;
                assert(crate::text::strings_view(blocks@) =~= fence_scan(lv.take(i as int)).2.push(done@));
            } else {
                in_block = true;
            }
        } else if in_block {
            push_str(&mut current, string_of(line.as_slice()).as_str());
            push_char(&mut current, '\n');
            proof {
                reveal_strlit("\n");
                assert(current@ =~= fence_scan(lv.take(i as int)).1 + lv[i as int] + "\n"@);
            }
        }
        i += 1;
    }
    assert(lv.take(i as int) =~= lv);
    blocks
}


// ------------------------------------------------------------ delegation

/// A user message with the given text.
pub open spec fn user_view(text: Seq<char>) -> MessageView {
    MessageView::Simple {
        role: "user"@,
        content: text,
        reasoning_content: None,
        tool_calls: None,
        images: Seq::empty(),
    }
}

/// One line of the template listing a refused delegation shows.
pub open spec fn catalog_line(t: TemplateView) -> Seq<char> {
    "  - "@ + t.name + ": "@ + t.description
}

/// The refusal for an unknown sub-agent type, with the types available.
pub open spec fn unknown_type_spec(name: Seq<char>) -> Seq<char> {
    "Unknown subagent_type '"@ + name + "'. Available types:\n"@ + join_spec(
        templates_spec().map_values(|t: TemplateView| catalog_line(t)),
        "\n"@,
    )
}

/// The refusal once sub-agents are nested as deep as they may go.
pub open spec fn depth_refusal_spec() -> Seq<char> {
    "Cannot spawn sub-agent: max depth "@ + decimal_spec(MAX_SUBAGENT_DEPTH as nat) + " reached."@
}

/// What a delegation request comes to: refused with a message for the
/// model, or a child run to start.
pub enum Delegation {
    Refused(String),
    Spawn {
        template: SubAgentTemplate,
        /// The child's opening conversation: its template's prompt, then
        /// the task.
        messages: Vec<Message>,
        /// The child's nesting depth.
        depth: usize,
    },
}

/// Decide a delegation to a sub-agent of `subagent_type` with task `prompt`
/// from a loop at `depth`. The child sees only its template's prompt and the
/// task: nothing of the parent's conversation.
pub fn begin_delegation(subagent_type: &str, prompt: String, depth: usize) -> (d: Delegation)
    ensures
        depth >= MAX_SUBAGENT_DEPTH ==> (d matches Delegation::Refused(m) && m@ == depth_refusal_spec()),
        depth < MAX_SUBAGENT_DEPTH ==> match lookup_spec(subagent_type@) {
            None => d matches Delegation::Refused(m) && m@ == unknown_type_spec(subagent_type@),
            Some(t) => d matches Delegation::Spawn { template, messages, depth: child } && template@ == t
                && child == depth + 1 && messages_view(messages@) == seq![
                system_view(t.system_prompt),
                user_view(prompt@),
            ],
        },
{
    if depth >= MAX_SUBAGENT_DEPTH {
        let mut m = lit("Cannot spawn sub-agent: max depth ");
        push_str(&mut m, decimal(MAX_SUBAGENT_DEPTH as u64).as_str());
        push_str(&mut m, " reached.");
        return Delegation::Refused(m);
    }
    match lookup(subagent_type) {
        Some(template) => {
            let mut messages: Vec<Message> = Vec::new();
            messages.push(system_message(lit(template.system_prompt)));
            messages.push(Message::new_user_text(prompt));
            assert(messages_view(messages@) =~= seq![system_view(template@.system_prompt), user_view(prompt@)]);
            Delegation::Spawn { template, messages, depth: depth + 1 }
        },
        None => {
            let cat = catalog();
            let mut lines: Vec<String> = Vec::new();
            let mut i: usize = 0;
            while i < cat.len()
                invariant
                    i <= cat@.len(),
                    cat@.len() == templates_spec().len(),
                    forall|j: int| 0 <= j < cat@.len() ==> #[trigger] cat@[j].0@ == templates_spec()[j].name
                        && cat@[j].1@ == templates_spec()[j].description,
                    crate::text::strings_view(lines@) == templates_spec().map_values(
                        |t: TemplateView| catalog_line(t),
                    ).take(i as int),
                    lines@.len() == i,
                decreases cat.len() - i,
            {
                let mut line = lit("  - ");
                push_str(&mut line, cat[i].0);
                push_str(&mut line, ": ");
                push_str(&mut line, cat[i].1);
                assert(cat@[i as int].0@ == templates_spec()[i as int].name);
                lines.push(line);
                assert(crate::text::strings_view(lines@) =~= templates_spec().map_values(
                    |t: TemplateView| catalog_line(t),
                ).take(i + 1));
                i += 1;
            }
            assert(templates_spec().map_values(|t: TemplateView| catalog_line(t)).take(i as int)
                =~= templates_spec().map_values(|t: TemplateView| catalog_line(t)));
            let mut m = lit("Unknown subagent_type '");
            push_str(&mut m, subagent_type);
            push_str(&mut m, "'. Available types:\n");
            push_str(&mut m, join(lines.as_slice(), "\n").as_str());
            Delegation::Refused(m)
        },
    }
}

/// How a child run's end reads to its parent, and the status word recorded
/// for it. A child that did not complete is never reported as completed.
pub open spec fn child_verdict_spec(status: LoopStatus) -> (Seq<char>, Seq<char>) {
    match status {
        LoopStatus::Completed => ("completed"@, "completed"@),
        LoopStatus::BudgetExhausted => ("stopped because the run's model-call budget was spent"@, "budget_exhausted"@),
        LoopStatus::Interrupted => ("was interrupted by the user before finishing"@, "interrupted"@),
        LoopStatus::MaxIterations => ("hit its iteration cap before finishing"@, "max_iterations"@),
    }
}

pub fn child_verdict(status: LoopStatus) -> (r: (&'static str, &'static str))
    ensures
        (r.0@, r.1@) == child_verdict_spec(status),
{
    match status {
        LoopStatus::Completed => ("completed", "completed"),
        LoopStatus::BudgetExhausted => ("stopped because the run's model-call budget was spent", "budget_exhausted"),
        LoopStatus::Interrupted => ("was interrupted by the user before finishing", "interrupted"),
        LoopStatus::MaxIterations => ("hit its iteration cap before finishing", "max_iterations"),
    }
}

/// The tool result a finished child run hands back to its parent.
pub fn child_summary(template: &str, status: LoopStatus, text: &str) -> (r: String)
    ensures
        r@ == "Sub-agent '"@ + template@ + "' "@ + child_verdict_spec(status).0 + ". Summary:\n"@ + text@,
{
    let mut r = lit("Sub-agent '");
    push_str(&mut r, template);
    push_str(&mut r, "' ");
    push_str(&mut r, child_verdict(status).0);
    push_str(&mut r, ". Summary:\n");
    push_str(&mut r, text);
    r
}

/// The tool result when a child run failed outright.
pub fn child_failure(template: &str, err: &str) -> (r: String)
    ensures
        r@ == "Sub-agent '"@ + template@ + "' failed: "@ + err@,
{
    let mut r = lit("Sub-agent '");
    push_str(&mut r, template);
    push_str(&mut r, "' failed: ");
    push_str(&mut r, err);
    r
}


// ------------------------------------------------------- skill switching

/// The prefix of an active skill's system message.
pub const SKILL_MARKER: &'static str = "# Activated Skill: ";

/// The refusal when a sub-agent asks to switch skills.
pub const SKILL_DEPTH_REFUSAL: &'static str = "[ERROR] load_skill is restricted to the main agent. Sub-agents cannot switch skills.";

/// The first skill named `name`, if any.
pub open spec fn first_skill(ss: Seq<Skill>, name: Seq<char>) -> Option<int> {
    if exists|i: int| 0 <= i < ss.len() && (#[trigger] ss[i]).name@ == name {
        Some(choose|i: int| 0 <= i < ss.len() && (#[trigger] ss[i]).name@ == name && forall|j: int|
            0 <= j < i ==> (#[trigger] ss[j]).name@ != name)
    } else {
        None
    }
}

/// The system message an active skill contributes.
pub open spec fn skill_note_spec(s: Skill) -> Seq<char> {
    SKILL_MARKER@ + s.name@ + "\n\n"@ + s.system_prompt@
}

/// What `load_skill` answers.
pub open spec fn activation_reply(ss: Seq<Skill>, name: Seq<char>, depth: nat) -> Seq<char> {
    if depth > 0 {
        SKILL_DEPTH_REFUSAL@
    } else {
        match first_skill(ss, name) {
            None => "Skill '"@ + name + "' not found. Available: "@ + debug_strings(
                ss.map_values(|s: Skill| s.name@),
            ),
            Some(i) => "Skill '"@ + ss[i].name@
                + "' loaded. Its system prompt is now active. Continue the user's task in this persona."@,
        }
    }
}

/// `load_skill` from a loop at `depth`: switch the active persona to the
/// first of `skills` named `name`. Main agent only. The previous skill's
/// message leaves the working set so personas do not accumulate, and the new
/// one is deferred until after this turn's tool results. Returns the reply
/// for the model and the index of the skill that became active.
pub fn activate_skill(
    skills: &Vec<Skill>,
    name: &str,
    depth: usize,
    messages: &mut Vec<Message>,
    deferred: &mut Vec<Message>,
) -> (r: (String, Option<usize>))
    ensures
        r.0@ == activation_reply(skills@, name@, depth as nat),
        r.1 == (if depth > 0 { None } else {
            match first_skill(skills@, name@) {
                Some(i) => Some(i as usize),
                None => None::<usize>,
            }
        }),
        match r.1 {
            Some(i) => messages_view(final(messages)@) == drop_marked(messages_view(old(messages)@), SKILL_MARKER@)
                && messages_view(final(deferred)@) == messages_view(old(deferred)@).push(
                system_view(skill_note_spec(skills@[i as int])),
            ),
            None => final(messages)@ == old(messages)@ && final(deferred)@ == old(deferred)@,
        },
{
    if depth > 0 {
        return (lit(SKILL_DEPTH_REFUSAL), None);
    }
    let mut i: usize = 0;
    while i < skills.len()
        invariant
            i <= skills@.len(),
            depth == 0,
            messages@ == old(messages)@,
            deferred@ == old(deferred)@,
            forall|j: int| 0 <= j < i ==> (#[trigger] skills@[j]).name@ != name@,
        decreases skills.len() - i,
    {
        if str_eq(skills[i].name.as_str(), name) {
            let ghost ss = skills@;
            assert(first_skill(ss, name@) == Some(i as int)) by {
                assert(ss[i as int].name@ == name@);
                let k = choose|k: int| 0 <= k < ss.len() && (#[trigger] ss[k]).name@ == name@ && forall|j: int|
                    0 <= j < k ==> (#[trigger] ss[j]).name@ != name@;
                if k < i {
                    assert(ss[k].name@ != name@);
                }
                if k > i {
                    assert(ss[i as int].name@ != name@);
                }
            }
            let skill = &skills[i];
            remove_marked(messages, SKILL_MARKER);
            let mut note = lit(SKILL_MARKER);
            push_str(&mut note, skill.name.as_str());
            push_str(&mut note, "\n\n");
            push_str(&mut note, skill.system_prompt.as_str());
            let ghost d0 = messages_view(deferred@);
            deferred.push(system_message(note));
            assert(messages_view(deferred@) =~= d0.push(system_view(skill_note_spec(skills@[i as int]))));
            let mut reply = lit("Skill '");
            push_str(&mut reply, skill.name.as_str());
            push_str(&mut reply, "' loaded. Its system prompt is now active. Continue the user's task in this persona.");
            return (reply, Some(i));
        }
        i += 1;
    }
    assert(first_skill(skills@, name@) is None);
    let mut names: Vec<String> = Vec::new();
    let mut k: usize = 0;
    while k < skills.len()
        invariant
            k <= skills@.len(),
            messages@ == old(messages)@,
            deferred@ == old(deferred)@,
            names@.len() == k,
            crate::text::strings_view(names@) == skills@.map_values(|s: Skill| s.name@).take(k as int),
        decreases skills.len() - k,
    {
        names.push(skills[k].name.clone());
        assert(crate::text::strings_view(names@)[k as int] == skills@[k as int].name@);
        assert(crate::text::strings_view(names@) =~= skills@.map_values(|s: Skill| s.name@).take(k + 1));
        k += 1;
    }
    assert(skills@.map_values(|s: Skill| s.name@).take(k as int) =~= skills@.map_values(|s: Skill| s.name@));
    let mut reply = lit("Skill '");
    push_str(&mut reply, name);
    push_str(&mut reply, "' not found. Available: ");
    push_str(&mut reply, debug_list(&names).as_str());
    (reply, None)
}


// ------------------------------------------------------ tool-call arguments

/// What `serde_json` makes of `text` as a JSON value, read at `key`: `None`
/// when the text is not JSON at all, `Some(None)` when it has no string at
/// that key, else the string.
pub uninterp spec fn json_str_field(text: Seq<char>, key: Seq<char>) -> Option<Option<Seq<char>>>;

/// `serde_json::from_str::<Value>`, then `Value::get(key)` and `as_str`.
/// Claimed: the result is [`json_str_field`] of the two arguments, a
/// function of them alone; what counts as JSON is not stated.
#[verifier::external_body]
fn read_json_str(text: &str, key: &str) -> (r: Option<Option<String>>)
    ensures
        match r {
            None => json_str_field(text@, key@) is None,
            Some(None) => json_str_field(text@, key@) == Some(None::<Seq<char>>),
            Some(Some(s)) => json_str_field(text@, key@) == Some(Some(s@)),
        },
{
    match serde_json::from_str::<serde_json::Value>(text) {
        Ok(v) => Some(v.get(key).and_then(|s| s.as_str()).map(|s| s.to_string())),
        Err(_) => None,
    }
}

/// The string at `key` of JSON `text`, or `default` when there is none.
pub open spec fn field_or(text: Seq<char>, key: Seq<char>, default: Seq<char>) -> Seq<char> {
    match json_str_field(text, key) {
        Some(Some(s)) => s,
        _ => default,
    }
}

/// `invoke_agent`'s arguments, `{"subagent_type": .., "prompt": ..}`, as
/// (type, task). Text that is not JSON becomes the task of a `general`
/// sub-agent whole.
pub open spec fn invoke_args_spec(arguments: Seq<char>) -> (Seq<char>, Seq<char>) {
    if json_str_field(arguments, "subagent_type"@) is None {
        ("general"@, arguments)
    } else {
        (field_or(arguments, "subagent_type"@, "general"@), field_or(arguments, "prompt"@, Seq::empty()))
    }
}

pub fn parse_invoke_agent_args(arguments: &str) -> (r: (String, String))
    ensures
        (r.0@, r.1@) == invoke_args_spec(arguments@),
{
    match read_json_str(arguments, "subagent_type") {
        None => (lit("general"), lit(arguments)),
        Some(t) => {
            let kind = match t {
                Some(s) => s,
                None => lit("general"),
            };
            let prompt = match read_json_str(arguments, "prompt") {
                Some(Some(p)) => p,
                _ => String::new(),
            };
            (kind, prompt)
        },
    }
}

/// `load_skill`'s arguments, `{"name": ..}`: the name, or the whole text
/// when it is not JSON with a string `name`.
pub open spec fn load_skill_args_spec(arguments: Seq<char>) -> Seq<char> {
    field_or(arguments, "name"@, arguments)
}

pub fn parse_load_skill_args(arguments: &str) -> (r: String)
    ensures
        r@ == load_skill_args_spec(arguments@),
{
    match read_json_str(arguments, "name") {
        Some(Some(n)) => n,
        _ => lit(arguments),
    }
}


// ------------------------------------------------------- one model reply

/// One model reply, assembled from its stream.
pub struct Response {
    pub content: String,
    pub reasoning: String,
    pub tool_calls: Vec<crate::api::ToolCall>,
}

impl Response {
    pub fn new() -> (r: Response)
        ensures
            r.content@.len() == 0,
            r.reasoning@.len() == 0,
            r.tool_calls@.len() == 0,
    {
        Response { content: String::new(), reasoning: String::new(), tool_calls: Vec::new() }
    }

    /// Fold one stream item in: text and reasoning are appended, tool calls
    /// collected; finish and usage items leave the reply as it is.
    pub fn absorb(&mut self, item: crate::api::StreamItem)
        ensures
            match item {
                crate::api::StreamItem::Reasoning(r) => final(self).reasoning@ == old(self).reasoning@ + r@
                    && final(self).content@ == old(self).content@ && final(self).tool_calls@ == old(self).tool_calls@,
                crate::api::StreamItem::Content(c) => final(self).content@ == old(self).content@ + c@
                    && final(self).reasoning@ == old(self).reasoning@ && final(self).tool_calls@ == old(self).tool_calls@,
                crate::api::StreamItem::ToolCall(tc) => final(self).tool_calls@ == old(self).tool_calls@.push(tc)
                    && final(self).content@ == old(self).content@ && final(self).reasoning@ == old(self).reasoning@,
                _ => final(self).content@ == old(self).content@ && final(self).reasoning@ == old(self).reasoning@
                    && final(self).tool_calls@ == old(self).tool_calls@,
            },
    {
        match item {
            crate::api::StreamItem::Reasoning(r) => push_str(&mut self.reasoning, r.as_str()),
            crate::api::StreamItem::Content(c) => push_str(&mut self.content, c.as_str()),
            crate::api::StreamItem::ToolCall(tc) => self.tool_calls.push(tc),
            _ => {},
        }
    }
}

/// The share of prompt tokens served from the cache, in whole percent; 0
/// when the prompt was empty or the product does not fit.
pub fn cache_hit_percent(hit: u64, prompt: u64) -> (p: u64)
    ensures
        p == (if prompt == 0 || hit * 100 > u64::MAX { 0 } else { ((hit * 100) / (prompt as int)) as u64 }),
{
    match hit.checked_mul(100) {
        Some(n) => match n.checked_div(prompt) {
            Some(q) => q,
            None => 0,
        },
        None => 0,
    }
}

/// The status as a trajectory records it: its name in lower case.
pub fn status_name(status: LoopStatus) -> (s: &'static str)
    ensures
        s@ == (match status {
            LoopStatus::Completed => "completed"@,
            LoopStatus::MaxIterations => "maxiterations"@,
            LoopStatus::Interrupted => "interrupted"@,
            LoopStatus::BudgetExhausted => "budgetexhausted"@,
        }),
{
    match status {
        LoopStatus::Completed => "completed",
        LoopStatus::MaxIterations => "maxiterations",
        LoopStatus::Interrupted => "interrupted",
        LoopStatus::BudgetExhausted => "budgetexhausted",
    }
}

/// How an installed skill's state reads in the extension listing: a skill
/// does nothing until activated.
pub fn skill_state(active: bool) -> (s: &'static str)
    ensures
        s@ == (if active { "active in this conversation"@ } else { "installed, not activated"@ }),
{
    if active {
        "active in this conversation"
    } else {
        "installed, not activated"
    }
}

/// How a configured MCP server's state reads: disabled, connected with its
/// tool count, or enabled yet absent from the registry (it failed to start).
pub fn mcp_state(enabled: bool, tools: Option<usize>) -> (s: String)
    ensures
        s@ == (if !enabled {
            "disabled in config"@
        } else {
            match tools {
                Some(n) => "connected, "@ + decimal_spec(n as nat) + " tool(s)"@,
                None => "enabled but not connected"@,
            }
        }),
{
    if !enabled {
        return lit("disabled in config");
    }
    match tools {
        Some(n) => {
            let mut s = lit("connected, ");
            push_str(&mut s, decimal(n as u64).as_str());
            push_str(&mut s, " tool(s)");
            s
        },
        None => lit("enabled but not connected"),
    }
}


/// Where a tool on the effective surface came from: `mcp:<server>` for a
/// namespaced MCP tool, `built-in` for one of `builtin`, and otherwise the
/// active skill, the only other way a tool reaches the surface.
pub open spec fn tool_source_spec(name: Seq<char>, builtin: Seq<Seq<char>>) -> Seq<char> {
    match crate::mcp::server_of_spec(name) {
        Some(server) => "mcp:"@ + server,
        None => if builtin.contains(name) { "built-in"@ } else { "skill"@ },
    }
}

/// The source label of tool `name`, given the names of the built-in tools.
pub fn tool_source(name: &str, builtin: &[String]) -> (r: String)
    ensures
        r@ == tool_source_spec(name@, crate::text::strings_view(builtin@)),
{
    match crate::mcp::server_of(name) {
        Some(server) => {
            let mut r = lit("mcp:");
            push_str(&mut r, server.as_str());
            r
        },
        None => {
            let ghost bv = crate::text::strings_view(builtin@);
            let mut i: usize = 0;
            while i < builtin.len()
                invariant
                    i <= builtin@.len(),
                    bv == crate::text::strings_view(builtin@),
                    crate::mcp::server_of_spec(name@) is None,
                    forall|j: int| 0 <= j < i ==> bv[j] != name@,
                decreases builtin.len() - i,
            {
                if str_eq(builtin[i].as_str(), name) {
                    assert(bv[i as int] == name@);
                    assert(bv.contains(name@));
                    return lit("built-in");
                }
                i += 1;
            }
            assert(!bv.contains(name@));
            lit("skill")
        },
    }
}

/// Whether an event is a compaction record.
pub open spec fn is_compaction(e: crate::session::SessionEvent) -> bool {
    e.payload is Compaction
}

/// How many compactions a session log records.
pub fn count_compactions(events: &[crate::session::SessionEvent]) -> (n: usize)
    ensures
        n == events@.filter(|e: crate::session::SessionEvent| is_compaction(e)).len(),
{
    let ghost pred = |e: crate::session::SessionEvent| is_compaction(e);
    let mut n: usize = 0;
    let mut i: usize = 0;
    while i < events.len()
        invariant
            i <= events@.len(),
            pred == (|e: crate::session::SessionEvent| is_compaction(e)),
            n == events@.take(i as int).filter(pred).len(),
            n <= i,
        decreases events.len() - i,
    {
        proof {
            events@.take(i as int).lemma_filter_push(events@[i as int], pred);
            assert(events@.take(i as int).push(events@[i as int]) =~= events@.take(i + 1));
        }
        if let EventPayload::Compaction { .. } = &events[i].payload {
            n += 1;
        }
        i += 1;
    }
    assert(events@.take(i as int) =~= events@);
    n
}


/// The names of `tools`, in order.
pub open spec fn tool_names(tools: Seq<crate::api::Tool>) -> Seq<Seq<char>> {
    tools.map_values(|t: crate::api::Tool| t.function.name@)
}

fn has_tool_named(tools: &Vec<crate::api::Tool>, name: &str) -> (b: bool)
    ensures
        b == tool_names(tools@).contains(name@),
{
    let mut i: usize = 0;
    while i < tools.len()
        invariant
            i <= tools@.len(),
            forall|j: int| 0 <= j < i ==> tool_names(tools@)[j] != name@,
        decreases tools.len() - i,
    {
        if str_eq(tools[i].function.name.as_str(), name) {
            assert(tool_names(tools@)[i as int] == name@);
            return true;
        }
        i += 1;
    }
    false
}

/// Narrow a tool surface to a skill's `allowed_tools`: the tools whose name
/// is allowed, in surface order, and the allowed names that match no tool
/// (a typo, or a tool this host does not offer), in the order given.
pub fn narrow_to_skill(tools: Vec<crate::api::Tool>, allowed: &Vec<String>) -> (r: (Vec<crate::api::Tool>, Vec<String>))
    ensures
        r.0@ == tools@.filter(|t: crate::api::Tool| crate::text::strings_view(allowed@).contains(t.function.name@)),
        crate::text::strings_view(r.1@) == crate::text::strings_view(allowed@).filter(
            |n: Seq<char>| !tool_names(tools@).contains(n),
        ),
{
    let ghost av = crate::text::strings_view(allowed@);
    let ghost all = tools@;
    let ghost keep = |t: crate::api::Tool| av.contains(t.function.name@);
    let ghost miss = |n: Seq<char>| !tool_names(all).contains(n);
    let mut unknown: Vec<String> = Vec::new();
    let mut k: usize = 0;
    while k < allowed.len()
        invariant
            k <= allowed@.len(),
            av == crate::text::strings_view(allowed@),
            all == tools@,
            miss == (|n: Seq<char>| !tool_names(all).contains(n)),
            crate::text::strings_view(unknown@) == av.take(k as int).filter(miss),
        decreases allowed.len() - k,
    {
        proof {
            av.take(k as int).lemma_filter_push(av[k as int], miss);
            assert(av.take(k as int).push(av[k as int]) =~= av.take(k + 1));
        }
        if !has_tool_named(&tools, allowed[k].as_str()) {
            let ghost before = unknown@;
            unknown.push(allowed[k].clone());
            assert(crate::text::strings_view(unknown@) =~= crate::text::strings_view(before).push(av[k as int]));
        }
        k += 1;
    }
    assert(av.take(k as int) =~= av);
    let n = tools.len();
    let mut rest = tools;
    let mut kept: Vec<crate::api::Tool> = Vec::new();
    let mut i: usize = 0;
    assert(all.skip(0) =~= all);
    while rest.len() > 0
        invariant
            i + rest@.len() == all.len(),
            all.len() == n,
            rest@ == all.skip(i as int),
            av == crate::text::strings_view(allowed@),
            keep == (|t: crate::api::Tool| av.contains(t.function.name@)),
            kept@ == all.take(i as int).filter(keep),
        decreases rest@.len(),
    {
        let ghost before = rest@;
        let t = rest.remove(0);
        assert(t == all[i as int]);
        proof {
            all.take(i as int).lemma_filter_push(all[i as int], keep);
            assert(all.take(i as int).push(all[i as int]) =~= all.take(i + 1));
            assert(rest@ =~= all.skip(i + 1));
        }
        let mut found = false;
        let mut j: usize = 0;
        while j < allowed.len()
            invariant
                j <= allowed@.len(),
                av == crate::text::strings_view(allowed@),
                found == (exists|m: int| 0 <= m < j && av[m] == t.function.name@),
            decreases allowed.len() - j,
        {
            if str_eq(allowed[j].as_str(), t.function.name.as_str()) {
                assert(av[j as int] == t.function.name@);
                found = true;
            }
            j += 1;
        }
        proof {
            if found {
                let m = choose|m: int| 0 <= m < j && av[m] == t.function.name@;
                assert(av.contains(t.function.name@));
            } else {
                assert(!av.contains(t.function.name@));
            }
        }
        if found {
            kept.push(t);
        }
        i += 1;
    }
    assert(all.take(i as int) =~= all);
    (kept, unknown)
}

/// The tool surface of a turn. A sub-agent (`depth > 0`) takes its
/// template's list as it is, never widened by the host; the main agent takes
/// the `assembled` surface (built-ins with the skill's tools, memory, MCP,
/// research), narrowed to the active skill's `allowed_tools` if it has any.
/// The second part lists allowed names that matched nothing.
pub fn effective_tool_surface(
    template: Option<Vec<crate::api::Tool>>,
    depth: usize,
    assembled: Vec<crate::api::Tool>,
    allowed: Option<&Vec<String>>,
) -> (r: (Vec<crate::api::Tool>, Vec<String>))
    ensures
        depth > 0 ==> r.0@ == (match template {
            Some(t) => t@,
            None => Seq::empty(),
        }) && r.1@.len() == 0,
        depth == 0 ==> match allowed {
            None => r.0@ == assembled@ && r.1@.len() == 0,
            Some(a) => r.0@ == assembled@.filter(|t: crate::api::Tool| crate::text::strings_view(a@).contains(t.function.name@))
                && crate::text::strings_view(r.1@) == crate::text::strings_view(a@).filter(
                |n: Seq<char>| !tool_names(assembled@).contains(n),
            ),
        },
{
    if depth > 0 {
        return match template {
            Some(t) => (t, Vec::new()),
            None => (Vec::new(), Vec::new()),
        };
    }
    match allowed {
        None => (assembled, Vec::new()),
        Some(a) => narrow_to_skill(assembled, a),
    }
}

/// What is said about a narrowed surface: allowed names that match no tool,
/// and a surface narrowed to nothing.
pub fn surface_warnings(kept: usize, unknown: &Vec<String>) -> (r: Vec<String>)
    ensures
        crate::text::strings_view(r@) == (if unknown@.len() > 0 {
            seq!["[Skill] skill declares tool(s) that are not on the surface: "@ + join_spec(crate::text::strings_view(unknown@), ", "@)]
        } else {
            Seq::empty()
        }) + (if kept == 0 {
            seq!["[Skill] `allowed_tools` matched nothing \u{2014} this turn runs with no tools at all"@]
        } else {
            Seq::empty()
        }),
{
    let mut r: Vec<String> = Vec::new();
    if unknown.len() > 0 {
        let mut m = lit("[Skill] skill declares tool(s) that are not on the surface: ");
        push_str(&mut m, join(unknown.as_slice(), ", ").as_str());
        r.push(m);
    }
    let ghost first = crate::text::strings_view(r@);
    if kept == 0 {
        r.push(lit("[Skill] `allowed_tools` matched nothing \u{2014} this turn runs with no tools at all"));
        assert(crate::text::strings_view(r@) =~= first + seq!["[Skill] `allowed_tools` matched nothing \u{2014} this turn runs with no tools at all"@]);
    } else {
        assert(crate::text::strings_view(r@) =~= first + Seq::<Seq<char>>::empty());
    }
    proof {
        if unknown@.len() > 0 {
            assert(first =~= seq!["[Skill] skill declares tool(s) that are not on the surface: "@ + join_spec(crate::text::strings_view(unknown@), ", "@)]);
        } else {
            assert(first =~= Seq::<Seq<char>>::empty());
        }
    }
    r
}


/// A tool result's text with a note for each image that could not be
/// stored, one per line.
pub open spec fn with_image_failures(content: Seq<char>, failures: Seq<Seq<char>>) -> Seq<char>
    decreases failures.len(),
{
    if failures.len() == 0 {
        content
    } else {
        let before = with_image_failures(content, failures.drop_last());
        (if before.len() > 0 { before + "\n"@ } else { before }) + "[an image could not be stored: "@ + failures.last() + "]"@
    }
}

/// Record a tool result: the message enters the working set with the images
/// that were stored, the event enters the run's record with their stored
/// references, and each image that could not be stored is noted in the text
/// instead of vanishing. `stored` pairs each kept image with its reference.
pub fn push_tool_response(
    messages: &mut Vec<Message>,
    events: &mut Vec<EventPayload>,
    call_id: String,
    content: String,
    stored: Vec<(crate::api::ImagePart, crate::session::ImageRef)>,
    failures: &Vec<String>,
)
    ensures
        messages_view(final(messages)@) == messages_view(old(messages)@).push(
            MessageView::ToolResponse {
                role: "tool"@,
                content: with_image_failures(content@, crate::text::strings_view(failures@)),
                tool_call_id: call_id@,
                images: crate::api::images_view(stored@.map_values(|p: (crate::api::ImagePart, crate::session::ImageRef)| p.0)),
            },
        ),
        payloads_view(final(events)@) == payloads_view(old(events)@).push(
            PayloadView::ToolResult {
                call_id: call_id@,
                content: with_image_failures(content@, crate::text::strings_view(failures@)),
                images: crate::session::refs_view(stored@.map_values(|p: (crate::api::ImagePart, crate::session::ImageRef)| p.1)),
            },
        ),
{
    let ghost fv = crate::text::strings_view(failures@);
    let mut text = content;
    let mut k: usize = 0;
    while k < failures.len()
        invariant
            k <= failures@.len(),
            fv == crate::text::strings_view(failures@),
            text@ == with_image_failures(content@, fv.take(k as int)),
        decreases failures.len() - k,
    {
        assert(fv.take(k + 1).drop_last() =~= fv.take(k as int));
        assert(fv.take(k + 1).last() == failures@[k as int]@);
        let ghost before = text@;
        if !text.as_str().is_empty() {
            push_char(&mut text, '\n');
        }
        push_str(&mut text, "[an image could not be stored: ");
        push_str(&mut text, failures[k].as_str());
        push_str(&mut text, "]");
        proof {
            reveal_strlit("\n");
            assert(text@ =~= (if before.len() > 0 { before + "\n"@ } else { before }) + "[an image could not be stored: "@
                + failures@[k as int]@ + "]"@);
        }
        k += 1;
    }
    assert(fv.take(k as int) =~= fv);
    let ghost sv = stored@;
    let mut kept: Vec<crate::api::ImagePart> = Vec::new();
    let mut refs: Vec<crate::session::ImageRef> = Vec::new();
    let mut rest = stored;
    let mut i: usize = 0;
    let n = rest.len();
    assert(sv.skip(0) =~= sv);
    while rest.len() > 0
        invariant
            i + rest@.len() == sv.len(),
            sv.len() == n,
            rest@ == sv.skip(i as int),
            kept@ == sv.take(i as int).map_values(|p: (crate::api::ImagePart, crate::session::ImageRef)| p.0),
            refs@ == sv.take(i as int).map_values(|p: (crate::api::ImagePart, crate::session::ImageRef)| p.1),
        decreases rest@.len(),
    {
        let (img, r) = rest.remove(0);
        assert(rest@ =~= sv.skip(i + 1));
        kept.push(img);
        refs.push(r);
        assert(kept@ =~= sv.take(i + 1).map_values(|p: (crate::api::ImagePart, crate::session::ImageRef)| p.0));
        assert(refs@ =~= sv.take(i + 1).map_values(|p: (crate::api::ImagePart, crate::session::ImageRef)| p.1));
        i += 1;
    }
    assert(sv.take(i as int) =~= sv);
    let ghost tv = text@;
    let ghost rv = refs@;
    messages.push(Message::new_tool_response(call_id.clone(), text.clone(), kept));
    assert(messages_view(messages@) =~= messages_view(old(messages)@).push(messages@.last()@));
    events.push(EventPayload::ToolResult { call_id, content: text, images: refs });
    assert(payloads_view(events@) =~= payloads_view(old(events)@).push(events@.last()@));
}

} // verus!

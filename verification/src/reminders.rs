//! Reminders that break doom loops.
//!
//! A model fixated on a failing action keeps repeating it: the most recent
//! repeated result dominates its next decision far more than rules at the
//! top of the context. Each turn's tool-call trajectory is compared with the
//! previous one, and once the same trajectory has repeated too often a
//! high-priority user message is injected right at the point of decision.

use vstd::prelude::*;

use crate::api::{ToolCall, ToolCallView, calls_view};
use crate::text::{lit, str_eq};

verus! {

/// Consecutive repeats (beyond the first occurrence) of one trajectory
/// before a reminder fires: the trajectory must appear three times in a row.
pub const REPEAT_THRESHOLD: u32 = 2;

pub const REMINDER: &'static str = "\u{26a0}\u{fe0f} [System] You have repeated the same tool call(s) several times with the same result. This path is not working. STOP retrying it. Step back and either (a) try a fundamentally different approach, (b) gather new information with a different tool, or (c) report the obstacle to the user and ask how to proceed.";

/// What identifies a call in a trajectory: its name and arguments. The id
/// is unique per call and would defeat repetition detection.
pub type CallKey = (Seq<char>, Seq<char>);

pub open spec fn call_key(c: ToolCallView) -> CallKey {
    (c.name, c.arguments)
}

/// The trajectory of a turn: the keys of its calls, in order.
pub open spec fn trajectory(calls: Seq<ToolCallView>) -> Seq<CallKey> {
    calls.map_values(|c: ToolCallView| call_key(c))
}

/// The tracker's state: the last trajectory seen and how many times in a row
/// it has repeated since it was first seen or last fired.
pub struct ReminderState {
    pub last: Option<Seq<CallKey>>,
    pub repeats: nat,
}

/// One observation: the next state, and whether a reminder fires.
///
/// A turn with no calls resets the tracker (the model made progress). A
/// repeat of the last trajectory counts up; another trajectory starts a new
/// run. Reaching the threshold fires and restarts the count, so the next
/// reminder needs a fresh run of repeats.
pub open spec fn observe_spec(s: ReminderState, calls: Seq<ToolCallView>) -> (ReminderState, bool) {
    if calls.len() == 0 {
        (ReminderState { last: None, repeats: 0 }, false)
    } else {
        let t = trajectory(calls);
        let repeats: nat = if s.last == Some(t) { s.repeats + 1 } else { 0 };
        if repeats >= REPEAT_THRESHOLD {
            (ReminderState { last: Some(t), repeats: 0 }, true)
        } else {
            (ReminderState { last: Some(t), repeats }, false)
        }
    }
}

/// Tracks the recent tool-call trajectory to detect doom loops.
pub struct ReminderInjector {
    last: Option<Vec<(String, String)>>,
    repeat_count: u32,
}

pub open spec fn keys_view(v: Seq<(String, String)>) -> Seq<CallKey> {
    v.map_values(|k: (String, String)| (k.0@, k.1@))
}

impl View for ReminderInjector {
    type V = ReminderState;

    closed spec fn view(&self) -> ReminderState {
        ReminderState {
            last: match self.last {
                Some(v) => Some(keys_view(v@)),
                None => None,
            },
            repeats: self.repeat_count as nat,
        }
    }
}

fn keys_of(calls: &[ToolCall]) -> (r: Vec<(String, String)>)
    ensures
        keys_view(r@) == trajectory(calls_view(calls@)),
{
    let mut r: Vec<(String, String)> = Vec::new();
    let mut i: usize = 0;
    while i < calls.len()
        invariant
            i <= calls@.len(),
            r@.len() == i,
            forall|j: int| 0 <= j < i ==> #[trigger] r@[j].0@ == calls@[j].function.name@
                && r@[j].1@ == calls@[j].function.arguments@,
        decreases calls.len() - i,
    {
        r.push((calls[i].function.name.clone(), calls[i].function.arguments.clone()));
        i += 1;
    }
    assert(keys_view(r@) =~= trajectory(calls_view(calls@)));
    r
}

fn same_keys(a: &Vec<(String, String)>, b: &Vec<(String, String)>) -> (r: bool)
    ensures
        r == (keys_view(a@) == keys_view(b@)),
{
    if a.len() != b.len() {
        assert(keys_view(a@).len() != keys_view(b@).len());
        return false;
    }
    let mut i: usize = 0;
    while i < a.len()
        invariant
            a@.len() == b@.len(),
            i <= a@.len(),
            forall|j: int| 0 <= j < i ==> #[trigger] keys_view(a@)[j] == keys_view(b@)[j],
        decreases a.len() - i,
    {
        if !str_eq(a[i].0.as_str(), b[i].0.as_str()) || !str_eq(a[i].1.as_str(), b[i].1.as_str()) {
            assert(keys_view(a@)[i as int] != keys_view(b@)[i as int]);
            return false;
        }
        i += 1;
    }
    assert(keys_view(a@) =~= keys_view(b@));
    true
}

impl ReminderInjector {
    /// The count never reaches the threshold between observations.
    #[verifier::type_invariant]
    spec fn wf(&self) -> bool {
        self.repeat_count < REPEAT_THRESHOLD
    }

    pub fn new() -> (r: Self)
        ensures
            r@ == (ReminderState { last: None, repeats: 0 }),
    {
        ReminderInjector { last: None, repeat_count: 0 }
    }

    /// Record the tool-call trajectory of a just-completed turn; the
    /// reminder to inject as a user message when the same trajectory has
    /// repeated past the threshold.
    pub fn observe(&mut self, tool_calls: &[ToolCall]) -> (r: Option<String>)
        ensures
            final(self)@ == observe_spec(old(self)@, calls_view(tool_calls@)).0,
            r is Some == observe_spec(old(self)@, calls_view(tool_calls@)).1,
            r matches Some(m) ==> m@ == REMINDER@,
    {
        proof {
            use_type_invariant(&*self);
        }
        if tool_calls.len() == 0 {
            self.last = None;
            self.repeat_count = 0;
            return None;
        }
        let keys = keys_of(tool_calls);
        let same = match &self.last {
            Some(prev) => same_keys(prev, &keys),
            None => false,
        };
        let repeats = if same { self.repeat_count + 1 } else { 0 };
        self.last = Some(keys);
        if repeats >= REPEAT_THRESHOLD {
            self.repeat_count = 0;
            Some(lit(REMINDER))
        } else {
            self.repeat_count = repeats;
            None
        }
    }
}

impl Default for ReminderInjector {
    fn default() -> (r: Self)
        ensures
            r@ == (ReminderState { last: None, repeats: 0 }),
    {
        ReminderInjector::new()
    }
}

/// Three identical non-empty turns fire a reminder on the third and only
/// there, whenever the first of them starts a new run.
pub proof fn third_identical_turn_fires(s: ReminderState, calls: Seq<ToolCallView>)
    requires
        calls.len() > 0,
        s.last != Some(trajectory(calls)),
    ensures
        ({
            let (s1, f1) = observe_spec(s, calls);
            let (s2, f2) = observe_spec(s1, calls);
            let (s3, f3) = observe_spec(s2, calls);
            !f1 && !f2 && f3 && s3 == ReminderState { last: Some(trajectory(calls)), repeats: 0 }
        }),
{
}

/// After a reminder fires, the same trajectory must repeat twice more
/// before the next one: the turn right after a reminder never fires.
pub proof fn fires_again_only_after_a_fresh_run(s: ReminderState, calls: Seq<ToolCallView>)
    requires
        calls.len() > 0,
        observe_spec(s, calls).1,
    ensures
        !observe_spec(observe_spec(s, calls).0, calls).1,
        observe_spec(observe_spec(observe_spec(s, calls).0, calls).0, calls).1,
{
}

/// A turn whose trajectory differs from the last one never fires, and a turn
/// without calls resets the tracker.
pub proof fn only_repeats_fire(s: ReminderState, calls: Seq<ToolCallView>)
    ensures
        s.last != Some(trajectory(calls)) ==> !observe_spec(s, calls).1,
        calls.len() == 0 ==> observe_spec(s, calls) == (ReminderState { last: None, repeats: 0 }, false),
{
}

/// Call ids play no part: two turns whose calls agree on names and
/// arguments are observed alike.
pub proof fn ids_do_not_matter(s: ReminderState, a: Seq<ToolCallView>, b: Seq<ToolCallView>)
    requires
        a.len() == b.len(),
        forall|i: int| 0 <= i < a.len() ==> #[trigger] call_key(a[i]) == call_key(b[i]),
    ensures
        observe_spec(s, a) == observe_spec(s, b),
{
    assert(trajectory(a) =~= trajectory(b));
}

/// The tracker after observing `hs` in order from a fresh start, and whether
/// the last observation fired.
pub open spec fn observe_all(hs: Seq<Seq<ToolCallView>>) -> (ReminderState, bool)
    decreases hs.len(),
{
    if hs.len() == 0 {
        (ReminderState { last: None, repeats: 0 }, false)
    } else {
        observe_spec(observe_all(hs.drop_last()).0, hs.last())
    }
}

proof fn lemma_reachable(hs: Seq<Seq<ToolCallView>>)
    ensures
        ({
            let s = observe_all(hs).0;
            &&& s.repeats < REPEAT_THRESHOLD
            &&& s.last == (if hs.len() > 0 && hs.last().len() > 0 { Some(trajectory(hs.last())) } else { None::<Seq<CallKey>> })
            &&& s.repeats == 1 ==> hs.len() >= 2 && trajectory(hs[hs.len() - 2]) == trajectory(hs.last())
        }),
    decreases hs.len(),
{
    if hs.len() > 0 {
        lemma_reachable(hs.drop_last());
        let p = hs.drop_last();
        if p.len() > 0 {
            assert(p.last() == hs[hs.len() - 2]);
        }
    }
}

/// A reminder needs three identical turns in a row: an observation fires
/// only when its batch has calls and the two batches before it had the same
/// calls (names and arguments, ids aside), and never right after another
/// reminder. So an empty batch, or any change of calls, holds the next two
/// observations silent.
pub proof fn a_reminder_needs_three_identical_turns(hs: Seq<Seq<ToolCallView>>)
    requires
        hs.len() > 0,
    ensures
        observe_all(hs).1 ==> {
            &&& hs.len() >= 3
            &&& hs.last().len() > 0
            &&& trajectory(hs[hs.len() - 2]) == trajectory(hs.last())
            &&& trajectory(hs[hs.len() - 3]) == trajectory(hs.last())
            &&& !observe_all(hs.drop_last()).1
        },
{
    let p = hs.drop_last();
    lemma_reachable(p);
    if observe_all(hs).1 {
        let s = observe_all(p).0;
        assert(hs.last().len() > 0);
        assert(s.last == Some(trajectory(hs.last())));
        assert(s.repeats == 1);
        assert(p.len() >= 2);
        assert(p.last() == hs[hs.len() - 2]);
        assert(p[p.len() - 2] == hs[hs.len() - 3]);
        let pp = p.drop_last();
        lemma_reachable(pp);
        if observe_all(p).1 {
            assert(observe_all(p).0.repeats == 0);
        }
    }
}

} // verus!

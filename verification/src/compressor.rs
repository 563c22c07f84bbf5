//! Staged-degradation context compression for long ReAct loops.
//!
//! Drop redundant *data* while preserving *intent*: a tool result is never
//! separated from the call that produced it.
//!
//!   Stage 0  Leading system messages are kept verbatim.
//!   Stage 1  MASK: in the far history, bulky tool result bodies are replaced
//!            by a short placeholder; the originating tool calls stay.
//!   Stage 2  HEAD-TAIL TRUNCATE: inside the protected tail, an oversized tool
//!            result is clipped to its first and last bytes.
//!   Stage 3  SUMMARIZE: only if stages 1-2 leave the conversation over the
//!            threshold, the middle is handed to a model for a summary, which
//!            then replaces it (see [`splice_summary`]).
//!
//! Markers make every stage idempotent.

use vstd::prelude::*;

use crate::api::{
    Message, MessageView, content_of_view, messages_view, system_view,
};
use crate::text::{
    char_width, chars_of, contains, contains_spec, decimal, decimal_spec, lit, occurs_at,
    push_str, starts_with, string_of, utf8_len,
};
use crate::tokens::{clamp, messages_cost, Heuristic};

verus! {

/// Only mask far-history tool results larger than this many bytes.
pub const MASK_MIN_BYTES: usize = 500;

/// Head-tail truncate working-memory tool results larger than this...
pub const TAIL_TOOL_LIMIT: usize = 1000;

/// ...keeping this many bytes from each end.
pub const TAIL_KEEP_EACH: usize = 500;

/// Prefix of an already-masked far-history tool result.
pub open spec fn mask_marker() -> Seq<char> {
    "[tool output masked"@
}

/// Marker embedded in a head-tail-truncated body.
pub open spec fn trunc_marker() -> Seq<char> {
    "[...truncated"@
}

// ------------------------------------------------------------------ bytes

/// Bytes taken by the first `k` chars of `s`.
pub open spec fn prefix_bytes(s: Seq<char>, k: int) -> nat {
    utf8_len(s.take(k))
}

/// Advance over `s` from char `k` (having used `used` bytes) while the next
/// char still fits within `limit` bytes; the char count reached.
pub open spec fn fit_count(s: Seq<char>, limit: nat, k: nat, used: nat) -> nat
    decreases s.len() - k,
{
    if k < s.len() && used + char_width(s[k as int]) <= limit {
        fit_count(s, limit, k + 1, used + char_width(s[k as int]))
    } else {
        k
    }
}

/// Advance over `s` from char `k` while fewer than `target` bytes are used;
/// the char count reached.
pub open spec fn reach_count(s: Seq<char>, target: nat, k: nat, used: nat) -> nat
    decreases s.len() - k,
{
    if k < s.len() && used < target {
        reach_count(s, target, k + 1, used + char_width(s[k as int]))
    } else {
        k
    }
}

/// Number of chars of the longest prefix that fits in `limit` bytes: the
/// largest char boundary at or below `limit`.
pub open spec fn floor_count(s: Seq<char>, limit: nat) -> nat {
    fit_count(s, limit, 0, 0)
}

/// Number of chars of the shortest prefix of at least `target` bytes (or all
/// of `s`): the smallest char boundary at or above `target`.
pub open spec fn ceil_count(s: Seq<char>, target: nat) -> nat {
    reach_count(s, target, 0, 0)
}

proof fn lemma_prefix_step(s: Seq<char>, k: int)
    requires
        0 <= k < s.len(),
    ensures
        prefix_bytes(s, k + 1) == prefix_bytes(s, k) + char_width(s[k]),
{
    assert(s.take(k + 1).drop_last() =~= s.take(k));
}

/// Byte length of `s`, as `str::len` reports it, saturating at `usize::MAX`.
pub fn utf8_length(s: &[char]) -> (n: usize)
    ensures
        n == clamp(utf8_len(s@)),
{
    let len = s.len();
    let mut acc: u128 = 0;
    let mut i: usize = 0;
    while i < len
        invariant
            len == s@.len(),
            i <= len,
            acc == prefix_bytes(s@, i as int),
            acc <= 4 * i,
        decreases len - i,
    {
        proof { lemma_prefix_step(s@, i as int); }
        acc = acc + crate::text::char_len_utf8(s[i]) as u128;
        i += 1;
    }
    assert(s@.take(len as int) =~= s@);
    if acc > usize::MAX as u128 {
        usize::MAX
    } else {
        acc as usize
    }
}

/// The largest char boundary at or below `idx`: `(bytes, chars)`.
pub(crate) fn floor_in(s: &[char], idx: usize) -> (r: (usize, usize))
    ensures
        r.1 == floor_count(s@, idx as nat),
        r.0 == prefix_bytes(s@, r.1 as int),
        r.0 <= idx,
        r.1 <= s@.len(),
{
    let len = s.len();
    let mut used: usize = 0;
    let mut k: usize = 0;
    while k < len && used as u128 + crate::text::char_len_utf8(s[k]) as u128 <= idx as u128
        invariant
            len == s@.len(),
            k <= len,
            used <= idx,
            used == prefix_bytes(s@, k as int),
            fit_count(s@, idx as nat, 0, 0) == fit_count(s@, idx as nat, k as nat, used as nat),
        decreases len - k,
    {
        proof { lemma_prefix_step(s@, k as int); }
        used = used + crate::text::char_len_utf8(s[k]);
        k += 1;
    }
    (used, k)
}

/// The smallest char boundary at or above `target` (or the end): `(bytes, chars)`.
fn ceil_in(s: &[char], target: usize) -> (r: (usize, usize))
    ensures
        r.1 == ceil_count(s@, target as nat),
        r.0 == clamp(prefix_bytes(s@, r.1 as int)),
        r.1 <= s@.len(),
{
    let len = s.len();
    let mut used: u128 = 0;
    let mut k: usize = 0;
    while k < len && used < target as u128
        invariant
            len == s@.len(),
            k <= len,
            used == prefix_bytes(s@, k as int),
            used <= target + 4,
            reach_count(s@, target as nat, 0, 0) == reach_count(s@, target as nat, k as nat, used as nat),
        decreases len - k,
    {
        proof { lemma_prefix_step(s@, k as int); }
        used = used + crate::text::char_len_utf8(s[k]) as u128;
        k += 1;
    }
    let b = if used > usize::MAX as u128 { usize::MAX } else { used as usize };
    (b, k)
}

/// Largest char boundary of `s` at or below byte `idx`.
pub fn floor_boundary(s: &str, idx: usize) -> (b: usize)
    ensures
        b == prefix_bytes(s@, floor_count(s@, idx as nat) as int),
        b <= idx,
{
    let cs = chars_of(s);
    floor_in(cs.as_slice(), idx).0
}

/// Smallest char boundary of `s` at or above byte `min(idx, len)`.
pub fn ceil_boundary(s: &str, idx: usize) -> (b: usize)
    ensures
        b == clamp(prefix_bytes(s@, ceil_count(s@, min_nat(idx as nat, clamp(utf8_len(s@)) as nat)) as int)),
{
    let cs = chars_of(s);
    let n = utf8_length(cs.as_slice());
    let target = if idx < n { idx } else { n };
    ceil_in(cs.as_slice(), target).0
}

pub open spec fn min_nat(a: nat, b: nat) -> nat {
    if a < b { a } else { b }
}

// --------------------------------------------------------- stage 2 (tail)

/// The head-tail truncation of `s`: its first `TAIL_KEEP_EACH` bytes and its
/// last `TAIL_KEEP_EACH` bytes (each widened to whole chars), joined by a
/// marker line that says how many bytes were dropped.
pub open spec fn head_tail_spec(s: Seq<char>) -> Seq<char> {
    let n = clamp(utf8_len(s)) as nat;
    let h = floor_count(s, TAIL_KEEP_EACH as nat);
    let t = ceil_count(s, (n - TAIL_KEEP_EACH) as nat);
    let hb = prefix_bytes(s, h as int);
    let tb = clamp(prefix_bytes(s, t as int)) as nat;
    let dropped: nat = if tb >= hb { (tb - hb) as nat } else { 0 };
    s.take(h as int) + "\n"@ + trunc_marker() + " "@ + decimal_spec(dropped)
        + " bytes from the middle...]\n"@ + s.skip(t as int)
}

fn head_tail_chars(cs: &[char]) -> (r: String)
    requires
        utf8_len(cs@) >= TAIL_KEEP_EACH,
    ensures
        r@ == head_tail_spec(cs@),
{
    let n = utf8_length(cs);
    let (head_end, h) = floor_in(cs, TAIL_KEEP_EACH);
    let (tail_start, t) = ceil_in(cs, n - TAIL_KEEP_EACH);
    let dropped = if tail_start >= head_end { tail_start - head_end } else { 0 };
    let mut out = string_of(&cs[0..h]);
    push_str(&mut out, "\n");
    push_str(&mut out, "[...truncated");
    push_str(&mut out, " ");
    let d = decimal(dropped as u64);
    push_str(&mut out, d.as_str());
    push_str(&mut out, " bytes from the middle...]\n");
    let tail = string_of(&cs[t..cs.len()]);
    push_str(&mut out, tail.as_str());
    assert(cs@.subrange(0, h as int) =~= cs@.take(h as int));
    assert(cs@.subrange(t as int, cs@.len() as int) =~= cs@.skip(t as int));
    out
}

/// Keep the first and last `TAIL_KEEP_EACH` bytes of `content`, dropping the
/// middle: for error output the cause is at the top and the summary at the
/// bottom.
pub fn head_tail_truncate(content: &str) -> (r: String)
    requires
        utf8_len(content@) >= TAIL_KEEP_EACH,
    ensures
        r@ == head_tail_spec(content@),
{
    let cs = chars_of(content);
    head_tail_chars(cs.as_slice())
}

/// Whether a tool result in the working tail is clipped.
pub open spec fn needs_truncation(c: Seq<char>) -> bool {
    utf8_len(c) > TAIL_TOOL_LIMIT && !contains_spec(c, trunc_marker())
}

/// Stage 2 applied to one message.
pub open spec fn truncated_view(m: MessageView) -> MessageView {
    match m {
        MessageView::ToolResponse { role, content, tool_call_id, images } => if needs_truncation(
            content,
        ) {
            MessageView::ToolResponse { role, content: head_tail_spec(content), tool_call_id, images }
        } else {
            m
        },
        _ => m,
    }
}

/// Whether stage 2 changes `m`.
pub open spec fn truncates(m: MessageView) -> bool {
    m is ToolResponse && needs_truncation(content_of_view(m))
}

/// Head-tail truncate every oversized tool result at or after `from`.
/// Returns whether anything was truncated.
pub fn truncate_tail(messages: &mut Vec<Message>, from: usize) -> (changed: bool)
    requires
        from <= old(messages)@.len(),
    ensures
        final(messages)@.len() == old(messages)@.len(),
        forall|i: int|
            0 <= i < old(messages)@.len() ==> #[trigger] final(messages)@[i]@ == if i >= from {
                truncated_view(old(messages)@[i]@)
            } else {
                old(messages)@[i]@
            },
        changed == exists|i: int| from <= i < old(messages)@.len() && #[trigger] truncates(old(messages)@[i]@),
{
    let ghost orig = messages@;
    let len = messages.len();
    let mut changed = false;
    let mut i: usize = from;
    while i < len
        invariant
            len == orig.len(),
            messages@.len() == len,
            from <= i <= len,
            forall|j: int|
                0 <= j < len ==> #[trigger] messages@[j]@ == if from <= j < i {
                    truncated_view(orig[j]@)
                } else {
                    orig[j]@
                },
            changed == exists|j: int| from <= j < i && #[trigger] truncates(orig[j]@),
        decreases len - i,
    {
        assert(messages@[i as int]@ == orig[i as int]@);
        let replacement: Option<Message> = match &messages[i] {
            Message::ToolResponse { role, content, tool_call_id, images } => {
                let cs = chars_of(content.as_str());
                let n = utf8_length(cs.as_slice());
                let marker = chars_of("[...truncated");
                assert(content@ == content_of_view(orig[i as int]@));
                if n > TAIL_TOOL_LIMIT && !contains(cs.as_slice(), marker.as_slice()) {
                    let body = head_tail_chars(cs.as_slice());
                    let m = Message::ToolResponse {
                        role: role.clone(),
                        content: body,
                        tool_call_id: tool_call_id.clone(),
                        images: crate::api::copy_images(images),
                    };
                    assert(truncates(orig[i as int]@));
                    assert(m@ == truncated_view(orig[i as int]@));
                    Some(m)
                } else {
                    assert(!truncates(orig[i as int]@));
                    None
                }
            },
            Message::Simple { .. } => {
                assert(!truncates(orig[i as int]@));
                None
            },
        };
        match replacement {
            Some(m) => {
                messages.set(i, m);
                changed = true;
            },
            None => {
                assert(truncated_view(orig[i as int]@) == orig[i as int]@);
            },
        }
        assert(changed == exists|j: int| from <= j < i + 1 && #[trigger] truncates(orig[j]@));
        i += 1;
    }
    changed
}


// ------------------------------------------------------ stage 1 (middle)

/// Placeholder that replaces a masked tool result of `c`.
pub open spec fn mask_text(c: Seq<char>) -> Seq<char> {
    mask_marker() + " \u{2014} "@ + decimal_spec(clamp(utf8_len(c)) as nat)
        + " bytes cleared; the originating tool call above is preserved. Re-run the tool if you need the full output again.]"@
}

/// Whether a far-history tool result is masked.
pub open spec fn needs_mask(c: Seq<char>) -> bool {
    utf8_len(c) > MASK_MIN_BYTES && !occurs_at(c, mask_marker(), 0)
}

/// Stage 1 applied to one message.
pub open spec fn masked_view(m: MessageView) -> MessageView {
    match m {
        MessageView::ToolResponse { role, content, tool_call_id, images } => if needs_mask(content) {
            MessageView::ToolResponse { role, content: mask_text(content), tool_call_id, images }
        } else {
            m
        },
        _ => m,
    }
}

/// Whether stage 1 changes `m`.
pub open spec fn masks(m: MessageView) -> bool {
    m is ToolResponse && needs_mask(content_of_view(m))
}

/// Bytes cleared by masking every message of `ms`.
pub open spec fn masked_bytes_of(ms: Seq<MessageView>) -> nat
    decreases ms.len(),
{
    if ms.len() == 0 {
        0
    } else {
        masked_bytes_of(ms.drop_last()) + if masks(ms.last()) {
            utf8_len(content_of_view(ms.last()))
        } else {
            0
        }
    }
}

fn mask_body(n: usize) -> (r: String)
    ensures
        r@ == mask_marker() + " \u{2014} "@ + decimal_spec(n as nat)
            + " bytes cleared; the originating tool call above is preserved. Re-run the tool if you need the full output again.]"@,
{
    let mut out = lit("[tool output masked");
    push_str(&mut out, " \u{2014} ");
    let d = decimal(n as u64);
    push_str(&mut out, d.as_str());
    push_str(
        &mut out,
        " bytes cleared; the originating tool call above is preserved. Re-run the tool if you need the full output again.]",
    );
    out
}

/// Mask every bulky tool result in `[from, to)`. Returns the bytes cleared
/// (saturating) and whether anything was masked.
pub fn mask_range(messages: &mut Vec<Message>, from: usize, to: usize) -> (r: (usize, bool))
    requires
        from <= to <= old(messages)@.len(),
    ensures
        final(messages)@.len() == old(messages)@.len(),
        forall|i: int|
            0 <= i < old(messages)@.len() ==> #[trigger] final(messages)@[i]@ == if from <= i < to {
                masked_view(old(messages)@[i]@)
            } else {
                old(messages)@[i]@
            },
        r.0 == clamp(masked_bytes_of(messages_view(old(messages)@.subrange(from as int, to as int)))),
        r.1 == exists|i: int| from <= i < to && #[trigger] masks(old(messages)@[i]@),
{
    let ghost orig = messages@;
    let mut changed = false;
    let mut bytes: usize = 0;
    let mut i: usize = from;
    while i < to
        invariant
            to <= orig.len(),
            messages@.len() == orig.len(),
            from <= i <= to,
            forall|j: int|
                0 <= j < orig.len() ==> #[trigger] messages@[j]@ == if from <= j < i {
                    masked_view(orig[j]@)
                } else {
                    orig[j]@
                },
            changed == exists|j: int| from <= j < i && #[trigger] masks(orig[j]@),
            bytes == clamp(masked_bytes_of(messages_view(orig.subrange(from as int, i as int)))),
        decreases to - i,
    {
        assert(messages@[i as int]@ == orig[i as int]@);
        let ghost before = masked_bytes_of(messages_view(orig.subrange(from as int, i as int)));
        proof {
            assert(messages_view(orig.subrange(from as int, i + 1)).drop_last() =~= messages_view(
                orig.subrange(from as int, i as int),
            ));
            assert(messages_view(orig.subrange(from as int, i + 1)).last() == orig[i as int]@);
        }
        let replacement: Option<(Message, usize)> = match &messages[i] {
            Message::ToolResponse { role, content, tool_call_id, images } => {
                let cs = chars_of(content.as_str());
                let n = utf8_length(cs.as_slice());
                let marker = chars_of("[tool output masked");
                assert(content@ == content_of_view(orig[i as int]@));
                if n > MASK_MIN_BYTES && !starts_with(cs.as_slice(), marker.as_slice()) {
                    let body = mask_body(n);
                    let m = Message::ToolResponse {
                        role: role.clone(),
                        content: body,
                        tool_call_id: tool_call_id.clone(),
                        images: crate::api::copy_images(images),
                    };
                    assert(masks(orig[i as int]@));
                    assert(m@ == masked_view(orig[i as int]@));
                    Some((m, n))
                } else {
                    assert(!masks(orig[i as int]@));
                    None
                }
            },
            Message::Simple { .. } => {
                assert(!masks(orig[i as int]@));
                None
            },
        };
        match replacement {
            Some((m, n)) => {
                messages.set(i, m);
                changed = true;
                proof {
                    crate::tokens::lemma_clamp_add(before, utf8_len(content_of_view(orig[i as int]@)));
                }
                bytes = bytes.saturating_add(n);
            },
            None => {
                assert(masked_view(orig[i as int]@) == orig[i as int]@);
            },
        }
        assert(changed == exists|j: int| from <= j < i + 1 && #[trigger] masks(orig[j]@));
        i += 1;
    }
    (bytes, changed)
}

// ------------------------------------------------------------ the stages

/// Is `m` a `system` turn of the simple shape?
pub open spec fn is_system_view(m: MessageView) -> bool {
    m is Simple && crate::api::role_of_view(m) == "system"@
}

/// Advance from `k` over `system` turns; the index reached.
pub open spec fn system_run(ms: Seq<MessageView>, k: nat) -> nat
    decreases ms.len() - k,
{
    if k < ms.len() && is_system_view(ms[k as int]) {
        system_run(ms, k + 1)
    } else {
        k
    }
}

/// Number of leading `system` turns.
pub open spec fn leading_system(ms: Seq<MessageView>) -> nat {
    system_run(ms, 0)
}

proof fn lemma_system_run(ms: Seq<MessageView>, k: nat)
    requires
        k <= ms.len(),
        forall|j: int| 0 <= j < k ==> is_system_view(ms[j]),
    ensures
        k <= system_run(ms, k) <= ms.len(),
        forall|j: int| 0 <= j < system_run(ms, k) ==> is_system_view(ms[j]),
        system_run(ms, k) < ms.len() ==> !is_system_view(ms[system_run(ms, k) as int]),
    decreases ms.len() - k,
{
    if k < ms.len() && is_system_view(ms[k as int]) {
        lemma_system_run(ms, k + 1);
    }
}

/// How many leading messages are `system` turns.
pub fn leading_system_count(messages: &[Message]) -> (n: usize)
    ensures
        n == leading_system(messages_view(messages@)),
{
    let len = messages.len();
    let mut k: usize = 0;
    while k < len && messages[k].is_system()
        invariant
            len == messages@.len(),
            k <= len,
            leading_system(messages_view(messages@)) == system_run(messages_view(messages@), k as nat),
        decreases len - k,
    {
        k += 1;
    }
    k
}

/// Stage 2 applied from `from` on.
pub open spec fn truncated_from(ms: Seq<MessageView>, from: int) -> Seq<MessageView> {
    Seq::new(ms.len(), |i: int| if i >= from { truncated_view(ms[i]) } else { ms[i] })
}

/// Stage 1 applied to `[from, to)`.
pub open spec fn masked_between(ms: Seq<MessageView>, from: int, to: int) -> Seq<MessageView> {
    Seq::new(ms.len(), |i: int| if from <= i < to { masked_view(ms[i]) } else { ms[i] })
}

/// Approximate token count for the conversation.
pub fn estimate_tokens(messages: &[Message]) -> (n: usize)
    ensures
        n == clamp(messages_cost(&Heuristic, messages_view(messages@))),
{
    Heuristic.count_messages(messages)
}

/// What the cheap stages achieved.
#[derive(Debug, Clone, Copy, PartialEq)]
pub enum CompressOutcome {
    /// Below the threshold, or nothing the cheap stages could shed.
    Untouched,
    /// Masking / truncation brought the conversation under the threshold
    /// (or, with nothing but head and tail, clipped an oversized result).
    Compressed,
    /// Still over the threshold: summarize `[head_end, tail_start)` and
    /// splice the summary in with [`splice_summary`].
    NeedsSummary { head_end: usize, tail_start: usize },
}

/// The outcome of [`compress_stages`], with the figures its log line reports.
#[derive(Debug, Clone, Copy, PartialEq)]
pub struct CompressReport {
    pub outcome: CompressOutcome,
    pub before_tokens: usize,
    pub after_tokens: usize,
    pub masked_bytes: usize,
}

/// Stages 0-2, in place. Stage 3 needs a model call, so when it is due the
/// report names the range to summarize instead.
pub fn compress_stages(messages: &mut Vec<Message>, threshold_tokens: usize, keep_tail: usize) -> (r: CompressReport)
    ensures
        ({
            let old_v = messages_view(old(messages)@);
            let new_v = messages_view(final(messages)@);
            let total = clamp(messages_cost(&Heuristic, old_v));
            let h = leading_system(old_v);
            let len = old_v.len();
            &&& r.before_tokens == total
            &&& r.after_tokens == clamp(messages_cost(&Heuristic, new_v))
            &&& if total < threshold_tokens {
                &&& new_v == old_v
                &&& r.outcome == CompressOutcome::Untouched
                &&& r.masked_bytes == 0
            } else if len <= h + keep_tail {
                &&& new_v == truncated_from(old_v, h as int)
                &&& r.masked_bytes == 0
                &&& r.outcome == if exists|i: int| h <= i < len && #[trigger] truncates(old_v[i]) {
                    CompressOutcome::Compressed
                } else {
                    CompressOutcome::Untouched
                }
            } else {
                let t = len - keep_tail;
                let masked = masked_between(old_v, h as int, t);
                let changed = (exists|i: int| h <= i < t && #[trigger] masks(old_v[i]))
                    || (exists|i: int| t <= i < len && #[trigger] truncates(masked[i]));
                &&& new_v == truncated_from(masked, t)
                &&& r.masked_bytes == clamp(masked_bytes_of(old_v.subrange(h as int, t)))
                &&& r.outcome == if changed && r.after_tokens < threshold_tokens {
                    CompressOutcome::Compressed
                } else {
                    CompressOutcome::NeedsSummary { head_end: h as usize, tail_start: t as usize }
                }
            }
        }),
{
    let ghost old_m = messages@;
    let total = estimate_tokens(messages.as_slice());
    if total < threshold_tokens {
        return CompressReport {
            outcome: CompressOutcome::Untouched,
            before_tokens: total,
            after_tokens: total,
            masked_bytes: 0,
        };
    }
    let head_end = leading_system_count(messages.as_slice());
    proof {
        lemma_system_run(messages_view(old_m), 0);
    }
    let len = messages.len();
    if keep_tail >= len || len - keep_tail <= head_end {
        let truncated = truncate_tail(messages, head_end);
        let after = estimate_tokens(messages.as_slice());
        proof {
            assert(messages_view(messages@) =~= truncated_from(messages_view(old_m), head_end as int));
            let ov = messages_view(old_m);
            if truncated {
                let w = choose|i: int| head_end <= i < len && #[trigger] truncates(old_m[i]@);
                assert(truncates(ov[w]));
            } else {
                assert forall|i: int| head_end <= i < len implies !#[trigger] truncates(ov[i]) by {
                    assert(ov[i] == old_m[i]@);
                }
            }
        }
        return CompressReport {
            outcome: if truncated { CompressOutcome::Compressed } else { CompressOutcome::Untouched },
            before_tokens: total,
            after_tokens: after,
            masked_bytes: 0,
        };
    }
    let tail_start = len - keep_tail;
    let (masked_bytes, masked) = mask_range(messages, head_end, tail_start);
    let ghost mid = messages@;
    let truncated = truncate_tail(messages, tail_start);
    let changed = masked || truncated;
    let after = estimate_tokens(messages.as_slice());
    proof {
        let ov = messages_view(old_m);
        assert(messages_view(mid) =~= masked_between(ov, head_end as int, tail_start as int));
        assert(messages_view(messages@) =~= truncated_from(masked_between(ov, head_end as int, tail_start as int), tail_start as int));
        assert(messages_view(old_m.subrange(head_end as int, tail_start as int)) =~= ov.subrange(head_end as int, tail_start as int));
        if masked {
            let w = choose|i: int| head_end <= i < tail_start && #[trigger] masks(old_m[i]@);
            assert(masks(ov[w]));
        } else {
            assert forall|i: int| head_end <= i < tail_start implies !#[trigger] masks(ov[i]) by {
                assert(ov[i] == old_m[i]@);
            }
        }
        let mv = masked_between(ov, head_end as int, tail_start as int);
        if truncated {
            let w = choose|i: int| tail_start <= i < len && #[trigger] truncates(mid[i]@);
            assert(mv[w] == mid[w]@);
            assert(truncates(mv[w]));
        } else {
            assert forall|i: int| tail_start <= i < len implies !#[trigger] truncates(mv[i]) by {
                assert(mv[i] == mid[i]@);
            }
        }
    }
    let outcome = if changed && after < threshold_tokens {
        CompressOutcome::Compressed
    } else {
        CompressOutcome::NeedsSummary { head_end, tail_start }
    };
    CompressReport { outcome, before_tokens: total, after_tokens: after, masked_bytes }
}

/// The system turn that stands in for a summarized range.
pub open spec fn summary_view(summary: Seq<char>) -> MessageView {
    system_view("[Compressed earlier turns]\n\n"@ + summary)
}

/// Stage 3's second half: replace `[head_end, tail_start)` by one system turn
/// carrying `summary`.
pub fn splice_summary(messages: &mut Vec<Message>, head_end: usize, tail_start: usize, summary: String)
    requires
        head_end <= tail_start <= old(messages)@.len(),
    ensures
        messages_view(final(messages)@) == messages_view(old(messages)@).take(head_end as int)
            .push(summary_view(summary@)) + messages_view(old(messages)@).skip(tail_start as int),
{
    let ghost ov = messages_view(messages@);
    let mut text = lit("[Compressed earlier turns]\n\n");
    push_str(&mut text, summary.as_str());
    let mut rebuilt: Vec<Message> = Vec::new();
    let mut i: usize = 0;
    while i < head_end
        invariant
            head_end <= messages@.len(),
            ov == messages_view(messages@),
            i <= head_end,
            rebuilt@.len() == i,
            forall|k: int| 0 <= k < i ==> #[trigger] rebuilt@[k]@ == ov[k],
        decreases head_end - i,
    {
        assert(ov[i as int] == messages@[i as int]@);
        rebuilt.push(messages[i].copied());
        i += 1;
    }
    rebuilt.push(Message::new_system(text));
    let len = messages.len();
    let mut j: usize = tail_start;
    while j < len
        invariant
            len == messages@.len(),
            ov == messages_view(messages@),
            head_end <= tail_start <= j <= len,
            rebuilt@.len() == head_end + 1 + (j - tail_start),
            forall|k: int| 0 <= k < head_end ==> #[trigger] rebuilt@[k]@ == ov[k],
            rebuilt@[head_end as int]@ == summary_view(summary@),
            forall|k: int| tail_start <= k < j ==> #[trigger] rebuilt@[head_end + 1 + (k - tail_start)]@ == ov[k],
        decreases len - j,
    {
        assert(ov[j as int] == messages@[j as int]@);
        rebuilt.push(messages[j].copied());
        j += 1;
    }
    let ghost want = ov.take(head_end as int).push(summary_view(summary@)) + ov.skip(tail_start as int);
    assert forall|k: int| 0 <= k < want.len() implies #[trigger] messages_view(rebuilt@)[k] == want[k] by {
        if k < head_end {
        } else if k == head_end {
        } else {
            let src = tail_start + (k - head_end - 1);
            assert(rebuilt@[head_end + 1 + (src - tail_start)]@ == ov[src]);
        }
    }
    assert(messages_view(rebuilt@) =~= want);
    *messages = rebuilt;
}

/// The request that asks a model to summarize the middle of a conversation,
/// given that middle rendered as JSON.
pub fn summary_request(middle_json: &str) -> (r: Message)
    ensures
        r@ == (MessageView::Simple {
            role: "user"@,
            content: summary_instructions() + middle_json@,
            reasoning_content: None,
            tool_calls: None,
            images: Seq::empty(),
        }),
{
    let mut prompt = lit(SUMMARY_INSTRUCTIONS);
    push_str(&mut prompt, middle_json);
    Message::new_user_text(prompt)
}

/// What the summarizer is told to keep and drop.
pub const SUMMARY_INSTRUCTIONS: &'static str = "You are summarizing the middle portion of a long agent conversation so it can be compressed out of the context window. Preserve:\n- Key facts established or discovered\n- Decisions made and their rationale\n- Pending tasks or unresolved questions\n- File paths, function names, error messages \u{2014} anything the agent might reference later\n\nDrop:\n- Conversational filler and intermediate reasoning\n- Tool call mechanics (e.g. 'I called read_file and got 5KB back')\n\nOutput a compact Markdown summary in third-person, under 500 words.\n\n---\n\nCONVERSATION TO SUMMARIZE:\n\n";

pub open spec fn summary_instructions() -> Seq<char> {
    SUMMARY_INSTRUCTIONS@
}


// ------------------------------------------------------------------ laws

/// Head-tail truncation marks its output, so a second pass leaves a
/// truncated tool result alone: stage 2 is idempotent.
pub proof fn truncation_is_idempotent(m: MessageView)
    ensures
        truncated_view(truncated_view(m)) == truncated_view(m),
{
    if truncates(m) {
        let c = content_of_view(m);
        let n = clamp(utf8_len(c)) as nat;
        let h = floor_count(c, TAIL_KEEP_EACH as nat);
        let t = ceil_count(c, (n - TAIL_KEEP_EACH) as nat);
        let hb = prefix_bytes(c, h as int);
        let tb = clamp(prefix_bytes(c, t as int)) as nat;
        let dropped: nat = if tb >= hb { (tb - hb) as nat } else { 0 };
        let a = c.take(h as int) + "\n"@;
        let rest = " "@ + decimal_spec(dropped) + " bytes from the middle...]\n"@ + c.skip(t as int);
        let out = head_tail_spec(c);
        assert(out =~= a + trunc_marker() + rest);
        assert(out.subrange(a.len() as int, (a.len() + trunc_marker().len()) as int) =~= trunc_marker());
        assert(occurs_at(out, trunc_marker(), a.len() as int));
        assert(contains_spec(out, trunc_marker()));
    }
}

/// A masked placeholder begins with the mask marker, so a second pass leaves
/// it alone: stage 1 is idempotent.
pub proof fn masking_is_idempotent(m: MessageView)
    ensures
        masked_view(masked_view(m)) == masked_view(m),
{
    if masks(m) {
        let c = content_of_view(m);
        let out = mask_text(c);
        assert(out.subrange(0, mask_marker().len() as int) =~= mask_marker());
        assert(occurs_at(out, mask_marker(), 0));
    }
}

/// Neither cheap stage touches anything but the body of a tool result: every
/// message keeps its shape and role, a tool result keeps the call id that ties
/// it to its call, and assistant turns (with their tool calls) are unchanged.
pub proof fn cheap_stages_keep_the_call_chain(m: MessageView)
    ensures
        ({
            let t = truncated_view(m);
            let k = masked_view(m);
            &&& crate::api::role_of_view(t) == crate::api::role_of_view(m)
            &&& crate::api::role_of_view(k) == crate::api::role_of_view(m)
            &&& (m is Simple ==> t == m && k == m)
            &&& (m is ToolResponse ==> t is ToolResponse && k is ToolResponse
                && t->ToolResponse_tool_call_id == m->ToolResponse_tool_call_id
                && k->ToolResponse_tool_call_id == m->ToolResponse_tool_call_id
                && t->ToolResponse_images == m->ToolResponse_images
                && k->ToolResponse_images == m->ToolResponse_images)
        }),
{
}


/// Which stretch of a session log to fold into a summary, given the working
/// set `ms` derived from it and `seqs`, the event number each message came
/// from: nothing while the estimate is under `threshold`; otherwise the
/// messages between the leading system turns and the last `keep_tail`, as
/// `(head_end, tail_start, from, to)` with the event numbers they start at.
/// Nothing either when that stretch is empty or its events do not advance.
pub open spec fn compaction_plan_spec(ms: Seq<MessageView>, seqs: Seq<u64>, threshold: usize, keep_tail: usize) -> Option<
    (usize, usize, u64, u64),
> {
    let head = leading_system(ms);
    if clamp(messages_cost(&Heuristic, ms)) < threshold {
        None
    } else if ms.len() <= head + keep_tail {
        None
    } else {
        let tail = ms.len() - keep_tail;
        if head >= seqs.len() || tail >= seqs.len() {
            None
        } else if seqs[tail] <= seqs[head as int] {
            None
        } else {
            Some((head as usize, tail as usize, seqs[head as int], seqs[tail]))
        }
    }
}

/// Decide whether, and what part of, a session log to compact.
pub fn compaction_plan(messages: &[Message], seqs: &[u64], threshold: usize, keep_tail: usize) -> (r: Option<
    (usize, usize, u64, u64),
>)
    ensures
        r == compaction_plan_spec(messages_view(messages@), seqs@, threshold, keep_tail),
{
    if estimate_tokens(messages) < threshold {
        return None;
    }
    let head = leading_system_count(messages);
    proof {
        lemma_system_run(messages_view(messages@), 0);
    }
    if keep_tail >= messages.len() - head {
        return None;
    }
    let tail = messages.len() - keep_tail;
    if head >= seqs.len() || tail >= seqs.len() {
        return None;
    }
    if seqs[tail] <= seqs[head] {
        return None;
    }
    Some((head, tail, seqs[head], seqs[tail]))
}

} // verus!

//! Token estimation.
//!
//! Counting bytes drifts badly with script: one CJK character is three UTF-8
//! bytes but roughly one token, while four ASCII bytes are roughly one token.
//! The heuristic here charges ASCII bytes at four per token and the bytes of
//! wider characters at three per token, rounding the total up.

use vstd::prelude::*;

use crate::api::{Message, MessageView, ToolCallView, messages_view};
use crate::text::{char_len_utf8, char_width, chars_of};

verus! {

/// Flat cost charged for one image, whatever its encoded size.
pub const IMAGE_TOKENS: usize = 200;

/// Cost of the per-message envelope: role, delimiters and wire framing.
pub const ENVELOPE_TOKENS: usize = 4;

/// `n`, or `usize::MAX` when `n` does not fit.
pub open spec fn clamp(n: nat) -> usize {
    if n > usize::MAX { usize::MAX } else { n as usize }
}

/// Number of single-byte (ASCII) chars in `s`.
pub open spec fn ascii_bytes(s: Seq<char>) -> nat
    decreases s.len(),
{
    if s.len() == 0 {
        0
    } else {
        ascii_bytes(s.drop_last()) + if char_width(s.last()) == 1 { 1nat } else { 0nat }
    }
}

/// UTF-8 bytes taken by the multi-byte chars of `s`.
pub open spec fn wide_bytes(s: Seq<char>) -> nat
    decreases s.len(),
{
    if s.len() == 0 {
        0
    } else {
        wide_bytes(s.drop_last()) + if char_width(s.last()) > 1 { char_width(s.last()) } else { 0nat }
    }
}

/// `ceil(ascii / 4 + wide / 3)`, computed exactly as `ceil((3 ascii + 4 wide) / 12)`.
pub open spec fn heuristic_tokens(s: Seq<char>) -> nat {
    ((3 * ascii_bytes(s) + 4 * wide_bytes(s) + 11) / 12) as nat
}

/// Something that can put a token figure on text.
pub trait TokenCounter: Sized {
    /// The figure this counter puts on `text`.
    spec fn text_cost(&self, text: Seq<char>) -> nat;

    fn count_text(&self, text: &str) -> (n: usize)
        ensures
            n == clamp(self.text_cost(text@));
}

/// Cost of the names and arguments of a batch of tool calls.
pub open spec fn calls_cost<C: TokenCounter>(c: &C, calls: Seq<ToolCallView>) -> nat
    decreases calls.len(),
{
    if calls.len() == 0 {
        0
    } else {
        calls_cost(c, calls.drop_last()) + c.text_cost(calls.last().name) + c.text_cost(
            calls.last().arguments,
        )
    }
}

/// Cost of one message: its text, any reasoning and tool calls, a flat charge
/// per image, and the envelope.
pub open spec fn message_cost<C: TokenCounter>(c: &C, m: MessageView) -> nat {
    match m {
        MessageView::Simple { content, reasoning_content, tool_calls, images, .. } => {
            (c.text_cost(content) + match reasoning_content {
                Some(r) => c.text_cost(r),
                None => 0,
            } + match tool_calls {
                Some(calls) => calls_cost(c, calls),
                None => 0,
            } + images.len() * IMAGE_TOKENS + ENVELOPE_TOKENS) as nat
        },
        MessageView::ToolResponse { content, .. } => c.text_cost(content) + ENVELOPE_TOKENS as nat,
    }
}

/// Cost of a conversation: the sum over its messages.
pub open spec fn messages_cost<C: TokenCounter>(c: &C, ms: Seq<MessageView>) -> nat
    decreases ms.len(),
{
    if ms.len() == 0 {
        0
    } else {
        messages_cost(c, ms.drop_last()) + message_cost(c, ms.last())
    }
}

/// Script-aware ratio estimate, with no dependencies.
pub struct Heuristic;

/// The estimate for a char slice.
pub fn heuristic_count(s: &[char]) -> (n: usize)
    ensures
        n == clamp(heuristic_tokens(s@)),
{
    let mut ascii: u128 = 0;
    let mut wide: u128 = 0;
    let n = s.len();
    let mut i: usize = 0;
    while i < n
        invariant
            n == s@.len(),
            i <= s@.len(),
            ascii == ascii_bytes(s@.take(i as int)),
            wide == wide_bytes(s@.take(i as int)),
            ascii <= i,
            wide <= 4 * i,
        decreases n - i,
    {
        let w = char_len_utf8(s[i]);
        assert(s@.take(i + 1).drop_last() == s@.take(i as int));
        if w > 1 {
            wide = wide + w as u128;
        } else {
            ascii = ascii + 1;
        }
        i += 1;
    }
    assert(s@.take(s@.len() as int) == s@);
    let est: u128 = (3 * ascii + 4 * wide + 11) / 12;
    if est > usize::MAX as u128 {
        usize::MAX
    } else {
        est as usize
    }
}

/// Saturating sum, as a clamp of the exact sum.
fn add_clamped(acc: usize, x: usize) -> (r: usize)
    ensures
        r == clamp((acc + x) as nat),
{
    acc.saturating_add(x)
}

pub proof fn lemma_clamp_add(a: nat, b: nat)
    ensures
        clamp((clamp(a) + clamp(b)) as nat) == clamp(a + b),
{
}

/// The estimate for a batch of tool calls.
fn count_calls<C: TokenCounter>(c: &C, calls: &Vec<crate::api::ToolCall>) -> (n: usize)
    ensures
        n == clamp(calls_cost(c, crate::api::calls_view(calls@))),
{
    let mut acc: usize = 0;
    let mut i: usize = 0;
    while i < calls.len()
        invariant
            i <= calls@.len(),
            acc == clamp(calls_cost(c, crate::api::calls_view(calls@.take(i as int)))),
        decreases calls.len() - i,
    {
        let ghost before = calls_cost(c, crate::api::calls_view(calls@.take(i as int)));
        let a = c.count_text(calls[i].function.name.as_str());
        let b = c.count_text(calls[i].function.arguments.as_str());
        proof {
            assert(crate::api::calls_view(calls@.take(i + 1)).drop_last() =~= crate::api::calls_view(calls@.take(i as int)));
            lemma_clamp_add(before, c.text_cost(calls@[i as int].function.name@));
            lemma_clamp_add((before + c.text_cost(calls@[i as int].function.name@)) as nat, c.text_cost(calls@[i as int].function.arguments@));
        }
        acc = add_clamped(add_clamped(acc, a), b);
        i += 1;
    }
    assert(calls@.take(calls@.len() as int) == calls@);
    acc
}

/// The estimate for one message.
fn count_message<C: TokenCounter>(c: &C, m: &Message) -> (n: usize)
    ensures
        n == clamp(message_cost(c, m@)),
{
    match m {
        Message::Simple { content, reasoning_content, tool_calls, images, .. } => {
            let ghost tc = c.text_cost(content@);
            let mut n = c.count_text(content.as_str());
            let ghost rc: nat = match reasoning_content {
                Some(r) => c.text_cost(r@),
                None => 0,
            };
            if let Some(r) = reasoning_content {
                let x = c.count_text(r.as_str());
                proof { lemma_clamp_add(tc, rc); }
                n = add_clamped(n, x);
            }
            let ghost cc: nat = match tool_calls {
                Some(calls) => calls_cost(c, crate::api::calls_view(calls@)),
                None => 0,
            };
            if let Some(calls) = tool_calls {
                let x = count_calls(c, calls);
                proof { lemma_clamp_add(tc + rc, cc); }
                n = add_clamped(n, x);
            }
            let im = if images.len() > usize::MAX / IMAGE_TOKENS { usize::MAX } else { images.len() * IMAGE_TOKENS };
            proof {
                assert(im == clamp((images@.len() * IMAGE_TOKENS) as nat));
                lemma_clamp_add(tc + rc + cc, (images@.len() * IMAGE_TOKENS) as nat);
                lemma_clamp_add((tc + rc + cc + images@.len() * IMAGE_TOKENS) as nat, ENVELOPE_TOKENS as nat);
                assert(crate::api::images_view(images@).len() == images@.len());
            }
            n = add_clamped(n, im);
            add_clamped(n, ENVELOPE_TOKENS)
        },
        Message::ToolResponse { content, .. } => {
            let n = c.count_text(content.as_str());
            proof { lemma_clamp_add(c.text_cost(content@), ENVELOPE_TOKENS as nat); }
            add_clamped(n, ENVELOPE_TOKENS)
        },
    }
}

/// The estimate for a conversation.
pub fn count_messages_with<C: TokenCounter>(c: &C, messages: &[Message]) -> (n: usize)
    ensures
        n == clamp(messages_cost(c, messages_view(messages@))),
{
    let mut acc: usize = 0;
    let mut i: usize = 0;
    while i < messages.len()
        invariant
            i <= messages@.len(),
            acc == clamp(messages_cost(c, messages_view(messages@.take(i as int)))),
        decreases messages.len() - i,
    {
        let x = count_message(c, &messages[i]);
        proof {
            assert(messages_view(messages@.take(i + 1)).drop_last() =~= messages_view(messages@.take(i as int)));
            lemma_clamp_add(messages_cost(c, messages_view(messages@.take(i as int))), message_cost(c, messages@[i as int]@));
        }
        acc = add_clamped(acc, x);
        i += 1;
    }
    assert(messages@.take(messages@.len() as int) == messages@);
    acc
}

impl TokenCounter for Heuristic {
    open spec fn text_cost(&self, text: Seq<char>) -> nat {
        heuristic_tokens(text)
    }

    fn count_text(&self, text: &str) -> (n: usize) {
        let v = chars_of(text);
        heuristic_count(v.as_slice())
    }
}

impl Heuristic {
    /// The estimate for a whole conversation.
    pub fn count_messages(&self, messages: &[Message]) -> (n: usize)
        ensures
            n == clamp(messages_cost(self, messages_view(messages@))),
    {
        count_messages_with(self, messages)
    }
}

/// The count of a conversation adds up over its parts: nothing costs
/// nothing, and the cost of `a` followed by `b` is the cost of `a` plus the
/// cost of `b`.
pub proof fn cost_adds_up<C: TokenCounter>(c: &C, a: Seq<MessageView>, b: Seq<MessageView>)
    ensures
        messages_cost(c, Seq::empty()) == 0,
        messages_cost(c, a + b) == messages_cost(c, a) + messages_cost(c, b),
    decreases b.len(),
{
    if b.len() == 0 {
        assert(a + b =~= a);
    } else {
        cost_adds_up(c, a, b.drop_last());
        assert((a + b).drop_last() =~= a + b.drop_last());
        assert((a + b).last() == b.last());
    }
}

/// Each image adds a flat charge to its message, and every message costs at
/// least its envelope.
pub proof fn images_cost_a_flat_charge<C: TokenCounter>(
    c: &C,
    role: Seq<char>,
    content: Seq<char>,
    reasoning_content: Option<Seq<char>>,
    tool_calls: Option<Seq<ToolCallView>>,
    images: Seq<crate::api::ImageView>,
)
    ensures
        message_cost(c, MessageView::Simple { role, content, reasoning_content, tool_calls, images })
            == message_cost(c, MessageView::Simple { role, content, reasoning_content, tool_calls, images: Seq::empty() })
            + IMAGE_TOKENS * images.len(),
        message_cost(c, MessageView::Simple { role, content, reasoning_content, tool_calls, images }) >= ENVELOPE_TOKENS,
{
}

/// What `count_messages` returns adds up over a concatenation while the
/// total fits in a `usize` (the count saturates at `usize::MAX`): the count
/// of nothing is zero, the count of `a` then `b` is the count of `a` plus
/// the count of `b`, and a message with `k` images counts `200 * k` more
/// than the same message without them.
pub proof fn counts_add_up<C: TokenCounter>(c: &C, a: Seq<MessageView>, b: Seq<MessageView>)
    requires
        messages_cost(c, a + b) <= usize::MAX,
    ensures
        clamp(messages_cost(c, Seq::empty())) == 0,
        clamp(messages_cost(c, a + b)) == clamp(messages_cost(c, a)) + clamp(messages_cost(c, b)),
{
    cost_adds_up(c, a, b);
}

/// The flat image charge, as the count shows it below the saturation bound.
pub proof fn counted_images_cost_a_flat_charge<C: TokenCounter>(
    c: &C,
    role: Seq<char>,
    content: Seq<char>,
    reasoning_content: Option<Seq<char>>,
    tool_calls: Option<Seq<ToolCallView>>,
    images: Seq<crate::api::ImageView>,
)
    requires
        message_cost(c, MessageView::Simple { role, content, reasoning_content, tool_calls, images }) <= usize::MAX,
    ensures
        ({
            let m = MessageView::Simple { role, content, reasoning_content, tool_calls, images: Seq::empty() };
            let mk = MessageView::Simple { role, content, reasoning_content, tool_calls, images };
            &&& clamp(messages_cost(c, seq![mk])) == clamp(messages_cost(c, seq![m])) + IMAGE_TOKENS * images.len()
            &&& clamp(messages_cost(c, seq![m])) >= ENVELOPE_TOKENS
        }),
{
    images_cost_a_flat_charge(c, role, content, reasoning_content, tool_calls, images);
    images_cost_a_flat_charge(c, role, content, reasoning_content, tool_calls, Seq::empty());
    let m = MessageView::Simple { role, content, reasoning_content, tool_calls, images: Seq::empty() };
    let mk = MessageView::Simple { role, content, reasoning_content, tool_calls, images };
    assert(seq![m].drop_last() =~= Seq::<MessageView>::empty());
    assert(seq![mk].drop_last() =~= Seq::<MessageView>::empty());
    assert(seq![m].last() == m);
    assert(seq![mk].last() == mk);
    assert(messages_cost(c, Seq::<MessageView>::empty()) == 0);
    assert(messages_cost(c, seq![m]) == message_cost(c, m));
    assert(messages_cost(c, seq![mk]) == message_cost(c, mk));
}

/// The text a message carries: its content, whatever its kind.
pub open spec fn content_of(m: MessageView) -> Seq<char> {
    match m {
        MessageView::Simple { content, .. } => content,
        MessageView::ToolResponse { content, .. } => content,
    }
}

/// No message is cheaper than its text plus the envelope, tool results
/// included: a conversation full of large tool output is counted as large,
/// and adding a message never lowers the estimate of a conversation.
pub proof fn every_message_pays_for_its_text<C: TokenCounter>(c: &C, ms: Seq<MessageView>, m: MessageView)
    ensures
        message_cost(c, m) >= c.text_cost(content_of(m)) + ENVELOPE_TOKENS,
        messages_cost(c, ms.push(m)) >= messages_cost(c, ms) + c.text_cost(content_of(m)) + ENVELOPE_TOKENS,
{
    assert(ms.push(m).drop_last() =~= ms);
    assert(ms.push(m).last() == m);
}

} // verus!

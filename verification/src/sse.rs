//! Server-sent-event streams from the model endpoints: framing the byte
//! stream into lines, picking out the `data:` payloads, and turning the
//! payloads into stream items. Both wire protocols are decided here; the
//! network reads, and the JSON decoding of each payload into the plain
//! records below, happen outside.

use vstd::prelude::*;
use crate::api::{FunctionCall, StreamItem, ToolCall, UsageInfo};
use crate::text::{chars_of, lit, push_str, slice_chars, str_eq, string_of, trim, trim_chars, trim_spec};

verus! {

// ------------------------------------------------------------------ lines

/// The newline byte.
pub const NEWLINE: u8 = 10;

/// Lines written back out, each followed by a newline.
pub open spec fn framed(lines: Seq<Seq<u8>>) -> Seq<u8>
    decreases lines.len(),
{
    if lines.len() == 0 {
        Seq::empty()
    } else {
        framed(lines.drop_last()) + lines.last().push(NEWLINE)
    }
}

pub open spec fn no_newline(s: Seq<u8>) -> bool {
    forall|i: int| 0 <= i < s.len() ==> s[i] != NEWLINE
}

pub open spec fn bytes_views(v: Seq<Vec<u8>>) -> Seq<Seq<u8>> {
    v.map_values(|l: Vec<u8>| l@)
}

/// Bytes received but not yet ended by a newline.
pub struct LineBuffer {
    pub pending: Vec<u8>,
}

impl LineBuffer {
    pub fn new() -> (r: LineBuffer)
        ensures
            r.pending@.len() == 0,
    {
        LineBuffer { pending: Vec::new() }
    }

    /// Take in `bytes` and hand out every line they complete, without its
    /// newline. Nothing is lost or reordered: the lines, each with its
    /// newline, followed by what is left pending, are exactly what was
    /// pending before followed by `bytes`.
    pub fn push(&mut self, bytes: &[u8]) -> (lines: Vec<Vec<u8>>)
        ensures
            framed(bytes_views(lines@)) + final(self).pending@ == old(self).pending@ + bytes@,
            no_newline(final(self).pending@),
            forall|i: int| 0 <= i < lines@.len() ==> no_newline(#[trigger] lines@[i]@),
    {
        let mut buf: Vec<u8> = Vec::new();
        let mut k: usize = 0;
        while k < self.pending.len()
            invariant
                k <= self.pending@.len(),
                buf@ == self.pending@.take(k as int),
            decreases self.pending.len() - k,
        {
            buf.push(self.pending[k]);
            assert(buf@ =~= self.pending@.take(k + 1));
            k += 1;
        }
        let mut k: usize = 0;
        let ghost base = buf@;
        while k < bytes.len()
            invariant
                k <= bytes@.len(),
                buf@ == base + bytes@.take(k as int),
            decreases bytes.len() - k,
        {
            buf.push(bytes[k]);
            assert(buf@ =~= base + bytes@.take(k + 1));
            k += 1;
        }
        assert(self.pending@.take(self.pending@.len() as int) =~= self.pending@);
        assert(bytes@.take(bytes@.len() as int) =~= bytes@);
        let mut lines: Vec<Vec<u8>> = Vec::new();
        let mut start: usize = 0;
        let mut i: usize = 0;
        while i < buf.len()
            invariant
                start <= i <= buf@.len(),
                framed(bytes_views(lines@)) == buf@.take(start as int),
                no_newline(buf@.subrange(start as int, i as int)),
                forall|j: int| 0 <= j < lines@.len() ==> no_newline(#[trigger] lines@[j]@),
            decreases buf.len() - i,
        {
            if buf[i] == NEWLINE {
                let mut line: Vec<u8> = Vec::new();
                let mut m = start;
                while m < i
                    invariant
                        start <= m <= i < buf@.len(),
                        line@ == buf@.subrange(start as int, m as int),
                    decreases i - m,
                {
                    line.push(buf[m]);
                    assert(line@ =~= buf@.subrange(start as int, m + 1));
                    m += 1;
                }
                let ghost before = lines@;
                lines.push(line);
                proof {
                    assert(bytes_views(lines@).drop_last() =~= bytes_views(before));
                    assert(bytes_views(lines@).last() == buf@.subrange(start as int, i as int));
                    assert(buf@.take(i + 1) =~= buf@.take(start as int) + buf@.subrange(start as int, i as int).push(
                        NEWLINE,
                    ));
                    assert forall|j: int| 0 <= j < lines@.len() implies no_newline(#[trigger] lines@[j]@) by {
                        if j < before.len() {
                            assert(lines@[j] == before[j]);
                        }
                    }
                }
                start = i + 1;
            } else {
                assert(buf@.subrange(start as int, i + 1) =~= buf@.subrange(start as int, i as int).push(buf@[i as int]));
            }
            i += 1;
        }
        let mut rest: Vec<u8> = Vec::new();
        let mut m = start;
        while m < buf.len()
            invariant
                start <= m <= buf@.len(),
                rest@ == buf@.subrange(start as int, m as int),
            decreases buf.len() - m,
        {
            rest.push(buf[m]);
            assert(rest@ =~= buf@.subrange(start as int, m + 1));
            m += 1;
        }
        assert(buf@.take(start as int) + rest@ =~= buf@);
        self.pending = rest;
        lines
    }
}

/// How `String::from_utf8_lossy` decodes `bytes`.
pub uninterp spec fn utf8_lossy(bytes: Seq<u8>) -> Seq<char>;

/// `String::from_utf8_lossy`, owned. Claimed: the text is [`utf8_lossy`] of
/// the bytes, a function of them alone; the decoding is not stated.
#[verifier::external_body]
pub fn lossy_text(bytes: &[u8]) -> (r: String)
    ensures
        r@ == utf8_lossy(bytes@),
{
    String::from_utf8_lossy(bytes).into_owned()
}

/// The payload of an SSE `data:` line, trimmed; `None` for any other line.
pub open spec fn data_payload_spec(line: Seq<char>) -> Option<Seq<char>> {
    if line.len() >= 6 && line.take(6) == "data: "@ {
        Some(trim_spec(line.skip(6)))
    } else {
        None
    }
}

pub fn data_payload(line: &str) -> (r: Option<String>)
    ensures
        crate::config::opt_seq(r) == data_payload_spec(line@),
{
    let cs = chars_of(line);
    let p = chars_of("data: ");
    proof {
        reveal_strlit("data: ");
    }
    if crate::text::starts_with(cs.as_slice(), p.as_slice()) {
        assert(cs@.take(6) =~= "data: "@);
        let rest = slice_chars(cs.as_slice(), 6, cs.len());
        assert(rest@ =~= line@.skip(6));
        let t = trim_chars(rest.as_slice());
        Some(string_of(t.as_slice()))
    } else {
        proof {
            if cs@.len() >= 6 && cs@.take(6) == "data: "@ {
                assert(cs@.subrange(0, 6) =~= p@);
            }
        }
        None
    }
}


// ---------------------------------------------------- OpenAI-style deltas

/// One fragment of a streamed tool call, as a delta carries it.
pub struct ToolDelta {
    /// Which call the fragment belongs to.
    pub index: usize,
    pub id: Option<String>,
    pub tool_type: Option<String>,
    pub name: Option<String>,
    /// A chunk of the JSON arguments.
    pub arguments: Option<String>,
}

/// What one `choices[0]` of a chunk carries.
pub struct ChoiceDelta {
    pub reasoning: Option<String>,
    pub content: Option<String>,
    pub tool_calls: Vec<ToolDelta>,
    pub finish_reason: Option<String>,
}

/// One decoded `data:` chunk of an OpenAI-style stream.
pub struct OpenAiChunk {
    pub usage: Option<UsageInfo>,
    pub choice: Option<ChoiceDelta>,
}

/// A tool call being assembled from its fragments.
pub struct PartialToolCall {
    pub id: String,
    pub tool_type: String,
    pub name: String,
    pub arguments: String,
}

pub struct PartialView {
    pub id: Seq<char>,
    pub tool_type: Seq<char>,
    pub name: Seq<char>,
    pub arguments: Seq<char>,
}

impl View for PartialToolCall {
    type V = PartialView;

    open spec fn view(&self) -> PartialView {
        PartialView { id: self.id@, tool_type: self.tool_type@, name: self.name@, arguments: self.arguments@ }
    }
}

pub open spec fn opt_v(o: Option<String>) -> Option<Seq<char>> {
    match o {
        Some(s) => Some(s@),
        None => None,
    }
}

/// A field the fragment sets: a present, non-empty value replaces the old.
pub open spec fn set_if_given(old: Seq<char>, new: Option<Seq<char>>) -> Seq<char> {
    match new {
        Some(v) => if v.len() > 0 { v } else { old },
        None => old,
    }
}

/// A call with a fragment folded in: id, type and name replaced when given,
/// the arguments chunk appended.
pub open spec fn merge_delta(p: PartialView, d: ToolDelta) -> PartialView {
    PartialView {
        id: set_if_given(p.id, opt_v(d.id)),
        tool_type: set_if_given(p.tool_type, opt_v(d.tool_type)),
        name: set_if_given(p.name, opt_v(d.name)),
        arguments: p.arguments + match opt_v(d.arguments) { Some(a) => a, None => Seq::empty() },
    }
}

/// The state of a call no fragment has touched yet.
pub open spec fn fresh_partial() -> PartialView {
    PartialView { id: Seq::empty(), tool_type: "function"@, name: Seq::empty(), arguments: Seq::empty() }
}

pub open spec fn partials_view(ps: Seq<(usize, PartialToolCall)>) -> Seq<(usize, PartialView)> {
    ps.map_values(|e: (usize, PartialToolCall)| (e.0, e.1@))
}

/// Calls are kept in order of their index, each index once.
pub open spec fn ordered(ps: Seq<(usize, PartialView)>) -> bool {
    forall|i: int, j: int| 0 <= i < j < ps.len() ==> #[trigger] ps[i].0 < #[trigger] ps[j].0
}

/// How many calls have an index below `k`.
pub open spec fn below(ps: Seq<(usize, PartialView)>, k: usize) -> nat
    decreases ps.len(),
{
    if ps.len() == 0 {
        0
    } else {
        below(ps.drop_last(), k) + if ps.last().0 < k { 1nat } else { 0nat }
    }
}

/// The calls with one fragment folded in: into the call of its index, or a
/// new call in its place in the order.
pub open spec fn upsert(ps: Seq<(usize, PartialView)>, d: ToolDelta) -> Seq<(usize, PartialView)> {
    let i = below(ps, d.index) as int;
    if i < ps.len() && ps[i].0 == d.index {
        ps.update(i, (d.index, merge_delta(ps[i].1, d)))
    } else {
        ps.insert(i, (d.index, merge_delta(fresh_partial(), d)))
    }
}

pub open spec fn upsert_all(ps: Seq<(usize, PartialView)>, ds: Seq<ToolDelta>) -> Seq<(usize, PartialView)>
    decreases ds.len(),
{
    if ds.len() == 0 {
        ps
    } else {
        upsert(upsert_all(ps, ds.drop_last()), ds.last())
    }
}

/// The calls that get emitted at the end: those that learned a name.
pub open spec fn named(ps: Seq<(usize, PartialView)>) -> Seq<PartialView>
    decreases ps.len(),
{
    if ps.len() == 0 {
        Seq::empty()
    } else {
        named(ps.drop_last()) + if ps.last().1.name.len() > 0 {
            seq![ps.last().1]
        } else {
            Seq::<PartialView>::empty()
        }
    }
}

/// Whether `item` is the tool call emitted for `p`: a missing id gets a
/// fresh `call_` one, missing arguments become `{}`.
pub open spec fn emitted_for(item: StreamItem, p: PartialView) -> bool {
    item matches StreamItem::ToolCall(tc) && tc.function.name@ == p.name && tc.tool_type@ == p.tool_type
        && tc.function.arguments@ == (if p.arguments.len() > 0 { p.arguments } else { "{}"@ })
        && (if p.id.len() > 0 {
        tc.id@ == p.id
    } else {
        tc.id@.len() >= 5 && tc.id@.take(5) == "call_"@
    })
}

pub open spec fn emits(items: Seq<StreamItem>, ps: Seq<PartialView>) -> bool {
    items.len() == ps.len() && forall|i: int| 0 <= i < items.len() ==> emitted_for(#[trigger] items[i], ps[i])
}

/// The text items a choice yields: non-empty reasoning, then non-empty
/// content.
pub open spec fn text_items(c: ChoiceDelta) -> Seq<StreamItem> {
    (match c.reasoning {
        Some(r) => if r@.len() > 0 { seq![StreamItem::Reasoning(r)] } else { seq![] },
        None => seq![],
    }) + (match c.content {
        Some(t) => if t@.len() > 0 { seq![StreamItem::Content(t)] } else { seq![] },
        None => seq![],
    })
}

/// The state of an OpenAI-style stream between chunks.
pub struct OpenAiStream {
    pub partial: Vec<(usize, PartialToolCall)>,
    pub finished: bool,
}

proof fn lemma_below_le(ps: Seq<(usize, PartialView)>, k: usize)
    ensures
        below(ps, k) <= ps.len(),
    decreases ps.len(),
{
    if ps.len() > 0 {
        lemma_below_le(ps.drop_last(), k);
    }
}

proof fn lemma_below_prefix(ps: Seq<(usize, PartialView)>, k: usize, i: int)
    requires
        ordered(ps),
        0 <= i <= ps.len(),
        forall|j: int| 0 <= j < i ==> (#[trigger] ps[j]).0 < k,
        i == ps.len() || ps[i].0 >= k,
    ensures
        below(ps, k) == i,
    decreases ps.len(),
{
    if ps.len() > 0 {
        let p = ps.drop_last();
        if i == ps.len() {
            assert forall|j: int| 0 <= j < p.len() implies (#[trigger] p[j]).0 < k by {
                assert(p[j] == ps[j]);
            }
            lemma_below_prefix(p, k, i - 1);
            assert(ps.last().0 < k);
        } else {
            assert(ordered(p)) by {
                assert forall|a: int, b: int| 0 <= a < b < p.len() implies #[trigger] p[a].0 < #[trigger] p[b].0 by {
                    assert(p[a] == ps[a] && p[b] == ps[b]);
                }
            }
            assert forall|j: int| 0 <= j < i implies (#[trigger] p[j]).0 < k by {
                assert(p[j] == ps[j]);
            }
            if i < p.len() {
                assert(p[i] == ps[i]);
            }
            lemma_below_prefix(p, k, i);
            if i < ps.len() - 1 {
                assert(ps[i].0 < ps[ps.len() - 1].0);
            }
            assert(ps.last().0 >= k);
        }
    }
}

fn copy_partial(p: &PartialToolCall) -> (r: PartialToolCall)
    ensures
        r@ == p@,
{
    PartialToolCall {
        id: p.id.clone(),
        tool_type: p.tool_type.clone(),
        name: p.name.clone(),
        arguments: p.arguments.clone(),
    }
}

fn merge_exec(p: &PartialToolCall, d: &ToolDelta) -> (r: PartialToolCall)
    ensures
        r@ == merge_delta(p@, *d),
{
    let id = match &d.id {
        Some(v) => if v.as_str().is_empty() { p.id.clone() } else { v.clone() },
        None => p.id.clone(),
    };
    let tool_type = match &d.tool_type {
        Some(v) => if v.as_str().is_empty() { p.tool_type.clone() } else { v.clone() },
        None => p.tool_type.clone(),
    };
    let name = match &d.name {
        Some(v) => if v.as_str().is_empty() { p.name.clone() } else { v.clone() },
        None => p.name.clone(),
    };
    let mut arguments = p.arguments.clone();
    match &d.arguments {
        Some(a) => push_str(&mut arguments, a.as_str()),
        None => {
            assert(arguments@ =~= p.arguments@ + Seq::<char>::empty());
        },
    }
    PartialToolCall { id, tool_type, name, arguments }
}

fn fresh_exec() -> (r: PartialToolCall)
    ensures
        r@ == fresh_partial(),
{
    PartialToolCall { id: String::new(), tool_type: lit("function"), name: String::new(), arguments: String::new() }
}

/// A fresh `call_` id for a call the provider sent without one.
fn fresh_call_id() -> (r: String)
    ensures
        r@.len() >= 5 && r@.take(5) == "call_"@,
{
    let mut r = lit("call_");
    push_str(&mut r, crate::history::fresh_uuid().as_str());
    proof {
        reveal_strlit("call_");
    }
    assert(r@.take(5) =~= "call_"@);
    r
}

/// What applying `chunk` does: `items` are its usage and text in order,
/// then, when it carries a finish reason, the calls it completes and the
/// finish; the open calls merge its deltas, or are all flushed on finish.
pub open spec fn applied(old: OpenAiStream, new: OpenAiStream, chunk: OpenAiChunk, items: Seq<StreamItem>) -> bool {
    let usage: Seq<StreamItem> = match chunk.usage {
        Some(u) => seq![StreamItem::Usage(u)],
        None => seq![],
    };
    match chunk.choice {
        None => items =~= usage && new.partial@ =~= old.partial@ && new.finished
            == old.finished,
        Some(c) => {
            let text = text_items(c);
            let merged = upsert_all(partials_view(old.partial@), c.tool_calls@);
            &&& items.len() >= usage.len() + text.len()
            &&& items.take((usage.len() + text.len()) as int) =~= usage + text
            &&& match c.finish_reason {
                None => items.len() == usage.len() + text.len() && partials_view(new.partial@)
                    =~= merged && new.finished == old.finished,
                Some(reason) => {
                    let tail = items.skip((usage.len() + text.len()) as int);
                    &&& tail.len() >= 1
                    &&& emits(tail.drop_last(), named(merged))
                    &&& tail.last() == StreamItem::Finish(Some(reason))
                    &&& new.partial@.len() == 0
                    &&& new.finished
                },
            }
        },
    }
}

impl OpenAiStream {
    pub fn new() -> (r: OpenAiStream)
        ensures
            r.partial@.len() == 0,
            !r.finished,
    {
        OpenAiStream { partial: Vec::new(), finished: false }
    }

    /// Fold one fragment into the calls being assembled.
    fn upsert_delta(&mut self, d: &ToolDelta)
        requires
            ordered(partials_view(old(self).partial@)),
        ensures
            partials_view(final(self).partial@) == upsert(partials_view(old(self).partial@), *d),
            ordered(partials_view(final(self).partial@)),
            final(self).finished == old(self).finished,
    {
        let ghost ps = partials_view(self.partial@);
        let mut i: usize = 0;
        while i < self.partial.len() && self.partial[i].0 < d.index
            invariant
                i <= self.partial@.len(),
                ps == partials_view(self.partial@),
                ordered(ps),
                forall|j: int| 0 <= j < i ==> (#[trigger] ps[j]).0 < d.index,
            decreases self.partial.len() - i,
        {
            i += 1;
        }
        proof {
            lemma_below_prefix(ps, d.index, i as int);
        }
        if i < self.partial.len() && self.partial[i].0 == d.index {
            let merged = merge_exec(&self.partial[i].1, d);
            self.partial.set(i, (d.index, merged));
            proof {
                let now = partials_view(self.partial@);
                assert(now =~= ps.update(i as int, (d.index, merge_delta(ps[i as int].1, *d))));
                assert forall|a: int, b: int| 0 <= a < b < now.len() implies #[trigger] now[a].0 < #[trigger] now[b].0 by {
                    assert(ps[a].0 < ps[b].0);
                }
            }
        } else {
            let merged = merge_exec(&fresh_exec(), d);
            self.partial.insert(i, (d.index, merged));
            proof {
                let now = partials_view(self.partial@);
                assert(now =~= ps.insert(i as int, (d.index, merge_delta(fresh_partial(), *d))));
                assert forall|a: int, b: int| 0 <= a < b < now.len() implies #[trigger] now[a].0 < #[trigger] now[b].0 by {
                    if b < i {
                        assert(ps[a].0 < ps[b].0);
                    } else if b == i {
                        assert(ps[a].0 < d.index);
                    } else if a < i {
                        assert(ps[a].0 < d.index);
                        assert(ps[b - 1].0 >= ps[i as int].0 || b - 1 == i);
                        if b - 1 > i {
                            assert(ps[i as int].0 < ps[b - 1].0);
                        }
                    } else if a == i {
                        if b - 1 > i {
                            assert(ps[i as int].0 < ps[b - 1].0);
                        }
                    } else {
                        assert(ps[a - 1].0 < ps[b - 1].0);
                    }
                }
            }
        }
    }

    /// Emit the assembled calls, in index order, and forget them.
    fn flush(&mut self, out: &mut Vec<StreamItem>)
        ensures
            final(out)@.len() >= old(out)@.len(),
            final(out)@.take(old(out)@.len() as int) == old(out)@,
            emits(final(out)@.skip(old(out)@.len() as int), named(partials_view(old(self).partial@))),
            final(self).partial@.len() == 0,
            final(self).finished == old(self).finished,
    {
        let ghost start = out@.len();
        let ghost ps = partials_view(self.partial@);
        let mut i: usize = 0;
        while i < self.partial.len()
            invariant
                i <= self.partial@.len(),
                ps == partials_view(self.partial@),
                out@.len() >= start,
                out@.take(start as int) == old(out)@,
                start == old(out)@.len(),
                emits(out@.skip(start as int), named(ps.take(i as int))),
            decreases self.partial.len() - i,
        {
            let ghost before = out@;
            assert(ps.take(i + 1).drop_last() =~= ps.take(i as int));
            let p = &self.partial[i].1;
            if !p.name.as_str().is_empty() {
                let id = if p.id.as_str().is_empty() { fresh_call_id() } else { p.id.clone() };
                let arguments = if p.arguments.as_str().is_empty() { lit("{}") } else { p.arguments.clone() };
                out.push(StreamItem::ToolCall(ToolCall {
                    id,
                    tool_type: p.tool_type.clone(),
                    function: FunctionCall { name: p.name.clone(), arguments },
                }));
                proof {
                    let nv = named(ps.take(i + 1));
                    assert(nv == named(ps.take(i as int)).push(ps[i as int].1));
                    assert(out@.skip(start as int) =~= before.skip(start as int).push(out@.last()));
                    assert forall|k: int| 0 <= k < out@.skip(start as int).len() implies emitted_for(
                        #[trigger] out@.skip(start as int)[k],
                        nv[k],
                    ) by {
                        if k < before.skip(start as int).len() {
                            assert(out@.skip(start as int)[k] == before.skip(start as int)[k]);
                        }
                    }
                }
            } else {
                assert(named(ps.take(i + 1)) =~= named(ps.take(i as int)));
            }
            assert(out@.take(start as int) =~= old(out)@);
            i += 1;
        }
        assert(ps.take(i as int) =~= ps);
        self.partial = Vec::new();
    }

    /// Handle one decoded chunk: usage first (it may come with no choice),
    /// then the choice's reasoning and content, then its tool-call
    /// fragments; a finish reason emits the assembled calls, then the finish,
    /// and ends the stream.
    pub fn apply(&mut self, chunk: &OpenAiChunk) -> (items: Vec<StreamItem>)
        requires
            ordered(partials_view(old(self).partial@)),
        ensures
            ordered(partials_view(final(self).partial@)),
            applied(*old(self), *final(self), *chunk, items@),
    {
        let mut items: Vec<StreamItem> = Vec::new();
        match &chunk.usage {
            Some(u) => items.push(StreamItem::Usage(*u)),
            None => {},
        }
        let ghost usage = items@;
        match &chunk.choice {
            None => {
                return items;
            },
            Some(c) => {
                match &c.reasoning {
                    Some(r) => if !r.as_str().is_empty() {
                        items.push(StreamItem::Reasoning(r.clone()));
                    },
                    None => {},
                }
                match &c.content {
                    Some(t) => if !t.as_str().is_empty() {
                        items.push(StreamItem::Content(t.clone()));
                    },
                    None => {},
                }
                assert(items@ =~= usage + text_items(*c));
                let ghost fixed = items@;
                let mut k: usize = 0;
                while k < c.tool_calls.len()
                    invariant
                        k <= c.tool_calls@.len(),
                        ordered(partials_view(self.partial@)),
                        partials_view(self.partial@) == upsert_all(partials_view(old(self).partial@), c.tool_calls@.take(k as int)),
                        self.finished == old(self).finished,
                        items@ == fixed,
                    decreases c.tool_calls.len() - k,
                {
                    assert(c.tool_calls@.take(k + 1).drop_last() =~= c.tool_calls@.take(k as int));
                    self.upsert_delta(&c.tool_calls[k]);
                    k += 1;
                }
                assert(c.tool_calls@.take(k as int) =~= c.tool_calls@);
                match &c.finish_reason {
                    Some(reason) => {
                        let ghost merged = partials_view(self.partial@);
                        self.flush(&mut items);
                        let ghost flushed = items@;
                        assert(emits(flushed.skip(fixed.len() as int), named(merged)));
                        items.push(StreamItem::Finish(Some(reason.clone())));
                        self.finished = true;
                        proof {
                            let n = fixed.len() as int;
                            assert(items@.take(n) =~= fixed);
                            let tail = items@.skip(n);
                            assert(items@.drop_last() =~= flushed);
                            assert(tail.drop_last() =~= flushed.skip(n));
                        }
                    },
                    None => {},
                }
                items
            },
        }
    }

    /// The end-of-stream marker: emit the assembled calls and stop.
    /// One `data:` payload of an OpenAI-style stream: `[DONE]` ends the
    /// stream, flushing the calls still open; any other payload is a chunk,
    /// passed in decoded (`None` when it was not valid JSON: such a line is
    /// skipped). The items, and whether the stream ended.
    pub fn data_line(&mut self, data: &str, chunk: Option<&OpenAiChunk>) -> (r: (Vec<StreamItem>, bool))
        requires
            ordered(partials_view(old(self).partial@)),
        ensures
            ordered(partials_view(final(self).partial@)),
            data@ == "[DONE]"@ ==> {
                &&& r.1
                &&& emits(r.0@, named(partials_view(old(self).partial@)))
                &&& final(self).partial@.len() == 0
                &&& final(self).finished
            },
            data@ != "[DONE]"@ ==> !r.1 && match chunk {
                None => r.0@.len() == 0 && final(self).partial@ == old(self).partial@ && final(self).finished == old(self).finished,
                Some(c) => applied(*old(self), *final(self), *c, r.0@),
            },
    {
        if crate::text::str_eq(data, "[DONE]") {
            let items = self.done();
            return (items, true);
        }
        match chunk {
            None => (Vec::new(), false),
            Some(c) => (self.apply(c), false),
        }
    }

    pub fn done(&mut self) -> (items: Vec<StreamItem>)
        ensures
            emits(items@, named(partials_view(old(self).partial@))),
            final(self).partial@.len() == 0,
            final(self).finished,
    {
        let mut items: Vec<StreamItem> = Vec::new();
        self.flush(&mut items);
        self.finished = true;
        assert(items@.skip(0) =~= items@);
        items
    }
}


// ---------------------------------------------------- Anthropic-style events

/// One decoded `data:` event of an Anthropic-style stream.
pub enum AnthropicEvent {
    /// The message opens; its input usage, if reported: fresh input tokens,
    /// cache reads, cache writes.
    MessageStart { usage: Option<(u64, u64, u64)> },
    /// A content block opens at `index`; `kind` is its type ("text",
    /// "thinking", "tool_use", ...).
    BlockStart { index: usize, kind: String, id: String, name: String },
    TextDelta(String),
    ThinkingDelta(String),
    /// A chunk of a tool call's JSON input, for the block at `index`.
    InputJsonDelta { index: usize, partial_json: String },
    BlockStop { index: usize },
    MessageDelta { output_tokens: Option<u64>, stop_reason: Option<String> },
    MessageStop,
    /// Anything else; it changes nothing.
    Other,
}

/// A content block being received.
pub struct BlockState {
    pub kind: String,
    pub id: String,
    pub name: String,
    pub json_buf: String,
}

pub struct BlockView {
    pub kind: Seq<char>,
    pub id: Seq<char>,
    pub name: Seq<char>,
    pub json_buf: Seq<char>,
}

impl View for BlockState {
    type V = BlockView;

    open spec fn view(&self) -> BlockView {
        BlockView { kind: self.kind@, id: self.id@, name: self.name@, json_buf: self.json_buf@ }
    }
}

pub open spec fn blocks_view(bs: Seq<(usize, BlockState)>) -> Seq<(usize, BlockView)> {
    bs.map_values(|e: (usize, BlockState)| (e.0, e.1@))
}

/// Where the block of index `k` is kept, if it is open.
pub open spec fn block_at(bs: Seq<(usize, BlockView)>, k: usize) -> Option<int>
    decreases bs.len(),
{
    if bs.len() == 0 {
        None
    } else {
        match block_at(bs.drop_last(), k) {
            Some(i) => Some(i),
            None => if bs.last().0 == k { Some(bs.len() - 1) } else { None },
        }
    }
}

/// The open blocks after a block opens at `k`: it replaces any open block
/// of that index.
pub open spec fn blocks_after_start(bs: Seq<(usize, BlockView)>, k: usize, b: BlockView) -> Seq<(usize, BlockView)> {
    match block_at(bs, k) {
        Some(i) => bs.update(i, (k, b)),
        None => bs.push((k, b)),
    }
}

/// The open blocks after a JSON chunk for block `k`; ignored when no such
/// block is open.
pub open spec fn blocks_after_json(bs: Seq<(usize, BlockView)>, k: usize, pj: Seq<char>) -> Seq<(usize, BlockView)> {
    match block_at(bs, k) {
        Some(i) => bs.update(i, (k, BlockView { json_buf: bs[i].1.json_buf + pj, ..bs[i].1 })),
        None => bs,
    }
}

/// The tool call a finished `tool_use` block yields: blank input becomes `{}`.
pub open spec fn block_call(b: BlockView, item: StreamItem) -> bool {
    item matches StreamItem::ToolCall(tc) && tc.id@ == b.id && tc.tool_type@ == "function"@ && tc.function.name@
        == b.name && tc.function.arguments@ == (if trim_spec(b.json_buf).len() == 0 { "{}"@ } else { b.json_buf })
}

/// The state of an Anthropic-style stream between events.
pub struct AnthropicStream {
    pub blocks: Vec<(usize, BlockState)>,
    pub usage: UsageInfo,
    pub finished: bool,
}

proof fn lemma_block_at_prefix(bs: Seq<(usize, BlockView)>, k: usize, n: int)
    requires
        0 < n <= bs.len(),
        block_at(bs.take(n), k) is Some,
    ensures
        block_at(bs, k) == block_at(bs.take(n), k),
    decreases bs.len() - n,
{
    if n < bs.len() {
        assert(bs.drop_last().take(n) =~= bs.take(n));
        lemma_block_at_prefix(bs.drop_last(), k, n);
    } else {
        assert(bs.take(n) =~= bs);
    }
}

proof fn lemma_block_at_bound(bs: Seq<(usize, BlockView)>, k: usize)
    ensures
        match block_at(bs, k) {
            Some(i) => 0 <= i < bs.len() && bs[i].0 == k,
            None => true,
        },
    decreases bs.len(),
{
    if bs.len() > 0 {
        lemma_block_at_bound(bs.drop_last(), k);
    }
}

/// What handling `ev` does: the open blocks, usage and finish flag before
/// (`ob`, `ou`, `of`) and after (`nb`, `nu`, `nf`), and the items yielded.
/// Usage with every count at zero.
pub open spec fn zero_usage() -> UsageInfo {
    UsageInfo { prompt_tokens: 0, completion_tokens: 0, prompt_cache_hit_tokens: 0, prompt_cache_miss_tokens: 0 }
}

pub open spec fn event_spec(
    ob: Seq<(usize, BlockView)>,
    ou: UsageInfo,
    of: bool,
    ev: AnthropicEvent,
    nb: Seq<(usize, BlockView)>,
    nu: UsageInfo,
    nf: bool,
    items: Seq<StreamItem>,
) -> bool {
    match ev {
        AnthropicEvent::MessageStart { usage } => {
            &&& items.len() == 0
            &&& nb == ob
            &&& nf == of
            &&& match usage {
                Some((fresh, read, write)) => nu == UsageInfo {
                    prompt_tokens: (fresh + read + write) as u64,
                    prompt_cache_hit_tokens: read,
                    prompt_cache_miss_tokens: (fresh + write) as u64,
                    completion_tokens: ou.completion_tokens,
                },
                None => nu == ou,
            }
        },
        AnthropicEvent::BlockStart { index, kind, id, name } => {
            &&& items.len() == 0
            &&& nb == blocks_after_start(ob, index, BlockView { kind: kind@, id: id@, name: name@, json_buf: Seq::empty() })
            &&& nu == ou
            &&& nf == of
        },
        AnthropicEvent::TextDelta(t) => items == seq![StreamItem::Content(t)] && nb == ob && nu == ou && nf == of,
        AnthropicEvent::ThinkingDelta(t) => items == seq![StreamItem::Reasoning(t)] && nb == ob && nu == ou && nf == of,
        AnthropicEvent::InputJsonDelta { index, partial_json } => {
            &&& items.len() == 0
            &&& nb == blocks_after_json(ob, index, partial_json@)
            &&& nu == ou
            &&& nf == of
        },
        AnthropicEvent::BlockStop { index } => {
            &&& nu == ou
            &&& nf == of
            &&& match block_at(ob, index) {
                None => items.len() == 0 && nb == ob,
                Some(i) => nb == ob.remove(i) && if ob[i].1.kind == "tool_use"@ {
                    items.len() == 1 && block_call(ob[i].1, items[0])
                } else {
                    items.len() == 0
                },
            }
        },
        AnthropicEvent::MessageDelta { output_tokens, stop_reason } => {
            let u = match output_tokens {
                Some(o) => UsageInfo { completion_tokens: o, ..ou },
                None => ou,
            };
            &&& nu == u
            &&& nb == ob
            &&& nf == of
            &&& match stop_reason {
                Some(r) => items == seq![StreamItem::Usage(u), StreamItem::Finish(Some(r))],
                None => items.len() == 0,
            }
        },
        AnthropicEvent::MessageStop => items.len() == 0 && nf && nb == ob && nu == ou,
        AnthropicEvent::Other => items.len() == 0 && nb == ob && nu == ou && nf == of,
    }
}

impl AnthropicStream {
    pub fn new() -> (r: AnthropicStream)
        ensures
            r.blocks@.len() == 0,
            r.usage == zero_usage(),
            !r.finished,
    {
        AnthropicStream {
            blocks: Vec::new(),
            usage: UsageInfo { prompt_tokens: 0, completion_tokens: 0, prompt_cache_hit_tokens: 0, prompt_cache_miss_tokens: 0 },
            finished: false,
        }
    }

    fn find_block(&self, k: usize) -> (r: Option<usize>)
        ensures
            match r {
                Some(i) => block_at(blocks_view(self.blocks@), k) == Some(i as int) && i < self.blocks@.len(),
                None => block_at(blocks_view(self.blocks@), k) is None,
            },
    {
        let ghost bs = blocks_view(self.blocks@);
        let mut i: usize = 0;
        while i < self.blocks.len()
            invariant
                i <= self.blocks@.len(),
                bs == blocks_view(self.blocks@),
                block_at(bs.take(i as int), k) is None,
            decreases self.blocks.len() - i,
        {
            assert(bs.take(i + 1).drop_last() =~= bs.take(i as int));
            if self.blocks[i].0 == k {
                proof {
                    lemma_block_at_prefix(bs, k, i + 1);
                }
                return Some(i);
            }
            i += 1;
        }
        assert(bs.take(i as int) =~= bs);
        None
    }

    /// Handle one event, returning the items it yields. The prompt total is
    /// the sum of the three input counts, which must fit.
    pub fn handle(&mut self, ev: AnthropicEvent) -> (items: Vec<StreamItem>)
        requires
            match ev {
                AnthropicEvent::MessageStart { usage: Some((a, b, c)) } => a + b + c <= u64::MAX,
                _ => true,
            },
        ensures
            event_spec(
                blocks_view(old(self).blocks@),
                old(self).usage,
                old(self).finished,
                ev,
                blocks_view(final(self).blocks@),
                final(self).usage,
                final(self).finished,
                items@,
            ),
    {
        let mut items: Vec<StreamItem> = Vec::new();
        match ev {
            AnthropicEvent::MessageStart { usage } => {
                match usage {
                    Some((fresh, read, write)) => {
                        self.usage.prompt_tokens = fresh + read + write;
                        self.usage.prompt_cache_hit_tokens = read;
                        self.usage.prompt_cache_miss_tokens = fresh + write;
                    },
                    None => {},
                }
            },
            AnthropicEvent::BlockStart { index, kind, id, name } => {
                let ghost bv = BlockView { kind: kind@, id: id@, name: name@, json_buf: Seq::empty() };
                let b = BlockState { kind, id, name, json_buf: String::new() };
                match self.find_block(index) {
                    Some(i) => {
                        self.blocks.set(i, (index, b));
                        assert(blocks_view(self.blocks@) =~= blocks_view(old(self).blocks@).update(i as int, (index, bv)));
                    },
                    None => {
                        self.blocks.push((index, b));
                        assert(blocks_view(self.blocks@) =~= blocks_view(old(self).blocks@).push((index, bv)));
                    },
                }
            },
            AnthropicEvent::TextDelta(t) => {
                items.push(StreamItem::Content(t));
            },
            AnthropicEvent::ThinkingDelta(t) => {
                items.push(StreamItem::Reasoning(t));
            },
            AnthropicEvent::InputJsonDelta { index, partial_json } => {
                match self.find_block(index) {
                    Some(i) => {
                        let ghost old_b = blocks_view(self.blocks@)[i as int].1;
                        let old_entry = &self.blocks[i].1;
                        let mut buf = old_entry.json_buf.clone();
                        push_str(&mut buf, partial_json.as_str());
                        let b = BlockState {
                            kind: old_entry.kind.clone(),
                            id: old_entry.id.clone(),
                            name: old_entry.name.clone(),
                            json_buf: buf,
                        };
                        self.blocks.set(i, (index, b));
                        assert(blocks_view(self.blocks@) =~= blocks_view(old(self).blocks@).update(
                            i as int,
                            (index, BlockView { json_buf: old_b.json_buf + partial_json@, ..old_b }),
                        ));
                    },
                    None => {},
                }
            },
            AnthropicEvent::BlockStop { index } => {
                match self.find_block(index) {
                    Some(i) => {
                        let ghost bs = blocks_view(self.blocks@);
                        let (_, b) = self.blocks.remove(i);
                        assert(blocks_view(self.blocks@) =~= bs.remove(i as int));
                        assert(b@ == bs[i as int].1);
                        if str_eq(b.kind.as_str(), "tool_use") {
                            let arguments = if trim(b.json_buf.as_str()).as_str().is_empty() {
                                lit("{}")
                            } else {
                                b.json_buf
                            };
                            items.push(StreamItem::ToolCall(ToolCall {
                                id: b.id,
                                tool_type: lit("function"),
                                function: FunctionCall { name: b.name, arguments },
                            }));
                        }
                    },
                    None => {},
                }
            },
            AnthropicEvent::MessageDelta { output_tokens, stop_reason } => {
                match output_tokens {
                    Some(o) => {
                        self.usage.completion_tokens = o;
                    },
                    None => {},
                }
                match stop_reason {
                    Some(r) => {
                        let u = self.usage;
                        items.push(StreamItem::Usage(u));
                        items.push(StreamItem::Finish(Some(r)));
                        assert(items@ =~= seq![StreamItem::Usage(u), StreamItem::Finish(Some(r))]);
                    },
                    None => {},
                }
            },
            AnthropicEvent::MessageStop => {
                self.finished = true;
            },
            AnthropicEvent::Other => {},
        }
        items
    }
}

} // verus!

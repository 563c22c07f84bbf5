//! The Anthropic Messages request: the neutral conversation translated into
//! that wire's shape. System messages are hoisted to one top-level field,
//! tool calls become `tool_use` blocks, and consecutive tool results are
//! merged into one user turn of `tool_result` blocks. Rendering the request
//! as JSON happens outside.

use vstd::prelude::*;
use crate::api::{Message, MessageView, Tool, ToolCall, ToolCallView, clone_json, messages_view};
use crate::text::{lit, push_str, str_eq};

verus! {

/// Anthropic requires a ceiling on the reply; this is the default one.
pub const MAX_TOKENS: u64 = 8192;

/// One content block of a turn.
pub enum AnthropicBlock {
    Text(String),
    /// A tool call; `arguments` is the call's JSON text, rendered as the
    /// block's `input` (an object, `{}` when it does not parse).
    ToolUse { id: String, name: String, arguments: String },
    ToolResult { tool_use_id: String, content: String },
}

/// What a turn carries: plain text, or blocks.
pub enum TurnContent {
    Text(String),
    Blocks(Vec<AnthropicBlock>),
}

pub struct AnthropicTurn {
    pub role: String,
    pub content: TurnContent,
}

/// A tool as this wire describes it.
pub struct AnthropicTool {
    pub name: String,
    pub description: String,
    pub input_schema: serde_json::Value,
}

/// A whole request body.
pub struct AnthropicRequest {
    pub model: String,
    pub max_tokens: u64,
    /// The system messages joined, when there are any.
    pub system: Option<String>,
    pub messages: Vec<AnthropicTurn>,
    /// The thinking effort, when thinking is on.
    pub effort: Option<String>,
    pub tools: Option<Vec<AnthropicTool>>,
}

pub enum BlockV {
    Text(Seq<char>),
    ToolUse { id: Seq<char>, name: Seq<char>, arguments: Seq<char> },
    ToolResult { tool_use_id: Seq<char>, content: Seq<char> },
}

pub enum ContentV {
    Text(Seq<char>),
    Blocks(Seq<BlockV>),
}

pub struct TurnV {
    pub role: Seq<char>,
    pub content: ContentV,
}

impl View for AnthropicBlock {
    type V = BlockV;

    open spec fn view(&self) -> BlockV {
        match self {
            AnthropicBlock::Text(t) => BlockV::Text(t@),
            AnthropicBlock::ToolUse { id, name, arguments } => BlockV::ToolUse { id: id@, name: name@, arguments: arguments@ },
            AnthropicBlock::ToolResult { tool_use_id, content } => BlockV::ToolResult {
                tool_use_id: tool_use_id@,
                content: content@,
            },
        }
    }
}

pub open spec fn blocks_v(v: Seq<AnthropicBlock>) -> Seq<BlockV> {
    v.map_values(|b: AnthropicBlock| b@)
}

impl View for AnthropicTurn {
    type V = TurnV;

    open spec fn view(&self) -> TurnV {
        TurnV {
            role: self.role@,
            content: match self.content {
                TurnContent::Text(t) => ContentV::Text(t@),
                TurnContent::Blocks(bs) => ContentV::Blocks(blocks_v(bs@)),
            },
        }
    }
}

pub open spec fn turns_v(v: Seq<AnthropicTurn>) -> Seq<TurnV> {
    v.map_values(|t: AnthropicTurn| t@)
}

/// The system messages' texts joined by blank lines.
pub open spec fn system_spec(ms: Seq<MessageView>) -> Seq<char>
    decreases ms.len(),
{
    if ms.len() == 0 {
        Seq::empty()
    } else {
        let acc = system_spec(ms.drop_last());
        match ms.last() {
            MessageView::Simple { role, content, .. } => if role == "system"@ {
                if acc.len() > 0 { acc + "\n\n"@ + content } else { content }
            } else {
                acc
            },
            _ => acc,
        }
    }
}

/// The blocks of an assistant turn: its text if any, then a `tool_use` per
/// call; never empty.
pub open spec fn assistant_blocks(content: Seq<char>, calls: Option<Seq<ToolCallView>>) -> Seq<BlockV> {
    let text: Seq<BlockV> = if content.len() > 0 { seq![BlockV::Text(content)] } else { seq![] };
    let uses: Seq<BlockV> = match calls {
        Some(cs) => cs.map_values(|c: ToolCallView| BlockV::ToolUse { id: c.id, name: c.name, arguments: c.arguments }),
        None => seq![],
    };
    if text.len() + uses.len() == 0 {
        seq![BlockV::Text(Seq::empty())]
    } else {
        text + uses
    }
}

/// Turns so far, plus tool results still waiting to be sent as one user
/// turn.
pub open spec fn flush_spec(out: Seq<TurnV>, pending: Seq<BlockV>) -> Seq<TurnV> {
    if pending.len() > 0 {
        out.push(TurnV { role: "user"@, content: ContentV::Blocks(pending) })
    } else {
        out
    }
}

pub open spec fn turns_acc(ms: Seq<MessageView>) -> (Seq<TurnV>, Seq<BlockV>)
    decreases ms.len(),
{
    if ms.len() == 0 {
        (Seq::empty(), Seq::empty())
    } else {
        let (out, pending) = turns_acc(ms.drop_last());
        match ms.last() {
            MessageView::ToolResponse { content, tool_call_id, .. } => (
                out,
                pending.push(BlockV::ToolResult { tool_use_id: tool_call_id, content }),
            ),
            MessageView::Simple { role, content, tool_calls, .. } => if role == "system"@ {
                (out, pending)
            } else if role == "assistant"@ {
                (
                    flush_spec(out, pending).push(
                        TurnV { role: "assistant"@, content: ContentV::Blocks(assistant_blocks(content, tool_calls)) },
                    ),
                    Seq::empty(),
                )
            } else {
                (flush_spec(out, pending).push(TurnV { role: "user"@, content: ContentV::Text(content) }), Seq::empty())
            },
        }
    }
}

/// The turns of the request.
pub open spec fn turns_spec(ms: Seq<MessageView>) -> Seq<TurnV> {
    flush_spec(turns_acc(ms).0, turns_acc(ms).1)
}

/// The `(id, content)` of each `tool_result` block, in order.
pub open spec fn block_results(bs: Seq<BlockV>) -> Seq<(Seq<char>, Seq<char>)>
    decreases bs.len(),
{
    if bs.len() == 0 {
        Seq::empty()
    } else {
        block_results(bs.drop_last()) + match bs.last() {
            BlockV::ToolResult { tool_use_id, content } => seq![(tool_use_id, content)],
            _ => Seq::empty(),
        }
    }
}

/// The `(id, content)` of each `tool_result` block across the turns, in
/// order.
pub open spec fn turn_results(ts: Seq<TurnV>) -> Seq<(Seq<char>, Seq<char>)>
    decreases ts.len(),
{
    if ts.len() == 0 {
        Seq::empty()
    } else {
        turn_results(ts.drop_last()) + match ts.last().content {
            ContentV::Blocks(bs) => block_results(bs),
            ContentV::Text(_) => Seq::empty(),
        }
    }
}

/// The `(id, content)` of each tool response of a conversation, in order.
pub open spec fn tool_responses(ms: Seq<MessageView>) -> Seq<(Seq<char>, Seq<char>)>
    decreases ms.len(),
{
    if ms.len() == 0 {
        Seq::empty()
    } else {
        tool_responses(ms.drop_last()) + match ms.last() {
            MessageView::ToolResponse { content, tool_call_id, .. } => seq![(tool_call_id, content)],
            _ => Seq::empty(),
        }
    }
}

proof fn lemma_no_results(bs: Seq<BlockV>)
    requires
        forall|i: int| 0 <= i < bs.len() ==> !(#[trigger] bs[i] is ToolResult),
    ensures
        block_results(bs) == Seq::<(Seq<char>, Seq<char>)>::empty(),
    decreases bs.len(),
{
    if bs.len() > 0 {
        lemma_no_results(bs.drop_last());
        assert(!(bs[bs.len() - 1] is ToolResult));
        assert(block_results(bs) =~= Seq::<(Seq<char>, Seq<char>)>::empty());
    }
}

proof fn lemma_assistant_has_no_results(content: Seq<char>, calls: Option<Seq<ToolCallView>>)
    ensures
        block_results(assistant_blocks(content, calls)) == Seq::<(Seq<char>, Seq<char>)>::empty(),
{
    let bs = assistant_blocks(content, calls);
    let text: Seq<BlockV> = if content.len() > 0 { seq![BlockV::Text(content)] } else { seq![] };
    let uses: Seq<BlockV> = match calls {
        Some(cs) => cs.map_values(|c: ToolCallView| BlockV::ToolUse { id: c.id, name: c.name, arguments: c.arguments }),
        None => seq![],
    };
    assert forall|i: int| 0 <= i < bs.len() implies !(#[trigger] bs[i] is ToolResult) by {
        if text.len() + uses.len() > 0 {
            if i >= text.len() {
                assert(bs[i] == uses[i - text.len()]);
            }
        }
    }
    lemma_no_results(bs);
}

proof fn lemma_block_results_push(bs: Seq<BlockV>, b: BlockV)
    ensures
        block_results(bs.push(b)) == block_results(bs) + match b {
            BlockV::ToolResult { tool_use_id, content } => seq![(tool_use_id, content)],
            _ => Seq::<(Seq<char>, Seq<char>)>::empty(),
        },
{
    assert(bs.push(b).drop_last() =~= bs);
}

proof fn lemma_turn_results_push(ts: Seq<TurnV>, t: TurnV)
    ensures
        turn_results(ts.push(t)) == turn_results(ts) + match t.content {
            ContentV::Blocks(bs) => block_results(bs),
            ContentV::Text(_) => Seq::<(Seq<char>, Seq<char>)>::empty(),
        },
{
    assert(ts.push(t).drop_last() =~= ts);
}

proof fn lemma_flush_results(out: Seq<TurnV>, pending: Seq<BlockV>)
    ensures
        turn_results(flush_spec(out, pending)) == turn_results(out) + block_results(pending),
{
    if pending.len() > 0 {
        lemma_turn_results_push(out, TurnV { role: "user"@, content: ContentV::Blocks(pending) });
    } else {
        assert(pending =~= Seq::<BlockV>::empty());
        assert(turn_results(out) + block_results(pending) =~= turn_results(out));
    }
}

proof fn lemma_acc_results(ms: Seq<MessageView>)
    ensures
        turn_results(turns_acc(ms).0) + block_results(turns_acc(ms).1) == tool_responses(ms),
    decreases ms.len(),
{
    if ms.len() == 0 {
        assert(turn_results(Seq::<TurnV>::empty()) + block_results(Seq::<BlockV>::empty())
            =~= Seq::<(Seq<char>, Seq<char>)>::empty());
    } else {
        let p = ms.drop_last();
        lemma_acc_results(p);
        let (out, pending) = turns_acc(p);
        let e = Seq::<(Seq<char>, Seq<char>)>::empty();
        match ms.last() {
            MessageView::ToolResponse { content, tool_call_id, .. } => {
                lemma_block_results_push(pending, BlockV::ToolResult { tool_use_id: tool_call_id, content });
                assert(turn_results(out) + (block_results(pending) + seq![(tool_call_id, content)])
                    =~= (turn_results(out) + block_results(pending)) + seq![(tool_call_id, content)]);
            },
            MessageView::Simple { role, content, tool_calls, .. } => {
                assert(tool_responses(ms) =~= tool_responses(p) + e);
                if role == "system"@ {
                } else {
                    lemma_flush_results(out, pending);
                    let t = if role == "assistant"@ {
                        TurnV { role: "assistant"@, content: ContentV::Blocks(assistant_blocks(content, tool_calls)) }
                    } else {
                        TurnV { role: "user"@, content: ContentV::Text(content) }
                    };
                    lemma_turn_results_push(flush_spec(out, pending), t);
                    lemma_assistant_has_no_results(content, tool_calls);
                    assert(block_results(Seq::<BlockV>::empty()) == e);
                    assert(turn_results(flush_spec(out, pending).push(t)) + block_results(Seq::<BlockV>::empty())
                        =~= turn_results(out) + block_results(pending));
                }
            },
        }
    }
}

/// No tool result is lost or reordered on the way to the Anthropic wire:
/// the `tool_result` blocks of the request's turns are the conversation's
/// tool responses, one each, with the same id and content, in order.
pub proof fn every_tool_result_is_sent_once_in_order(ms: Seq<MessageView>)
    ensures
        turn_results(turns_spec(ms)) == tool_responses(ms),
        turn_results(turns_spec(ms)).len() == tool_responses(ms).len(),
{
    lemma_acc_results(ms);
    lemma_flush_results(turns_acc(ms).0, turns_acc(ms).1);
}

fn text_block(t: &String) -> (b: AnthropicBlock)
    ensures
        b@ == BlockV::Text(t@),
{
    AnthropicBlock::Text(t.clone())
}

fn assistant_turn(content: &String, calls: &Option<Vec<ToolCall>>) -> (t: AnthropicTurn)
    ensures
        t@ == (TurnV {
            role: "assistant"@,
            content: ContentV::Blocks(assistant_blocks(content@, crate::api::opt_calls(*calls))),
        }),
{
    let mut blocks: Vec<AnthropicBlock> = Vec::new();
    if !content.as_str().is_empty() {
        blocks.push(text_block(content));
    }
    let ghost text = blocks_v(blocks@);
    assert(text =~= (if content@.len() > 0 { seq![BlockV::Text(content@)] } else { Seq::<BlockV>::empty() }));
    let ghost uses: Seq<BlockV> = match crate::api::opt_calls(*calls) {
        Some(cs) => cs.map_values(|c: ToolCallView| BlockV::ToolUse { id: c.id, name: c.name, arguments: c.arguments }),
        None => seq![],
    };
    match calls {
        Some(cs) => {
            let ghost cv = crate::api::calls_view(cs@);
            let mut i: usize = 0;
            while i < cs.len()
                invariant
                    i <= cs@.len(),
                    cv == crate::api::calls_view(cs@),
                    blocks@.len() == text.len() + i,
                    blocks_v(blocks@) == text + cv.map_values(
                        |c: ToolCallView| BlockV::ToolUse { id: c.id, name: c.name, arguments: c.arguments },
                    ).take(i as int),
                decreases cs.len() - i,
            {
                let c = &cs[i];
                let ghost before = blocks_v(blocks@);
                let b = AnthropicBlock::ToolUse {
                    id: c.id.clone(),
                    name: c.function.name.clone(),
                    arguments: c.function.arguments.clone(),
                };
                blocks.push(b);
                assert(cv[i as int] == c@);
                let ghost f = |c: ToolCallView| BlockV::ToolUse { id: c.id, name: c.name, arguments: c.arguments };
                assert(b@ == f(cv[i as int]));
                assert(blocks_v(blocks@) =~= before.push(b@));
                assert(cv.map_values(f).take(i + 1) =~= cv.map_values(f).take(i as int).push(f(cv[i as int])));
                assert(blocks_v(blocks@) =~= text + cv.map_values(
                    |c: ToolCallView| BlockV::ToolUse { id: c.id, name: c.name, arguments: c.arguments },
                ).take(i + 1));
                i += 1;
            }
            assert(cv.map_values(|c: ToolCallView| BlockV::ToolUse { id: c.id, name: c.name, arguments: c.arguments }).take(
                i as int,
            ) =~= uses);
        },
        None => {
            assert(blocks_v(blocks@) =~= text + uses);
        },
    }
    assert(blocks_v(blocks@) == text + uses);
    if blocks.len() == 0 {
        blocks.push(AnthropicBlock::Text(String::new()));
        assert(blocks_v(blocks@) =~= seq![BlockV::Text(Seq::empty())]);
    } else {
        assert((text + uses).len() > 0);
    }
    AnthropicTurn { role: lit("assistant"), content: TurnContent::Blocks(blocks) }
}

fn flush_exec(out: &mut Vec<AnthropicTurn>, pending: &mut Vec<AnthropicBlock>)
    ensures
        turns_v(final(out)@) == flush_spec(turns_v(old(out)@), blocks_v(old(pending)@)),
        final(pending)@.len() == 0,
{
    if pending.len() > 0 {
        let mut taken: Vec<AnthropicBlock> = Vec::new();
        std::mem::swap(&mut taken, pending);
        out.push(AnthropicTurn { role: lit("user"), content: TurnContent::Blocks(taken) });
        assert(turns_v(out@) =~= flush_spec(turns_v(old(out)@), blocks_v(old(pending)@)));
    }
}

/// Translate the conversation into an Anthropic Messages request.
pub fn build_body(model: &str, messages: &Vec<Message>, thinking_mode: &str, tools: Option<&Vec<Tool>>) -> (r: AnthropicRequest)
    ensures
        r.model@ == model@,
        r.max_tokens == MAX_TOKENS,
        match r.system {
            Some(s) => s@ == system_spec(messages_view(messages@)) && s@.len() > 0,
            None => system_spec(messages_view(messages@)).len() == 0,
        },
        turns_v(r.messages@) == turns_spec(messages_view(messages@)),
        match r.effort {
            Some(e) => thinking_mode@ != "none"@ && e@ == thinking_mode@,
            None => thinking_mode@ == "none"@,
        },
        match tools {
            None => r.tools is None,
            Some(ts) => r.tools matches Some(out) && out@.len() == ts@.len() && forall|i: int|
                0 <= i < ts@.len() ==> (#[trigger] out@[i]).name@ == ts@[i].function.name@ && out@[i].description@
                    == ts@[i].function.description@ && out@[i].input_schema == ts@[i].function.parameters,
        },
{
    let ghost mv = messages_view(messages@);
    let mut system = String::new();
    let mut out: Vec<AnthropicTurn> = Vec::new();
    let mut pending: Vec<AnthropicBlock> = Vec::new();
    let mut i: usize = 0;
    while i < messages.len()
        invariant
            i <= messages@.len(),
            mv == messages_view(messages@),
            system@ == system_spec(mv.take(i as int)),
            turns_v(out@) == turns_acc(mv.take(i as int)).0,
            blocks_v(pending@) == turns_acc(mv.take(i as int)).1,
        decreases messages.len() - i,
    {
        let ghost pre = mv.take(i as int);
        assert(mv.take(i + 1).drop_last() =~= pre);
        assert(mv.take(i + 1).last() == messages@[i as int]@);
        match &messages[i] {
            Message::ToolResponse { content, tool_call_id, .. } => {
                pending.push(AnthropicBlock::ToolResult { tool_use_id: tool_call_id.clone(), content: content.clone() });
                assert(blocks_v(pending@) =~= turns_acc(mv.take(i + 1)).1);
            },
            Message::Simple { role, content, tool_calls, .. } => {
                if str_eq(role.as_str(), "system") {
                    if !system.as_str().is_empty() {
                        push_str(&mut system, "\n\n");
                    }
                    push_str(&mut system, content.as_str());
                } else if str_eq(role.as_str(), "assistant") {
                    flush_exec(&mut out, &mut pending);
                    out.push(assistant_turn(content, tool_calls));
                    assert(turns_v(out@) =~= turns_acc(mv.take(i + 1)).0);
                    assert(blocks_v(pending@) =~= turns_acc(mv.take(i + 1)).1);
                } else {
                    flush_exec(&mut out, &mut pending);
                    out.push(AnthropicTurn { role: lit("user"), content: TurnContent::Text(content.clone()) });
                    assert(turns_v(out@) =~= turns_acc(mv.take(i + 1)).0);
                    assert(blocks_v(pending@) =~= turns_acc(mv.take(i + 1)).1);
                }
            },
        }
        i += 1;
    }
    assert(mv.take(i as int) =~= mv);
    flush_exec(&mut out, &mut pending);
    let system = if system.as_str().is_empty() { None } else { Some(system) };
    let effort = if str_eq(thinking_mode, "none") { None } else { Some(lit(thinking_mode)) };
    let tools = match tools {
        None => None,
        Some(ts) => {
            let mut mapped: Vec<AnthropicTool> = Vec::new();
            let mut k: usize = 0;
            while k < ts.len()
                invariant
                    k <= ts@.len(),
                    mapped@.len() == k,
                    forall|j: int| 0 <= j < k ==> (#[trigger] mapped@[j]).name@ == ts@[j].function.name@
                        && mapped@[j].description@ == ts@[j].function.description@
                        && mapped@[j].input_schema == ts@[j].function.parameters,
                decreases ts.len() - k,
            {
                let t = &ts[k];
                mapped.push(AnthropicTool {
                    name: t.function.name.clone(),
                    description: t.function.description.clone(),
                    input_schema: clone_json(&t.function.parameters),
                });
                k += 1;
            }
            Some(mapped)
        },
    };
    AnthropicRequest { model: lit(model), max_tokens: MAX_TOKENS, system, messages: out, effort, tools }
}

} // verus!

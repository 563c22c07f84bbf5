//! The provider-neutral message schema the agent loop speaks.
//!
//! Every provider translates these to and from its own wire format; the
//! conversation history, the token estimate and the compressor only ever see
//! these types.

use vstd::prelude::*;

use crate::text::{lit, push_str};

verus! {

/// One image attached to a message, already base64-encoded.
#[derive(Debug, Clone, PartialEq)]
pub struct ImagePart {
    pub media_type: String,
    pub data_base64: String,
}

#[derive(Debug, Clone, PartialEq)]
pub struct FunctionCall {
    pub name: String,
    pub arguments: String,
}

#[derive(Debug, Clone, PartialEq)]
pub struct ToolCall {
    pub id: String,
    pub tool_type: String,
    pub function: FunctionCall,
}

/// The JSON schema of a tool's parameters; carried through, never read.
#[verifier::external_type_specification]
#[verifier::external_body]
pub struct ExJsonValue(serde_json::Value);

/// `serde_json::Value::clone`: `Value` derives `Clone`, so the copy is the
/// same value.
#[verifier::external_body]
pub fn clone_json(v: &serde_json::Value) -> (r: serde_json::Value)
    ensures
        r == *v,
{
    v.clone()
}

/// What the model is told about one callable function.
#[derive(Debug)]
pub struct FunctionDefinition {
    pub name: String,
    pub description: String,
    pub parameters: serde_json::Value,
}

/// A tool offered to the model.
#[derive(Debug)]
pub struct Tool {
    pub tool_type: String,
    pub function: FunctionDefinition,
}

impl Tool {
    /// A copy: the same name, kind and description, and a clone of the
    /// parameter schema.
    pub fn copied(&self) -> (r: Self)
        ensures
            r.tool_type@ == self.tool_type@,
            r.function.name@ == self.function.name@,
            r.function.description@ == self.function.description@,
            r.function.parameters == self.function.parameters,
    {
        Tool {
            tool_type: self.tool_type.clone(),
            function: FunctionDefinition {
                name: self.function.name.clone(),
                description: self.function.description.clone(),
                parameters: clone_json(&self.function.parameters),
            },
        }
    }
}

/// One turn of the conversation.
#[derive(Debug, Clone, PartialEq)]
pub enum Message {
    ToolResponse {
        role: String,
        content: String,
        tool_call_id: String,
        images: Vec<ImagePart>,
    },
    Simple {
        role: String,
        content: String,
        reasoning_content: Option<String>,
        tool_calls: Option<Vec<ToolCall>>,
        images: Vec<ImagePart>,
    },
}

/// One item of a streamed response.
#[derive(Debug, Clone, PartialEq)]
pub enum StreamItem {
    Reasoning(String),
    Content(String),
    ToolCall(ToolCall),
    Finish(Option<String>),
    Usage(UsageInfo),
}

/// Token-level accounting reported at the end of a streamed response.
#[derive(Debug, Clone, Copy, PartialEq)]
pub struct UsageInfo {
    pub prompt_tokens: u64,
    pub completion_tokens: u64,
    pub prompt_cache_hit_tokens: u64,
    pub prompt_cache_miss_tokens: u64,
}

impl Default for UsageInfo {
    fn default() -> (r: Self)
        ensures
            r.prompt_tokens == 0,
            r.completion_tokens == 0,
            r.prompt_cache_hit_tokens == 0,
            r.prompt_cache_miss_tokens == 0,
    {
        UsageInfo {
            prompt_tokens: 0,
            completion_tokens: 0,
            prompt_cache_hit_tokens: 0,
            prompt_cache_miss_tokens: 0,
        }
    }
}

/// A provider failure the retry layer can reason about.
#[derive(Debug, Clone, PartialEq)]
pub enum LlmError {
    /// The server answered, but not with 2xx.
    Status {
        provider: String,
        status: u16,
        /// Parsed `Retry-After`, in seconds, when the server told us how long
        /// to wait.
        retry_after_secs: Option<u64>,
        body: String,
    },
    /// Nothing came back: connect failure, TLS error, timeout.
    Transport { provider: String, source: String },
}

/// The abstract content of an [`ImagePart`].
pub struct ImageView {
    pub media_type: Seq<char>,
    pub data_base64: Seq<char>,
}

/// The abstract content of a [`ToolCall`].
pub struct ToolCallView {
    pub id: Seq<char>,
    pub tool_type: Seq<char>,
    pub name: Seq<char>,
    pub arguments: Seq<char>,
}

/// The abstract content of a [`Message`].
pub enum MessageView {
    ToolResponse {
        role: Seq<char>,
        content: Seq<char>,
        tool_call_id: Seq<char>,
        images: Seq<ImageView>,
    },
    Simple {
        role: Seq<char>,
        content: Seq<char>,
        reasoning_content: Option<Seq<char>>,
        tool_calls: Option<Seq<ToolCallView>>,
        images: Seq<ImageView>,
    },
}

impl View for ImagePart {
    type V = ImageView;

    open spec fn view(&self) -> ImageView {
        ImageView { media_type: self.media_type@, data_base64: self.data_base64@ }
    }
}

impl View for ToolCall {
    type V = ToolCallView;

    open spec fn view(&self) -> ToolCallView {
        ToolCallView {
            id: self.id@,
            tool_type: self.tool_type@,
            name: self.function.name@,
            arguments: self.function.arguments@,
        }
    }
}

pub open spec fn images_view(v: Seq<ImagePart>) -> Seq<ImageView> {
    v.map_values(|p: ImagePart| p@)
}

pub open spec fn calls_view(v: Seq<ToolCall>) -> Seq<ToolCallView> {
    v.map_values(|c: ToolCall| c@)
}

pub open spec fn opt_text(o: Option<String>) -> Option<Seq<char>> {
    match o {
        Some(s) => Some(s@),
        None => None,
    }
}

pub open spec fn opt_calls(o: Option<Vec<ToolCall>>) -> Option<Seq<ToolCallView>> {
    match o {
        Some(v) => Some(calls_view(v@)),
        None => None,
    }
}

impl View for Message {
    type V = MessageView;

    open spec fn view(&self) -> MessageView {
        match self {
            Message::ToolResponse { role, content, tool_call_id, images } => MessageView::ToolResponse {
                role: role@,
                content: content@,
                tool_call_id: tool_call_id@,
                images: images_view(images@),
            },
            Message::Simple { role, content, reasoning_content, tool_calls, images } => MessageView::Simple {
                role: role@,
                content: content@,
                reasoning_content: opt_text(*reasoning_content),
                tool_calls: opt_calls(*tool_calls),
                images: images_view(images@),
            },
        }
    }
}

/// The views of a slice of messages.
pub open spec fn messages_view(v: Seq<Message>) -> Seq<MessageView> {
    v.map_values(|m: Message| m@)
}

impl FunctionCall {
    pub fn copied(&self) -> (r: Self)
        ensures
            r.name@ == self.name@,
            r.arguments@ == self.arguments@,
    {
        FunctionCall { name: self.name.clone(), arguments: self.arguments.clone() }
    }
}

impl ToolCall {
    pub fn copied(&self) -> (r: Self)
        ensures
            r@ == self@,
    {
        ToolCall {
            id: self.id.clone(),
            tool_type: self.tool_type.clone(),
            function: self.function.copied(),
        }
    }
}

impl ImagePart {
    pub fn copied(&self) -> (r: Self)
        ensures
            r@ == self@,
    {
        ImagePart { media_type: self.media_type.clone(), data_base64: self.data_base64.clone() }
    }
}

/// An element-for-element copy of `v`.
pub fn copy_tool_calls(v: &Vec<ToolCall>) -> (r: Vec<ToolCall>)
    ensures
        calls_view(r@) == calls_view(v@),
{
    let mut r: Vec<ToolCall> = Vec::new();
    let mut i: usize = 0;
    while i < v.len()
        invariant
            i <= v.len(),
            r@.len() == i,
            forall|j: int| 0 <= j < i ==> #[trigger] r@[j]@ == v@[j]@,
        decreases v.len() - i,
    {
        r.push(v[i].copied());
        i += 1;
    }
    assert(calls_view(r@) =~= calls_view(v@));
    r
}

/// An element-for-element copy of `v`.
pub fn copy_images(v: &Vec<ImagePart>) -> (r: Vec<ImagePart>)
    ensures
        images_view(r@) == images_view(v@),
{
    let mut r: Vec<ImagePart> = Vec::new();
    let mut i: usize = 0;
    while i < v.len()
        invariant
            i <= v.len(),
            r@.len() == i,
            forall|j: int| 0 <= j < i ==> #[trigger] r@[j]@ == v@[j]@,
        decreases v.len() - i,
    {
        r.push(v[i].copied());
        i += 1;
    }
    assert(images_view(r@) =~= images_view(v@));
    r
}

pub fn copy_opt_string(o: &Option<String>) -> (r: Option<String>)
    ensures
        opt_text(r) == opt_text(*o),
{
    match o {
        Some(s) => Some(s.clone()),
        None => None,
    }
}

pub fn copy_opt_calls(o: &Option<Vec<ToolCall>>) -> (r: Option<Vec<ToolCall>>)
    ensures
        opt_calls(r) == opt_calls(*o),
{
    match o {
        Some(v) => Some(copy_tool_calls(v)),
        None => None,
    }
}

/// `m` with its reasoning removed; tool responses are unchanged.
pub open spec fn without_reasoning(m: MessageView) -> MessageView {
    match m {
        MessageView::Simple { role, content, tool_calls, images, .. } => MessageView::Simple {
            role,
            content,
            reasoning_content: None,
            tool_calls,
            images,
        },
        other => other,
    }
}

pub open spec fn role_of_view(m: MessageView) -> Seq<char> {
    match m {
        MessageView::Simple { role, .. } => role,
        MessageView::ToolResponse { role, .. } => role,
    }
}

pub open spec fn content_of_view(m: MessageView) -> Seq<char> {
    match m {
        MessageView::Simple { content, .. } => content,
        MessageView::ToolResponse { content, .. } => content,
    }
}

pub open spec fn images_of_view(m: MessageView) -> Seq<ImageView> {
    match m {
        MessageView::Simple { images, .. } => images,
        MessageView::ToolResponse { images, .. } => images,
    }
}

/// A system turn with no attachments, as a view.
pub open spec fn system_view(text: Seq<char>) -> MessageView {
    MessageView::Simple {
        role: "system"@,
        content: text,
        reasoning_content: None,
        tool_calls: None,
        images: Seq::empty(),
    }
}

impl Message {
    pub fn copied(&self) -> (r: Self)
        ensures
            r@ == self@,
    {
        match self {
            Message::ToolResponse { role, content, tool_call_id, images } => {
                Message::ToolResponse {
                    role: role.clone(),
                    content: content.clone(),
                    tool_call_id: tool_call_id.clone(),
                    images: copy_images(images),
                }
            },
            Message::Simple { role, content, reasoning_content, tool_calls, images } => {
                Message::Simple {
                    role: role.clone(),
                    content: content.clone(),
                    reasoning_content: copy_opt_string(reasoning_content),
                    tool_calls: copy_opt_calls(tool_calls),
                    images: copy_images(images),
                }
            },
        }
    }

    /// A plain user turn.
    pub fn new_user_text(text: String) -> (r: Self)
        ensures
            r@ == (MessageView::Simple {
                role: "user"@,
                content: text@,
                reasoning_content: None,
                tool_calls: None,
                images: Seq::empty(),
            }),
    {
        let r = Message::Simple {
            role: lit("user"),
            content: text,
            reasoning_content: None,
            tool_calls: None,
            images: Vec::new(),
        };
        assert(images_view(Seq::<ImagePart>::empty()) =~= Seq::empty());
        r
    }

    /// A user turn with images attached.
    pub fn new_user_with_images(text: String, images: Vec<ImagePart>) -> (r: Self)
        ensures
            r@ == (MessageView::Simple {
                role: "user"@,
                content: text@,
                reasoning_content: None,
                tool_calls: None,
                images: images_view(images@),
            }),
    {
        Message::Simple {
            role: lit("user"),
            content: text,
            reasoning_content: None,
            tool_calls: None,
            images,
        }
    }

    /// The answer to tool call `call_id`.
    pub fn new_tool_response(call_id: String, text: String, images: Vec<ImagePart>) -> (r: Self)
        ensures
            r@ == (MessageView::ToolResponse {
                role: "tool"@,
                content: text@,
                tool_call_id: call_id@,
                images: images_view(images@),
            }),
    {
        Message::ToolResponse { role: lit("tool"), content: text, tool_call_id: call_id, images }
    }

    /// A system turn with no attachments.
    pub fn new_system(text: String) -> (r: Self)
        ensures
            r@ == system_view(text@),
    {
        let r = Message::Simple {
            role: lit("system"),
            content: text,
            reasoning_content: None,
            tool_calls: None,
            images: Vec::new(),
        };
        assert(images_view(Seq::<ImagePart>::empty()) =~= Seq::empty());
        r
    }

    pub fn role(&self) -> (r: &String)
        ensures
            r@ == role_of_view(self@),
    {
        match self {
            Message::Simple { role, .. } => role,
            Message::ToolResponse { role, .. } => role,
        }
    }

    pub fn content(&self) -> (r: &String)
        ensures
            r@ == content_of_view(self@),
    {
        match self {
            Message::Simple { content, .. } => content,
            Message::ToolResponse { content, .. } => content,
        }
    }

    pub fn images(&self) -> (r: &Vec<ImagePart>)
        ensures
            images_view(r@) == images_of_view(self@),
    {
        match self {
            Message::Simple { images, .. } => images,
            Message::ToolResponse { images, .. } => images,
        }
    }

    /// Whether this is a `Simple` message whose role is `system`.
    pub fn is_system(&self) -> (b: bool)
        ensures
            b == (self@ is Simple && role_of_view(self@) == "system"@),
    {
        match self {
            Message::Simple { role, .. } => crate::text::str_eq(role.as_str(), "system"),
            Message::ToolResponse { .. } => false,
        }
    }
}

/// Drop per-message `reasoning_content` before a request is sent: reasoning
/// is single-turn scratch, and replaying it wastes tokens.
pub fn strip_reasoning(messages: &[Message]) -> (r: Vec<Message>)
    ensures
        messages_view(r@) == messages_view(messages@).map_values(|m: MessageView| without_reasoning(m)),
{
    let mut out: Vec<Message> = Vec::new();
    let mut i: usize = 0;
    while i < messages.len()
        invariant
            i <= messages@.len(),
            out@.len() == i,
            forall|j: int| 0 <= j < i ==> #[trigger] out@[j]@ == without_reasoning(messages@[j]@),
        decreases messages@.len() - i,
    {
        let m = &messages[i];
        let next = match m {
            Message::Simple { role, content, tool_calls, images, .. } => {
                Message::Simple {
                    role: role.clone(),
                    content: content.clone(),
                    reasoning_content: None,
                    tool_calls: copy_opt_calls(tool_calls),
                    images: copy_images(images),
                }
            },
            other => other.copied(),
        };
        out.push(next);
        i += 1;
    }
    assert(messages_view(out@) =~= messages_view(messages@).map_values(|m: MessageView| without_reasoning(m)));
    out
}

impl LlmError {
    /// The sentence a log line shows for this failure.
    pub fn describe(&self) -> (r: String)
        ensures
            r@ == describe_spec(*self),
    {
        match self {
            LlmError::Status { provider, status, body, .. } => {
                let mut s = provider.clone();
                push_str(&mut s, " API error ");
                let n = crate::text::decimal(*status as u64);
                push_str(&mut s, n.as_str());
                push_str(&mut s, ": ");
                push_str(&mut s, body.as_str());
                s
            },
            LlmError::Transport { provider, source } => {
                let mut s = provider.clone();
                push_str(&mut s, " transport error: ");
                push_str(&mut s, source.as_str());
                s
            },
        }
    }
}

/// `"{provider} API error {status}: {body}"` or
/// `"{provider} transport error: {source}"`.
pub open spec fn describe_spec(e: LlmError) -> Seq<char> {
    match e {
        LlmError::Status { provider, status, body, .. } => provider@ + " API error "@
            + crate::text::decimal_spec(status as nat) + ": "@ + body@,
        LlmError::Transport { provider, source } => provider@ + " transport error: "@ + source@,
    }
}


/// A `Retry-After` header value, in seconds: its delta-seconds form only
/// (the HTTP-date form is rare and would need a date parser). `value` is the
/// header as text, `None` when absent or not text.
pub fn parse_retry_after(value: Option<&str>) -> (r: Option<u64>)
    ensures
        r == match value {
            Some(v) => crate::text::parse_u64_spec(crate::text::trim_spec(v@)),
            None => None,
        },
{
    match value {
        Some(v) => {
            let t = crate::text::trim(v);
            crate::text::parse_u64(t.as_str())
        },
        None => None,
    }
}

} // verus!

//! Session state as an append-only event log.
//!
//! The invariant this module establishes: **model-visible means logged**.
//! Everything that reaches a model request is reconstructable from the
//! events, and [`derive_messages`] is the only way the working set is
//! produced. Compaction is recorded as an *event*: the projection skips the
//! replaced range and splices in the summary, while the originals stay.

use vstd::prelude::*;

use crate::api::{
    ImagePart, ImageView, Message, MessageView, ToolCall, ToolCallView, UsageInfo, calls_view,
    images_view, messages_view, system_view,
};
use crate::cost::CostTracker;
use crate::text::{lit, push_char, push_str, string_of};

verus! {

/// `chrono::Utc::now`, as microseconds since the Unix epoch. The clock is
/// outside the library: nothing is claimed of the value.
#[verifier::external_body]
fn now_micros() -> i64 {
    chrono::Utc::now().timestamp_micros()
}

// ----------------------------------------------------------------- base64

/// The base64 alphabet: `A-Z`, `a-z`, `0-9`, `+`, `/`.
pub open spec fn b64_digit(v: nat) -> char {
    if v < 26 {
        ((65 + v) as u32) as char
    } else if v < 52 {
        ((97 + (v - 26)) as u32) as char
    } else if v < 62 {
        ((48 + (v - 52)) as u32) as char
    } else if v == 62 {
        '+'
    } else {
        '/'
    }
}

/// Standard base64 (RFC 4648, with `=` padding) of `b`.
pub open spec fn base64_spec(b: Seq<u8>) -> Seq<char>
    decreases b.len(),
{
    if b.len() == 0 {
        seq![]
    } else if b.len() == 1 {
        let t = b[0] as nat * 65536;
        seq![b64_digit(t / 262144), b64_digit((t / 4096) % 64), '=', '=']
    } else if b.len() == 2 {
        let t = b[0] as nat * 65536 + b[1] as nat * 256;
        seq![b64_digit(t / 262144), b64_digit((t / 4096) % 64), b64_digit((t / 64) % 64), '=']
    } else {
        let t = b[0] as nat * 65536 + b[1] as nat * 256 + b[2] as nat;
        seq![
            b64_digit(t / 262144),
            b64_digit((t / 4096) % 64),
            b64_digit((t / 64) % 64),
            b64_digit(t % 64),
        ] + base64_spec(b.skip(3))
    }
}

fn b64(v: u32) -> (c: char)
    requires
        v < 64,
    ensures
        c == b64_digit(v as nat),
{
    if v < 26 {
        char_of(65 + v)
    } else if v < 52 {
        char_of(97 + (v - 26))
    } else if v < 62 {
        char_of(48 + (v - 52))
    } else if v == 62 {
        '+'
    } else {
        '/'
    }
}

fn char_of(v: u32) -> (c: char)
    requires
        v < 128,
    ensures
        c == v as char,
{
    (v as u8) as char
}

/// Standard base64 of `bytes`, with padding.
pub fn base64_encode(bytes: &[u8]) -> (s: String)
    ensures
        s@ == base64_spec(bytes@),
{
    let mut out = String::new();
    let n = bytes.len();
    let mut i: usize = 0;
    assert(bytes@.skip(0) =~= bytes@);
    while i < n
        invariant
            n == bytes@.len(),
            i <= n,
            base64_spec(bytes@) == out@ + base64_spec(bytes@.skip(i as int)),
        decreases n - i,
    {
        let ghost rest = bytes@.skip(i as int);
        let b0 = bytes[i] as u32;
        if n - i == 1 {
            let t = b0 * 65536;
            push_char(&mut out, b64(t / 262144));
            push_char(&mut out, b64((t / 4096) % 64));
            push_char(&mut out, '=');
            push_char(&mut out, '=');
            assert(base64_spec(bytes@.skip(n as int)) == Seq::<char>::empty());
            i = n;
        } else if n - i == 2 {
            let b1 = bytes[i + 1] as u32;
            let t = b0 * 65536 + b1 * 256;
            push_char(&mut out, b64(t / 262144));
            push_char(&mut out, b64((t / 4096) % 64));
            push_char(&mut out, b64((t / 64) % 64));
            push_char(&mut out, '=');
            i = n;
        } else {
            let b1 = bytes[i + 1] as u32;
            let b2 = bytes[i + 2] as u32;
            let t = b0 * 65536 + b1 * 256 + b2;
            push_char(&mut out, b64(t / 262144));
            push_char(&mut out, b64((t / 4096) % 64));
            push_char(&mut out, b64((t / 64) % 64));
            push_char(&mut out, b64(t % 64));
            assert(rest.skip(3) =~= bytes@.skip(i + 3));
            i = i + 3;
        }
    }
    assert(bytes@.skip(n as int) =~= Seq::<u8>::empty());
    out
}


// ------------------------------------------------------------------ types

/// Which prompt a `SystemPrompt` event carries.
#[derive(Debug, Clone, Copy, PartialEq, Eq)]
pub enum PromptKind {
    Kernel,
    Workspace,
    Skill,
    /// A compaction summary spliced in by the projection.
    Summary,
}

/// A stored reference to an image blob: bytes stay out of the log.
#[derive(Debug, Clone, PartialEq)]
pub struct ImageRef {
    pub path: String,
    pub media_type: String,
}

#[derive(Debug, Clone, PartialEq)]
pub enum EventPayload {
    UserMessage { content: String, images: Vec<ImageRef> },
    AssistantMessage { content: String, reasoning: Option<String>, tool_calls: Vec<ToolCall> },
    ToolResult { call_id: String, content: String, images: Vec<ImageRef> },
    SystemPrompt { kind: PromptKind, content: String },
    /// Replaces `[from, to)` in the projection with `summary`. The replaced
    /// events remain in the log.
    Compaction { from: u64, to: u64, summary: String },
    SkillActivated { name: String },
    Usage(UsageInfo),
    Interrupted,
}

#[derive(Debug, Clone, PartialEq)]
pub struct SessionEvent {
    pub seq: u64,
    /// When the event was recorded, in microseconds since the Unix epoch.
    pub ts_micros: i64,
    pub payload: EventPayload,
}

pub struct ImageRefView {
    pub path: Seq<char>,
    pub media_type: Seq<char>,
}

pub enum PayloadView {
    UserMessage { content: Seq<char>, images: Seq<ImageRefView> },
    AssistantMessage {
        content: Seq<char>,
        reasoning: Option<Seq<char>>,
        tool_calls: Seq<ToolCallView>,
    },
    ToolResult { call_id: Seq<char>, content: Seq<char>, images: Seq<ImageRefView> },
    SystemPrompt { kind: PromptKind, content: Seq<char> },
    Compaction { from: u64, to: u64, summary: Seq<char> },
    SkillActivated { name: Seq<char> },
    Usage(UsageInfo),
    Interrupted,
}

pub struct EventView {
    pub seq: u64,
    pub payload: PayloadView,
}

impl View for ImageRef {
    type V = ImageRefView;

    open spec fn view(&self) -> ImageRefView {
        ImageRefView { path: self.path@, media_type: self.media_type@ }
    }
}

pub open spec fn refs_view(v: Seq<ImageRef>) -> Seq<ImageRefView> {
    v.map_values(|r: ImageRef| r@)
}

impl View for EventPayload {
    type V = PayloadView;

    open spec fn view(&self) -> PayloadView {
        match self {
            EventPayload::UserMessage { content, images } => PayloadView::UserMessage {
                content: content@,
                images: refs_view(images@),
            },
            EventPayload::AssistantMessage { content, reasoning, tool_calls } => PayloadView::AssistantMessage {
                content: content@,
                reasoning: crate::api::opt_text(*reasoning),
                tool_calls: calls_view(tool_calls@),
            },
            EventPayload::ToolResult { call_id, content, images } => PayloadView::ToolResult {
                call_id: call_id@,
                content: content@,
                images: refs_view(images@),
            },
            EventPayload::SystemPrompt { kind, content } => PayloadView::SystemPrompt {
                kind: *kind,
                content: content@,
            },
            EventPayload::Compaction { from, to, summary } => PayloadView::Compaction {
                from: *from,
                to: *to,
                summary: summary@,
            },
            EventPayload::SkillActivated { name } => PayloadView::SkillActivated { name: name@ },
            EventPayload::Usage(u) => PayloadView::Usage(*u),
            EventPayload::Interrupted => PayloadView::Interrupted,
        }
    }
}

impl View for SessionEvent {
    type V = EventView;

    open spec fn view(&self) -> EventView {
        EventView { seq: self.seq, payload: self.payload@ }
    }
}

pub open spec fn events_view(v: Seq<SessionEvent>) -> Seq<EventView> {
    v.map_values(|e: SessionEvent| e@)
}

impl ImageRef {
    pub fn copied(&self) -> (r: Self)
        ensures
            r@ == self@,
    {
        ImageRef { path: self.path.clone(), media_type: self.media_type.clone() }
    }
}

fn copy_refs(v: &Vec<ImageRef>) -> (r: Vec<ImageRef>)
    ensures
        refs_view(r@) == refs_view(v@),
{
    let mut r: Vec<ImageRef> = Vec::new();
    let mut i: usize = 0;
    while i < v.len()
        invariant
            i <= v.len(),
            r@.len() == i,
            forall|j: int| 0 <= j < i ==> #[trigger] r@[j]@ == v@[j]@,
        decreases v.len() - i,
    {
        r.push(v[i].copied());
        i += 1;
    }
    assert(refs_view(r@) =~= refs_view(v@));
    r
}

impl EventPayload {
    pub fn copied(&self) -> (r: Self)
        ensures
            r@ == self@,
    {
        match self {
            EventPayload::UserMessage { content, images } => EventPayload::UserMessage {
                content: content.clone(),
                images: copy_refs(images),
            },
            EventPayload::AssistantMessage { content, reasoning, tool_calls } => EventPayload::AssistantMessage {
                content: content.clone(),
                reasoning: crate::api::copy_opt_string(reasoning),
                tool_calls: crate::api::copy_tool_calls(tool_calls),
            },
            EventPayload::ToolResult { call_id, content, images } => EventPayload::ToolResult {
                call_id: call_id.clone(),
                content: content.clone(),
                images: copy_refs(images),
            },
            EventPayload::SystemPrompt { kind, content } => EventPayload::SystemPrompt {
                kind: *kind,
                content: content.clone(),
            },
            EventPayload::Compaction { from, to, summary } => EventPayload::Compaction {
                from: *from,
                to: *to,
                summary: summary.clone(),
            },
            EventPayload::SkillActivated { name } => EventPayload::SkillActivated { name: name.clone() },
            EventPayload::Usage(u) => EventPayload::Usage(*u),
            EventPayload::Interrupted => EventPayload::Interrupted,
        }
    }
}

impl SessionEvent {
    pub fn copied(&self) -> (r: Self)
        ensures
            r@ == self@,
            r.ts_micros == self.ts_micros,
    {
        SessionEvent { seq: self.seq, ts_micros: self.ts_micros, payload: self.payload.copied() }
    }
}


// ------------------------------------------------------------------ blobs

/// The bytes read for one image path, or `None` when the blob is gone.
#[derive(Debug, Clone, PartialEq)]
pub struct Blob {
    pub path: String,
    pub bytes: Option<Vec<u8>>,
}

/// What was read from disk for the images a log refers to.
pub struct BlobView {
    pub path: Seq<char>,
    pub bytes: Option<Seq<u8>>,
}

impl View for Blob {
    type V = BlobView;

    open spec fn view(&self) -> BlobView {
        BlobView {
            path: self.path@,
            bytes: match self.bytes {
                Some(b) => Some(b@),
                None => None,
            },
        }
    }
}

pub open spec fn blobs_view(v: Seq<Blob>) -> Seq<BlobView> {
    v.map_values(|b: Blob| b@)
}

/// The bytes of the first blob read for `path`; `None` when none was read
/// or it could not be.
pub open spec fn find_blob(blobs: Seq<BlobView>, path: Seq<char>) -> Option<Seq<u8>>
    decreases blobs.len(),
{
    if blobs.len() == 0 {
        None
    } else if blobs[0].path == path {
        blobs[0].bytes
    } else {
        find_blob(blobs.drop_first(), path)
    }
}

fn lookup_blob<'a>(blobs: &'a [Blob], path: &String) -> (r: Option<&'a Vec<u8>>)
    ensures
        match r {
            Some(b) => find_blob(blobs_view(blobs@), path@) == Some(b@),
            None => find_blob(blobs_view(blobs@), path@) is None,
        },
{
    let n = blobs.len();
    let mut i: usize = 0;
    assert(blobs_view(blobs@).skip(0) =~= blobs_view(blobs@));
    while i < n
        invariant
            n == blobs@.len(),
            i <= n,
            find_blob(blobs_view(blobs@), path@) == find_blob(blobs_view(blobs@).skip(i as int), path@),
        decreases n - i,
    {
        let ghost rest = blobs_view(blobs@).skip(i as int);
        assert(rest[0] == blobs@[i as int]@);
        assert(rest.drop_first() =~= blobs_view(blobs@).skip(i + 1));
        if crate::text::str_eq(blobs[i].path.as_str(), path.as_str()) {
            return match &blobs[i].bytes {
                Some(b) => Some(b),
                None => None,
            };
        }
        i += 1;
    }
    assert(blobs_view(blobs@).skip(n as int).len() == 0);
    None
}

/// The line that stands in for an image whose blob is gone.
pub open spec fn missing_image_line(path: Seq<char>) -> Seq<char> {
    "[image no longer available: "@ + path + " \u{2014} offload blobs are swept after 30 days]"@
}

/// `text` after accounting for `img`: unchanged if its blob was read,
/// otherwise with a line naming the missing image appended.
pub open spec fn text_after_image(text: Seq<char>, img: ImageRefView, blobs: Seq<BlobView>) -> Seq<char> {
    match find_blob(blobs, img.path) {
        Some(_) => text,
        None => (if text.len() > 0 { text.push('\n') } else { text }) + missing_image_line(img.path),
    }
}

/// The message text once every image of `imgs` is accounted for.
pub open spec fn loaded_text(content: Seq<char>, imgs: Seq<ImageRefView>, blobs: Seq<BlobView>) -> Seq<char>
    decreases imgs.len(),
{
    if imgs.len() == 0 {
        content
    } else {
        text_after_image(loaded_text(content, imgs.drop_last(), blobs), imgs.last(), blobs)
    }
}

/// The images whose blobs were read, encoded, in order.
pub open spec fn loaded_parts(imgs: Seq<ImageRefView>, blobs: Seq<BlobView>) -> Seq<ImageView>
    decreases imgs.len(),
{
    if imgs.len() == 0 {
        seq![]
    } else {
        let p = loaded_parts(imgs.drop_last(), blobs);
        match find_blob(blobs, imgs.last().path) {
            Some(b) => p.push(ImageView { media_type: imgs.last().media_type, data_base64: base64_spec(b) }),
            None => p,
        }
    }
}

/// Load the referenced blobs, degrading visibly for any that are gone: the
/// model is never told an image was there when it was not.
pub fn load_images(content: &str, images: &[ImageRef], blobs: &[Blob]) -> (r: (String, Vec<ImagePart>))
    ensures
        r.0@ == loaded_text(content@, refs_view(images@), blobs_view(blobs@)),
        images_view(r.1@) == loaded_parts(refs_view(images@), blobs_view(blobs@)),
{
    let ghost bv = blobs_view(blobs@);
    let mut text = lit(content);
    let mut loaded: Vec<ImagePart> = Vec::new();
    let n = images.len();
    let mut i: usize = 0;
    while i < n
        invariant
            n == images@.len(),
            i <= n,
            bv == blobs_view(blobs@),
            text@ == loaded_text(content@, refs_view(images@.take(i as int)), bv),
            images_view(loaded@) == loaded_parts(refs_view(images@.take(i as int)), bv),
        decreases n - i,
    {
        let image = &images[i];
        proof {
            assert(refs_view(images@.take(i + 1)).drop_last() =~= refs_view(images@.take(i as int)));
            assert(refs_view(images@.take(i + 1)).last() == image@);
        }
        match lookup_blob(blobs, &image.path) {
            Some(bytes) => {
                let part = ImagePart { media_type: image.media_type.clone(), data_base64: base64_encode(bytes.as_slice()) };
                let ghost before = loaded@;
                loaded.push(part);
                assert(images_view(loaded@) =~= images_view(before).push(part@));
            },
            None => {
                if !text.as_str().is_empty() {
                    push_char(&mut text, '\n');
                }
                push_str(&mut text, "[image no longer available: ");
                push_str(&mut text, image.path.as_str());
                push_str(&mut text, " \u{2014} offload blobs are swept after 30 days]");
            },
        }
        i += 1;
    }
    assert(images@.take(n as int) =~= images@);
    (text, loaded)
}


// ------------------------------------------------------------- projection

/// A compaction: `(from, to, summary)`.
pub type Span = (u64, u64, Seq<char>);

/// Every compaction recorded in `ev`, in log order.
pub open spec fn compactions(ev: Seq<EventView>) -> Seq<Span>
    decreases ev.len(),
{
    if ev.len() == 0 {
        seq![]
    } else {
        let rest = compactions(ev.drop_last());
        match ev.last().payload {
            PayloadView::Compaction { from, to, summary } => rest.push((from, to, summary)),
            _ => rest,
        }
    }
}

/// The first compaction, in log order, whose range `[from, to)` covers `seq`.
pub open spec fn covering(comps: Seq<Span>, seq: u64) -> Option<Span>
    decreases comps.len(),
{
    if comps.len() == 0 {
        None
    } else if comps[0].0 <= seq && seq < comps[0].1 {
        Some(comps[0])
    } else {
        covering(comps.drop_first(), seq)
    }
}

pub proof fn lemma_covering(comps: Seq<Span>, seq: u64)
    ensures
        covering(comps, seq) matches Some(c) ==> c.0 <= seq < c.1,
    decreases comps.len(),
{
    if comps.len() > 0 && !(comps[0].0 <= seq && seq < comps[0].1) {
        lemma_covering(comps.drop_first(), seq);
    }
}

/// The first index at or after `j` whose event is not before `to`.
pub open spec fn skip_past(ev: Seq<EventView>, j: nat, to: u64) -> nat
    decreases ev.len() - j,
{
    if j < ev.len() && ev[j as int].seq < to {
        skip_past(ev, j + 1, to)
    } else {
        j
    }
}

pub proof fn lemma_skip_past(ev: Seq<EventView>, j: nat, to: u64)
    ensures
        j <= skip_past(ev, j, to),
        j <= ev.len() ==> skip_past(ev, j, to) <= ev.len(),
        j < ev.len() && ev[j as int].seq < to ==> j < skip_past(ev, j, to),
    decreases ev.len() - j,
{
    if j < ev.len() && ev[j as int].seq < to {
        lemma_skip_past(ev, j + 1, to);
    }
}

/// The user turn the log's `UserMessage` stands for.
pub open spec fn user_view(content: Seq<char>, images: Seq<ImageView>) -> MessageView {
    MessageView::Simple {
        role: "user"@,
        content,
        reasoning_content: None,
        tool_calls: None,
        images,
    }
}

/// The messages one (uncompacted) event contributes to the projection.
pub open spec fn emitted(p: PayloadView, blobs: Seq<BlobView>) -> Seq<MessageView> {
    match p {
        PayloadView::UserMessage { content, images } => seq![
            user_view(loaded_text(content, images, blobs), loaded_parts(images, blobs)),
        ],
        PayloadView::AssistantMessage { content, reasoning, tool_calls } => seq![
            MessageView::Simple {
                role: "assistant"@,
                content,
                reasoning_content: reasoning,
                tool_calls: if tool_calls.len() == 0 { None } else { Some(tool_calls) },
                images: Seq::empty(),
            },
        ],
        PayloadView::ToolResult { call_id, content, images } => seq![
            MessageView::ToolResponse {
                role: "tool"@,
                content: loaded_text(content, images, blobs),
                tool_call_id: call_id,
                images: loaded_parts(images, blobs),
            },
        ],
        PayloadView::SystemPrompt { content, .. } => seq![system_view(content)],
        _ => seq![],
    }
}

/// Whether an uncompacted event with this payload reaches the model.
pub open spec fn is_model_visible(p: PayloadView) -> bool {
    p is UserMessage || p is AssistantMessage || p is ToolResult || p is SystemPrompt
}

/// The projection of `ev` from index `i` on: a covered event starts a run
/// that is replaced by its compaction's summary; every other event
/// contributes what it emits.
pub open spec fn project(ev: Seq<EventView>, comps: Seq<Span>, blobs: Seq<BlobView>, i: nat) -> Seq<MessageView>
    decreases ev.len() - i,
{
    if i >= ev.len() {
        seq![]
    } else {
        match covering(comps, ev[i as int].seq) {
            Some(c) => {
                proof {
                    lemma_covering(comps, ev[i as int].seq);
                    lemma_skip_past(ev, i, c.1);
                }
                seq![crate::compressor::summary_view(c.2)] + project(ev, comps, blobs, skip_past(ev, i, c.1))
            },
            None => emitted(ev[i as int].payload, blobs) + project(ev, comps, blobs, i + 1),
        }
    }
}

/// Which event each message of [`project`] comes from: a summary is
/// attributed to the first event of the run it replaces.
pub open spec fn project_seqs(ev: Seq<EventView>, comps: Seq<Span>, i: nat) -> Seq<u64>
    decreases ev.len() - i,
{
    if i >= ev.len() {
        seq![]
    } else {
        match covering(comps, ev[i as int].seq) {
            Some(c) => {
                proof {
                    lemma_covering(comps, ev[i as int].seq);
                    lemma_skip_past(ev, i, c.1);
                }
                seq![ev[i as int].seq] + project_seqs(ev, comps, skip_past(ev, i, c.1))
            },
            None => (if is_model_visible(ev[i as int].payload) {
                seq![ev[i as int].seq]
            } else {
                seq![]
            }) + project_seqs(ev, comps, i + 1),
        }
    }
}

/// The model-visible conversation a log stands for.
pub open spec fn projection(ev: Seq<EventView>, blobs: Seq<BlobView>) -> Seq<MessageView> {
    project(ev, compactions(ev), blobs, 0)
}

/// The producing event of each message of [`projection`].
pub open spec fn projection_seqs(ev: Seq<EventView>) -> Seq<u64> {
    project_seqs(ev, compactions(ev), 0)
}

/// The summary a compaction payload carries.
pub open spec fn summary_of(p: EventPayload) -> Option<Seq<char>> {
    match p {
        EventPayload::Compaction { summary, .. } => Some(summary@),
        _ => None,
    }
}

/// `comps` locates each compaction of `spans` in `events`.
pub open spec fn comps_match(comps: Seq<(u64, u64, usize)>, spans: Seq<Span>, events: Seq<SessionEvent>) -> bool {
    &&& comps.len() == spans.len()
    &&& forall|k: int|
        0 <= k < comps.len() ==> {
            &&& #[trigger] comps[k].0 == spans[k].0
            &&& comps[k].1 == spans[k].1
            &&& comps[k].2 < events.len()
            &&& summary_of(events[comps[k].2 as int].payload) == Some(spans[k].2)
        }
}

/// Where each compaction of a log lives: `(from, to, index of its event)`.
fn collect_compactions(events: &[SessionEvent]) -> (r: Vec<(u64, u64, usize)>)
    ensures
        comps_match(r@, compactions(events_view(events@)), events@),
{
    let mut out: Vec<(u64, u64, usize)> = Vec::new();
    let n = events.len();
    let mut i: usize = 0;
    while i < n
        invariant
            n == events@.len(),
            i <= n,
            comps_match(out@, compactions(events_view(events@.take(i as int))), events@.take(i as int)),
        decreases n - i,
    {
        proof {
            assert(events_view(events@.take(i + 1)).drop_last() =~= events_view(events@.take(i as int)));
            assert(events_view(events@.take(i + 1)).last() == events@[i as int]@);
        }
        let ghost prev = out@;
        proof {
            assert(events@.take(i + 1).take(i as int) =~= events@.take(i as int));
        }
        match &events[i].payload {
            EventPayload::Compaction { from, to, .. } => {
                out.push((*from, *to, i));
                proof {
                    let spans = compactions(events_view(events@.take(i + 1)));
                    assert forall|k: int| 0 <= k < out@.len() implies {
                        &&& #[trigger] out@[k].0 == spans[k].0
                        &&& out@[k].1 == spans[k].1
                        &&& out@[k].2 < events@.take(i + 1).len()
                        &&& summary_of(events@.take(i + 1)[out@[k].2 as int].payload) == Some(spans[k].2)
                    } by {
                        if k < prev.len() {
                            assert(prev[k].0 == compactions(events_view(events@.take(i as int)))[k].0);
                        }
                    }
                }
            },
            _ => {
                proof {
                    let spans = compactions(events_view(events@.take(i + 1)));
                    assert forall|k: int| 0 <= k < out@.len() implies {
                        &&& #[trigger] out@[k].0 == spans[k].0
                        &&& out@[k].1 == spans[k].1
                        &&& out@[k].2 < events@.take(i + 1).len()
                        &&& summary_of(events@.take(i + 1)[out@[k].2 as int].payload) == Some(spans[k].2)
                    } by {
                        assert(prev[k].0 == compactions(events_view(events@.take(i as int)))[k].0);
                    }
                }
            },
        }
        i += 1;
    }
    assert(events@.take(n as int) =~= events@);
    out
}

/// The first recorded compaction covering `seq`, as an index into `comps`.
fn find_covering(comps: &Vec<(u64, u64, usize)>, seq: u64, Ghost(spans): Ghost<Seq<Span>>) -> (r: Option<usize>)
    requires
        comps@.len() == spans.len(),
        forall|k: int| 0 <= k < comps@.len() ==> #[trigger] comps@[k].0 == spans[k].0 && comps@[k].1 == spans[k].1,
    ensures
        match r {
            Some(k) => k < spans.len() && covering(spans, seq) == Some(spans[k as int]),
            None => covering(spans, seq) is None,
        },
{
    let n = comps.len();
    let mut k: usize = 0;
    assert(spans.skip(0) =~= spans);
    while k < n
        invariant
            n == comps@.len(),
            n == spans.len(),
            k <= n,
            forall|j: int| 0 <= j < comps@.len() ==> #[trigger] comps@[j].0 == spans[j].0 && comps@[j].1 == spans[j].1,
            covering(spans, seq) == covering(spans.skip(k as int), seq),
        decreases n - k,
    {
        assert(spans.skip(k as int)[0] == spans[k as int]);
        assert(spans.skip(k as int).drop_first() =~= spans.skip(k + 1));
        if comps[k].0 <= seq && seq < comps[k].1 {
            return Some(k);
        }
        k += 1;
    }
    assert(spans.skip(n as int).len() == 0);
    None
}

/// The messages an uncompacted event contributes.
fn emit(payload: &EventPayload, blobs: &[Blob], out: &mut Vec<Message>)
    ensures
        messages_view(final(out)@) == messages_view(old(out)@) + emitted(payload@, blobs_view(blobs@)),
{
    let ghost before = out@;
    match payload {
        EventPayload::UserMessage { content, images } => {
            let (text, loaded) = load_images(content.as_str(), images.as_slice(), blobs);
            out.push(Message::new_user_with_images(text, loaded));
        },
        EventPayload::AssistantMessage { content, reasoning, tool_calls } => {
            let calls = if tool_calls.len() == 0 {
                None
            } else {
                Some(crate::api::copy_tool_calls(tool_calls))
            };
            let m = Message::Simple {
                role: lit("assistant"),
                content: content.clone(),
                reasoning_content: crate::api::copy_opt_string(reasoning),
                tool_calls: calls,
                images: Vec::new(),
            };
            assert(images_view(Seq::<ImagePart>::empty()) =~= Seq::empty());
            out.push(m);
        },
        EventPayload::ToolResult { call_id, content, images } => {
            let (text, loaded) = load_images(content.as_str(), images.as_slice(), blobs);
            out.push(Message::new_tool_response(call_id.clone(), text, loaded));
        },
        EventPayload::SystemPrompt { content, .. } => {
            out.push(Message::new_system(content.clone()));
        },
        _ => {},
    }
    assert(messages_view(out@) =~= messages_view(before) + emitted(payload@, blobs_view(blobs@)));
}

/// Project events into the message list a request is built from, with the
/// event that produced each message.
///
/// A compaction replaces the range it names: the projection skips those
/// events and splices in the summary as a system message. The skipped
/// events remain in the log.
pub fn derive_messages_indexed(events: &[SessionEvent], blobs: &[Blob]) -> (r: (Vec<Message>, Vec<u64>))
    ensures
        messages_view(r.0@) == projection(events_view(events@), blobs_view(blobs@)),
        r.1@ == projection_seqs(events_view(events@)),
        r.0@.len() == r.1@.len(),
{
    let ghost ev = events_view(events@);
    let ghost bv = blobs_view(blobs@);
    let comps = collect_compactions(events);
    let ghost spans = compactions(ev);
    assert(spans == compactions(events_view(events@)));
    let mut out: Vec<Message> = Vec::new();
    let mut seqs: Vec<u64> = Vec::new();
    let n = events.len();
    let mut index: usize = 0;
    while index < n
        invariant
            n == events@.len(),
            ev == events_view(events@),
            bv == blobs_view(blobs@),
            spans == compactions(ev),
            comps_match(comps@, spans, events@),
            index <= n,
            project(ev, spans, bv, 0) == messages_view(out@) + project(ev, spans, bv, index as nat),
            project_seqs(ev, spans, 0) == seqs@ + project_seqs(ev, spans, index as nat),
            out@.len() == seqs@.len(),
        decreases n - index,
    {
        let seq = events[index].seq;
        assert(ev[index as int].seq == seq);
        match find_covering(&comps, seq, Ghost(spans)) {
            Some(k) => {
                assert(comps@[k as int].0 == spans[k as int].0);
                let to = comps[k].1;
                let at = comps[k].2;
                let summary: String = match &events[at].payload {
                    EventPayload::Compaction { summary, .. } => summary.clone(),
                    _ => String::new(),
                };
                assert(summary@ == spans[k as int].2);
                let mut text = lit("[Compressed earlier turns]\n\n");
                push_str(&mut text, summary.as_str());
                let ghost before = out@;
                out.push(Message::new_system(text));
                assert(messages_view(out@) =~= messages_view(before).push(
                    crate::compressor::summary_view(spans[k as int].2),
                ));
                seqs.push(seq);
                proof {
                    lemma_covering(spans, seq);
                }
                let ghost start = index;
                while index < n && events[index].seq < to
                    invariant
                        n == events@.len(),
                        ev == events_view(events@),
                        start <= index <= n,
                        skip_past(ev, start as nat, to) == skip_past(ev, index as nat, to),
                    decreases n - index,
                {
                    assert(ev[index as int].seq == events@[index as int].seq);
                    index += 1;
                }
                proof {
                    assert(index < n ==> ev[index as int].seq == events@[index as int].seq);
                    assert(skip_past(ev, index as nat, to) == index);
                    assert(project(ev, spans, bv, start as nat) =~= seq![
                        crate::compressor::summary_view(spans[k as int].2),
                    ] + project(ev, spans, bv, index as nat));
                    assert(messages_view(out@) + project(ev, spans, bv, index as nat) =~= messages_view(before)
                        + project(ev, spans, bv, start as nat));
                    assert(seqs@ + project_seqs(ev, spans, index as nat) =~= seqs@.drop_last()
                        + project_seqs(ev, spans, start as nat));
                }
            },
            None => {
                let ghost before = out@;
                let ghost before_seqs = seqs@;
                emit(&events[index].payload, blobs, &mut out);
                if produces_message(&events[index].payload) {
                    seqs.push(seq);
                }
                proof {
                    assert(ev[index as int].payload == events@[index as int].payload@);
                    assert(project(ev, spans, bv, index as nat) =~= emitted(ev[index as int].payload, bv)
                        + project(ev, spans, bv, index as nat + 1));
                    assert(messages_view(out@) + project(ev, spans, bv, index as nat + 1) =~= messages_view(before)
                        + project(ev, spans, bv, index as nat));
                    assert(seqs@ + project_seqs(ev, spans, index as nat + 1) =~= before_seqs
                        + project_seqs(ev, spans, index as nat));
                }
                index += 1;
            },
        }
    }
    assert(messages_view(out@) =~= project(ev, spans, bv, 0));
    assert(seqs@ =~= project_seqs(ev, spans, 0));
    (out, seqs)
}


/// Whether an uncompacted event with this payload produces a message.
fn produces_message(payload: &EventPayload) -> (b: bool)
    ensures
        b == is_model_visible(payload@),
{
    match payload {
        EventPayload::UserMessage { .. } => true,
        EventPayload::AssistantMessage { .. } => true,
        EventPayload::ToolResult { .. } => true,
        EventPayload::SystemPrompt { .. } => true,
        _ => false,
    }
}

/// Project events into the message list a request is built from.
pub fn derive_messages(events: &[SessionEvent], blobs: &[Blob]) -> (r: Vec<Message>)
    ensures
        messages_view(r@) == projection(events_view(events@), blobs_view(blobs@)),
{
    let (messages, _) = derive_messages_indexed(events, blobs);
    messages
}

/// Rebuild a user message, loading any referenced image blobs; a blob that
/// is gone leaves a visible line in the text rather than disappearing.
pub fn rebuild_user_message(content: &str, images: &[ImageRef], blobs: &[Blob]) -> (r: Message)
    ensures
        r@ == user_view(
            loaded_text(content@, refs_view(images@), blobs_view(blobs@)),
            loaded_parts(refs_view(images@), blobs_view(blobs@)),
        ),
{
    if images.len() == 0 {
        assert(refs_view(images@) =~= Seq::<ImageRefView>::empty());
        return Message::new_user_text(lit(content));
    }
    let (text, loaded) = load_images(content, images, blobs);
    Message::new_user_with_images(text, loaded)
}

proof fn lemma_project_len(ev: Seq<EventView>, comps: Seq<Span>, blobs: Seq<BlobView>, i: nat)
    ensures
        project(ev, comps, blobs, i).len() == project_seqs(ev, comps, i).len(),
    decreases ev.len() - i,
{
    if i < ev.len() {
        match covering(comps, ev[i as int].seq) {
            Some(c) => {
                lemma_covering(comps, ev[i as int].seq);
                lemma_skip_past(ev, i, c.1);
                lemma_project_len(ev, comps, blobs, skip_past(ev, i, c.1));
            },
            None => {
                lemma_project_len(ev, comps, blobs, i + 1);
            },
        }
    }
}

/// The index map lines up with the projection: the projection has exactly
/// one producing event per message, whatever the blobs hold.
pub proof fn index_map_lines_up(ev: Seq<EventView>, blobs: Seq<BlobView>)
    ensures
        projection(ev, blobs).len() == projection_seqs(ev).len(),
{
    lemma_project_len(ev, compactions(ev), blobs, 0);
}

proof fn lemma_seqs_from_events(ev: Seq<EventView>, comps: Seq<Span>, i: nat)
    ensures
        forall|k: int|
            0 <= k < project_seqs(ev, comps, i).len() ==> exists|j: int|
                i <= j < ev.len() && #[trigger] project_seqs(ev, comps, i)[k] == ev[j].seq,
    decreases ev.len() - i,
{
    if i < ev.len() {
        let ps = project_seqs(ev, comps, i);
        match covering(comps, ev[i as int].seq) {
            Some(c) => {
                lemma_covering(comps, ev[i as int].seq);
                lemma_skip_past(ev, i, c.1);
                let nxt = skip_past(ev, i, c.1);
                lemma_seqs_from_events(ev, comps, nxt);
                assert forall|k: int| 0 <= k < ps.len() implies exists|j: int|
                    i <= j < ev.len() && #[trigger] ps[k] == ev[j].seq by {
                    if k == 0 {
                        assert(ps[k] == ev[i as int].seq);
                    } else {
                        assert(ps[k] == project_seqs(ev, comps, nxt)[k - 1]);
                    }
                }
            },
            None => {
                lemma_seqs_from_events(ev, comps, i + 1);
                let head: Seq<u64> = if is_model_visible(ev[i as int].payload) {
                    seq![ev[i as int].seq]
                } else {
                    seq![]
                };
                assert(ps == head + project_seqs(ev, comps, i + 1));
                assert forall|k: int| 0 <= k < ps.len() implies exists|j: int|
                    i <= j < ev.len() && #[trigger] ps[k] == ev[j].seq by {
                    if k < head.len() {
                        assert(ps[k] == ev[i as int].seq);
                    } else {
                        assert(ps[k] == project_seqs(ev, comps, i + 1)[k - head.len()]);
                    }
                }
            },
        }
    }
}

/// Model-visible means logged: every message of the projection is
/// attributed to an event of the log.
pub proof fn every_message_comes_from_an_event(ev: Seq<EventView>)
    ensures
        forall|k: int|
            0 <= k < projection_seqs(ev).len() ==> exists|j: int|
                0 <= j < ev.len() && #[trigger] projection_seqs(ev)[k] == ev[j].seq,
{
    lemma_seqs_from_events(ev, compactions(ev), 0);
}

// ----------------------------------------------------------- conversions

/// The event that would produce message `m`, if any. Images are not
/// carried: this direction converts a transient message whose bytes have no
/// blob yet.
pub open spec fn event_for_spec(m: MessageView) -> Option<PayloadView> {
    match m {
        MessageView::Simple { role, content, reasoning_content, tool_calls, .. } => {
            if role == "user"@ {
                Some(PayloadView::UserMessage { content, images: seq![] })
            } else if role == "assistant"@ {
                Some(PayloadView::AssistantMessage {
                    content,
                    reasoning: reasoning_content,
                    tool_calls: match tool_calls {
                        Some(c) => c,
                        None => seq![],
                    },
                })
            } else if role == "system"@ {
                Some(PayloadView::SystemPrompt { kind: PromptKind::Kernel, content })
            } else {
                None
            }
        },
        MessageView::ToolResponse { content, tool_call_id, .. } => Some(
            PayloadView::ToolResult { call_id: tool_call_id, content, images: seq![] },
        ),
    }
}

/// Turn a working-set message back into the event that would produce it.
pub fn event_for(message: &Message) -> (r: Option<EventPayload>)
    ensures
        match r {
            Some(p) => event_for_spec(message@) == Some(p@),
            None => event_for_spec(message@) is None,
        },
{
    match message {
        Message::Simple { role, content, reasoning_content, tool_calls, .. } => {
            if crate::text::str_eq(role.as_str(), "user") {
                let p = EventPayload::UserMessage { content: content.clone(), images: Vec::new() };
                assert(refs_view(Seq::<ImageRef>::empty()) =~= Seq::empty());
                Some(p)
            } else if crate::text::str_eq(role.as_str(), "assistant") {
                let calls = match tool_calls {
                    Some(c) => crate::api::copy_tool_calls(c),
                    None => Vec::new(),
                };
                assert(calls_view(Seq::<ToolCall>::empty()) =~= Seq::empty());
                Some(EventPayload::AssistantMessage {
                    content: content.clone(),
                    reasoning: crate::api::copy_opt_string(reasoning_content),
                    tool_calls: calls,
                })
            } else if crate::text::str_eq(role.as_str(), "system") {
                Some(EventPayload::SystemPrompt { kind: PromptKind::Kernel, content: content.clone() })
            } else {
                None
            }
        },
        Message::ToolResponse { content, tool_call_id, .. } => {
            assert(refs_view(Seq::<ImageRef>::empty()) =~= Seq::empty());
            Some(EventPayload::ToolResult {
                call_id: tool_call_id.clone(),
                content: content.clone(),
                images: Vec::new(),
            })
        },
    }
}

/// Whether converting the message that `p` projects to gives `p` back: a
/// model-visible payload with no images, and a system prompt only of the
/// kernel kind (the kind is not carried by a message).
pub open spec fn round_trips(p: PayloadView) -> bool {
    match p {
        PayloadView::UserMessage { images, .. } => images.len() == 0,
        PayloadView::AssistantMessage { .. } => true,
        PayloadView::ToolResult { images, .. } => images.len() == 0,
        PayloadView::SystemPrompt { kind, .. } => kind == PromptKind::Kernel,
        _ => false,
    }
}

/// Converting a message back to its event undoes the projection of that
/// event, so the log and the working set cannot drift apart.
pub proof fn event_for_undoes_emission(p: PayloadView, blobs: Seq<BlobView>)
    requires
        round_trips(p),
    ensures
        emitted(p, blobs).len() == 1,
        event_for_spec(emitted(p, blobs)[0]) == Some(p),
{
    reveal_strlit("user");
    reveal_strlit("assistant");
    reveal_strlit("system");
    reveal_strlit("tool");
    match p {
        PayloadView::UserMessage { content, images } => {
            assert(images =~= Seq::<ImageRefView>::empty());
            assert(loaded_text(content, images, blobs) == content);
            assert(loaded_parts(images, blobs) =~= Seq::<ImageView>::empty());
            assert(p == PayloadView::UserMessage { content, images: seq![] });
            assert(emitted(p, blobs)[0] == user_view(content, seq![]));
        },
        PayloadView::ToolResult { call_id, content, images } => {
            assert(images =~= Seq::<ImageRefView>::empty());
            assert(p == PayloadView::ToolResult { call_id, content, images: seq![] });
        },
        PayloadView::AssistantMessage { content, reasoning, tool_calls } => {
            assert("assistant"@.len() != "user"@.len());
            if tool_calls.len() == 0 {
                assert(tool_calls =~= Seq::<ToolCallView>::empty());
            }
        },
        PayloadView::SystemPrompt { .. } => {
            assert("system"@.len() != "user"@.len());
            assert("system"@.len() != "assistant"@.len());
        },
        _ => {},
    }
}


// ---------------------------------------------------------------- session

/// The title a session starts with.
pub const UNTITLED: &'static str = "New Chat";

/// Everything a session listing needs, so listing never parses the log.
#[derive(Debug, Clone, PartialEq)]
pub struct SessionMeta {
    pub id: String,
    pub title: String,
    pub model: String,
    /// Microseconds since the Unix epoch.
    pub created_micros: i64,
    /// Microseconds since the Unix epoch.
    pub updated_micros: i64,
    pub event_count: usize,
    pub cost: CostTracker,
    /// Set when this session was forked, so lineage is visible.
    pub forked_from: Option<String>,
}

/// A session: its listing data and its append-only event log.
#[derive(Debug)]
pub struct Session {
    pub meta: SessionMeta,
    pub events: Vec<SessionEvent>,
    /// How many leading events are already on disk; derived, never stored.
    /// The writer moves it through [`Session::mark_persisted`] only.
    pub persisted: usize,
}

/// The first 8 bytes of `s` when byte 8 is a char boundary, else all of `s`.
pub open spec fn short_id_spec(s: Seq<char>) -> Seq<char> {
    let k = crate::compressor::floor_count(s, 8);
    if crate::compressor::prefix_bytes(s, k as int) == 8 {
        s.take(k as int)
    } else {
        s
    }
}

/// The short form of an id shown to people: its first 8 bytes, or the whole
/// id when it is shorter or byte 8 falls inside a char.
pub fn short_id(id: &str) -> (r: String)
    ensures
        r@ == short_id_spec(id@),
{
    let cs = crate::text::chars_of(id);
    let (bytes, k) = crate::compressor::floor_in(cs.as_slice(), 8);
    if bytes == 8 {
        let r = string_of(&cs.as_slice()[0..k]);
        assert(cs@.subrange(0, k as int) =~= id@.take(k as int));
        r
    } else {
        lit(id)
    }
}

/// Events `[persisted, len)` of `events`: empty when the watermark is past
/// the end.
pub open spec fn unpersisted_spec(events: Seq<SessionEvent>, persisted: nat) -> Seq<SessionEvent> {
    if persisted <= events.len() {
        events.skip(persisted as int)
    } else {
        seq![]
    }
}

impl Session {
    /// A fresh, empty session.
    pub fn new(id: String, model: String) -> (r: Self)
        ensures
            r.meta.id@ == id@,
            r.meta.model@ == model@,
            r.meta.title@ == UNTITLED@,
            r.meta.created_micros == r.meta.updated_micros,
            r.meta.event_count == 0,
            r.meta.cost == CostTracker::empty_spec(),
            r.meta.forked_from is None,
            r.events@.len() == 0,
            r.persisted == 0,
    {
        let now = now_micros();
        Session {
            meta: SessionMeta {
                id,
                title: lit(UNTITLED),
                model,
                created_micros: now,
                updated_micros: now,
                event_count: 0,
                cost: CostTracker::new(),
                forked_from: None,
            },
            events: Vec::new(),
            persisted: 0,
        }
    }

    /// A session read back from disk: every event present is already
    /// persisted.
    pub fn restored(meta: SessionMeta, events: Vec<SessionEvent>) -> (r: Self)
        ensures
            r.meta == meta,
            r.events@ == events@,
            r.persisted == events@.len(),
    {
        let persisted = events.len();
        Session { meta, events, persisted }
    }

    /// Events not yet on disk.
    pub fn unpersisted(&self) -> (r: &[SessionEvent])
        ensures
            r@ == unpersisted_spec(self.events@, self.persisted as nat),
    {
        let n = self.events.len();
        if self.persisted <= n {
            let r = &self.events.as_slice()[self.persisted..n];
            assert(r@ =~= self.events@.skip(self.persisted as int));
            r
        } else {
            let r = &self.events.as_slice()[n..n];
            assert(r@ =~= Seq::<SessionEvent>::empty());
            r
        }
    }

    /// Called by the writer once `unpersisted()` has been appended.
    pub fn mark_persisted(&mut self)
        ensures
            final(self).meta == old(self).meta,
            final(self).events@ == old(self).events@,
            final(self).persisted == old(self).events@.len(),
            unpersisted_spec(final(self).events@, final(self).persisted as nat).len() == 0,
    {
        self.persisted = self.events.len();
    }

    pub fn id(&self) -> (r: &String)
        ensures
            r@ == self.meta.id@,
    {
        &self.meta.id
    }

    /// Append one event, assigning the next sequence number.
    pub fn record(&mut self, payload: EventPayload)
        ensures
            final(self).events@.len() == old(self).events@.len() + 1,
            final(self).events@.drop_last() == old(self).events@,
            final(self).events@.last().seq == old(self).events@.len(),
            final(self).events@.last().payload == payload,
            final(self).meta.event_count == final(self).events@.len(),
            final(self).meta.id == old(self).meta.id,
            final(self).meta.title == old(self).meta.title,
            final(self).meta.model == old(self).meta.model,
            final(self).meta.created_micros == old(self).meta.created_micros,
            final(self).meta.cost == old(self).meta.cost,
            final(self).meta.forked_from == old(self).meta.forked_from,
            final(self).persisted == old(self).persisted,
    {
        let seq = self.events.len() as u64;
        let ts = now_micros();
        let ghost before = self.events@;
        self.events.push(SessionEvent { seq, ts_micros: ts, payload });
        assert(self.events@.drop_last() =~= before);
        self.meta.event_count = self.events.len();
        self.meta.updated_micros = now_micros();
    }

    /// Append each payload in order, as [`Session::record`] would.
    pub fn extend(&mut self, payloads: Vec<EventPayload>)
        ensures
            final(self).events@.len() == old(self).events@.len() + payloads@.len(),
            final(self).events@.take(old(self).events@.len() as int) == old(self).events@,
            forall|i: int|
                0 <= i < payloads@.len() ==> {
                    &&& #[trigger] final(self).events@[old(self).events@.len() + i].seq
                        == old(self).events@.len() + i
                    &&& final(self).events@[old(self).events@.len() + i].payload@ == payloads@[i]@
                },
            final(self).meta.event_count == (if payloads@.len() == 0 {
                old(self).meta.event_count as int
            } else {
                final(self).events@.len() as int
            }),
            final(self).meta.id == old(self).meta.id,
            final(self).meta.cost == old(self).meta.cost,
            final(self).persisted == old(self).persisted,
    {
        let ghost start = self.events@;
        let ghost n0 = self.events@.len();
        let ghost meta0 = self.meta;
        let n = payloads.len();
        assert(self.events@.take(n0 as int) =~= start);
        let mut i: usize = 0;
        while i < n
            invariant
                n == payloads@.len(),
                i <= n,
                self.events@.len() == n0 + i,
                self.events@.take(n0 as int) == start,
                forall|j: int|
                    0 <= j < i ==> {
                        &&& #[trigger] self.events@[n0 + j].seq == n0 + j
                        &&& self.events@[n0 + j].payload@ == payloads@[j]@
                    },
                self.meta.event_count == (if i == 0 { meta0.event_count as int } else { self.events@.len() as int }),
                self.meta.id == meta0.id,
                self.meta.cost == meta0.cost,
                self.persisted == old(self).persisted,
            decreases n - i,
        {
            let ghost prev = self.events@;
            self.record(payloads[i].copied());
            assert(self.events@.drop_last() == prev);
            assert(self.events@.take(n0 as int) =~= prev.take(n0 as int));
            assert forall|j: int| 0 <= j < i + 1 implies {
                &&& #[trigger] self.events@[n0 + j].seq == n0 + j
                &&& self.events@[n0 + j].payload@ == payloads@[j]@
            } by {
                if j < i {
                    assert(self.events@[n0 + j] == prev[n0 + j]);
                }
            }
            i += 1;
        }
    }

    /// The model-visible conversation: the single source of the working set.
    pub fn messages(&self, blobs: &[Blob]) -> (r: Vec<Message>)
        ensures
            messages_view(r@) == projection(events_view(self.events@), blobs_view(blobs@)),
    {
        derive_messages(self.events.as_slice(), blobs)
    }

    /// Truncate to the first `count` events (clamped to the log), producing
    /// an independent session that records its lineage and starts with no
    /// cost and nothing on disk.
    pub fn fork(&self, new_id: String, count: usize) -> (r: Self)
        ensures
            r.meta.id@ == new_id@,
            r.meta.title@ == "fork of "@ + short_id_spec(self.meta.id@),
            r.meta.model@ == self.meta.model@,
            r.meta.created_micros == r.meta.updated_micros,
            r.meta.event_count == r.events@.len(),
            r.meta.cost == CostTracker::empty_spec(),
            r.meta.forked_from matches Some(p) && p@ == self.meta.id@,
            r.events@.len() == (if count < self.events@.len() { count as int } else { self.events@.len() as int }),
            events_view(r.events@) == events_view(self.events@).take(r.events@.len() as int),
            forall|j: int| 0 <= j < r.events@.len() ==> (#[trigger] r.events@[j]).ts_micros == self.events@[j].ts_micros,
            r.persisted == 0,
    {
        let count = if count < self.events.len() { count } else { self.events.len() };
        let now = now_micros();
        let mut title = lit("fork of ");
        let short = short_id(self.meta.id.as_str());
        push_str(&mut title, short.as_str());
        let mut events: Vec<SessionEvent> = Vec::new();
        let mut i: usize = 0;
        while i < count
            invariant
                count <= self.events@.len(),
                i <= count,
                events@.len() == i,
                forall|j: int| 0 <= j < i ==> #[trigger] events@[j]@ == self.events@[j]@,
                forall|j: int| 0 <= j < i ==> (#[trigger] events@[j]).ts_micros == self.events@[j].ts_micros,
            decreases count - i,
        {
            events.push(self.events[i].copied());
            i += 1;
        }
        assert(events_view(events@) =~= events_view(self.events@).take(count as int));
        Session {
            meta: SessionMeta {
                id: new_id,
                title,
                model: self.meta.model.clone(),
                created_micros: now,
                updated_micros: now,
                event_count: count,
                cost: CostTracker::new(),
                forked_from: Some(self.meta.id.clone()),
            },
            events,
            persisted: 0,
        }
    }
}

} // verus!

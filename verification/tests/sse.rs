use seekcli::api::{StreamItem, UsageInfo};
use seekcli::sse::{
    data_payload, lossy_text, AnthropicEvent, AnthropicStream, ChoiceDelta, LineBuffer, OpenAiChunk, OpenAiStream,
    ToolDelta,
};

#[test]
fn lines_are_cut_at_newlines_and_the_rest_waits() {
    let mut b = LineBuffer::new();
    let got = b.push(b"data: a\nda");
    assert_eq!(got, vec![b"data: a".to_vec()]);
    assert_eq!(b.pending, b"da".to_vec());
    let got = b.push(b"ta: b\n\n");
    assert_eq!(got, vec![b"data: b".to_vec(), Vec::new()]);
    assert!(b.pending.is_empty());
}

#[test]
fn a_multibyte_char_split_across_chunks_survives() {
    let mut b = LineBuffer::new();
    let bytes = "中\n".as_bytes();
    assert!(b.push(&bytes[..1]).is_empty());
    let got = b.push(&bytes[1..]);
    assert_eq!(lossy_text(&got[0]), "中");
}

#[test]
fn lossy_text_replaces_bad_bytes() {
    assert_eq!(lossy_text(b"ok"), "ok");
    assert_eq!(lossy_text(&[0x61, 0xff, 0x62]), "a\u{fffd}b");
}

#[test]
fn only_data_lines_carry_a_payload() {
    assert_eq!(data_payload("data:  {\"x\":1} ").as_deref(), Some("{\"x\":1}"));
    assert_eq!(data_payload("data: [DONE]").as_deref(), Some("[DONE]"));
    assert!(data_payload("event: ping").is_none());
    assert!(data_payload("data:x").is_none());
}

fn choice(content: Option<&str>, calls: Vec<ToolDelta>, finish: Option<&str>) -> OpenAiChunk {
    OpenAiChunk {
        usage: None,
        choice: Some(ChoiceDelta {
            reasoning: None,
            content: content.map(|s| s.to_string()),
            tool_calls: calls,
            finish_reason: finish.map(|s| s.to_string()),
        }),
    }
}

fn delta(index: usize, id: Option<&str>, name: Option<&str>, args: Option<&str>) -> ToolDelta {
    ToolDelta {
        index,
        id: id.map(|s| s.to_string()),
        tool_type: None,
        name: name.map(|s| s.to_string()),
        arguments: args.map(|s| s.to_string()),
    }
}

#[test]
fn tool_call_fragments_are_assembled_in_index_order() {
    let mut s = OpenAiStream::new();
    let items = s.apply(&choice(Some("thinking aloud"), vec![delta(1, Some("c1"), Some("list_dir"), Some("{\"pa"))], None));
    assert_eq!(items, vec![StreamItem::Content("thinking aloud".into())]);
    let items = s.apply(&choice(None, vec![delta(0, Some("c0"), Some("read_file"), None), delta(1, None, None, Some("th\":\".\"}"))], None));
    assert!(items.is_empty());
    let items = s.apply(&choice(Some(""), vec![], Some("tool_calls")));
    assert_eq!(items.len(), 3);
    match (&items[0], &items[1]) {
        (StreamItem::ToolCall(a), StreamItem::ToolCall(b)) => {
            assert_eq!(a.id, "c0");
            assert_eq!(a.function.name, "read_file");
            assert_eq!(a.function.arguments, "{}");
            assert_eq!(a.tool_type, "function");
            assert_eq!(b.id, "c1");
            assert_eq!(b.function.arguments, "{\"path\":\".\"}");
        }
        _ => panic!("expected two tool calls"),
    }
    assert_eq!(items[2], StreamItem::Finish(Some("tool_calls".into())));
    assert!(s.finished);
}

#[test]
fn a_call_without_an_id_gets_a_fresh_one_and_a_nameless_one_is_dropped() {
    let mut s = OpenAiStream::new();
    s.apply(&choice(None, vec![delta(0, None, Some("grep"), Some("{}")), delta(1, Some("x"), None, Some("{}"))], None));
    let items = s.done();
    assert_eq!(items.len(), 1);
    match &items[0] {
        StreamItem::ToolCall(tc) => {
            assert!(tc.id.starts_with("call_"), "{}", tc.id);
            assert_eq!(tc.function.name, "grep");
        }
        other => panic!("expected a tool call, got {other:?}"),
    }
}

#[test]
fn usage_comes_first_even_without_a_choice() {
    let mut s = OpenAiStream::new();
    let u = UsageInfo { prompt_tokens: 10, completion_tokens: 2, prompt_cache_hit_tokens: 4, prompt_cache_miss_tokens: 6 };
    let items = s.apply(&OpenAiChunk { usage: Some(u), choice: None });
    assert_eq!(items, vec![StreamItem::Usage(u)]);
    assert!(!s.finished);
}

#[test]
fn an_anthropic_stream_reports_text_tools_and_usage() {
    let mut s = AnthropicStream::new();
    assert!(s.handle(AnthropicEvent::MessageStart { usage: Some((10, 30, 5)) }).is_empty());
    assert_eq!(s.usage.prompt_tokens, 45);
    assert_eq!(s.usage.prompt_cache_hit_tokens, 30);
    assert_eq!(s.usage.prompt_cache_miss_tokens, 15);
    assert_eq!(s.handle(AnthropicEvent::ThinkingDelta("hm".into())), vec![StreamItem::Reasoning("hm".into())]);
    assert_eq!(s.handle(AnthropicEvent::TextDelta("hi".into())), vec![StreamItem::Content("hi".into())]);
    s.handle(AnthropicEvent::BlockStart { index: 1, kind: "tool_use".into(), id: "t1".into(), name: "read_file".into() });
    s.handle(AnthropicEvent::InputJsonDelta { index: 1, partial_json: "{\"path\":".into() });
    s.handle(AnthropicEvent::InputJsonDelta { index: 1, partial_json: "\"a\"}".into() });
    let items = s.handle(AnthropicEvent::BlockStop { index: 1 });
    match &items[..] {
        [StreamItem::ToolCall(tc)] => {
            assert_eq!(tc.id, "t1");
            assert_eq!(tc.function.name, "read_file");
            assert_eq!(tc.function.arguments, "{\"path\":\"a\"}");
        }
        other => panic!("expected one tool call, got {other:?}"),
    }
    let items = s.handle(AnthropicEvent::MessageDelta { output_tokens: Some(7), stop_reason: Some("end_turn".into()) });
    assert_eq!(items.len(), 2);
    assert!(matches!(&items[0], StreamItem::Usage(u) if u.completion_tokens == 7 && u.prompt_tokens == 45));
    assert_eq!(items[1], StreamItem::Finish(Some("end_turn".into())));
    assert!(s.handle(AnthropicEvent::MessageStop).is_empty());
    assert!(s.finished);
}

#[test]
fn a_tool_block_with_no_input_yields_an_empty_object() {
    let mut s = AnthropicStream::new();
    s.handle(AnthropicEvent::BlockStart { index: 0, kind: "tool_use".into(), id: "t".into(), name: "list".into() });
    let items = s.handle(AnthropicEvent::BlockStop { index: 0 });
    assert!(matches!(&items[0], StreamItem::ToolCall(tc) if tc.function.arguments == "{}"));
    // A text block closing yields nothing; an unknown block is ignored.
    s.handle(AnthropicEvent::BlockStart { index: 1, kind: "text".into(), id: String::new(), name: String::new() });
    assert!(s.handle(AnthropicEvent::BlockStop { index: 1 }).is_empty());
    assert!(s.handle(AnthropicEvent::BlockStop { index: 9 }).is_empty());
}

#[test]
fn the_done_marker_flushes_open_calls_and_bad_lines_are_skipped() {
    let mut s = OpenAiStream::new();
    let (items, ended) = s.data_line("{not json", None);
    assert!(items.is_empty());
    assert!(!ended);
    let c = choice(Some("hi"), Vec::new(), None);
    let (items, ended) = s.data_line("{}", Some(&c));
    assert!(!ended);
    assert_eq!(items, vec![StreamItem::Content("hi".into())]);
    let (_, ended) = s.data_line("[DONE]", None);
    assert!(ended);
    assert!(s.finished);
}

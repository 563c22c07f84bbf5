use seekcli::api::{FunctionCall, Message, ToolCall, UsageInfo};
use seekcli::session::{
    base64_encode, derive_messages, derive_messages_indexed, event_for, rebuild_user_message, short_id, Blob,
    EventPayload, ImageRef, PromptKind, Session, UNTITLED,
};

#[test]
fn base64_matches_the_standard_vectors() {
    assert_eq!(base64_encode(b""), "");
    assert_eq!(base64_encode(b"f"), "Zg==");
    assert_eq!(base64_encode(b"fo"), "Zm8=");
    assert_eq!(base64_encode(b"foo"), "Zm9v");
    assert_eq!(base64_encode(b"foob"), "Zm9vYg==");
    assert_eq!(base64_encode(b"fooba"), "Zm9vYmE=");
    assert_eq!(base64_encode(b"foobar"), "Zm9vYmFy");
    assert_eq!(base64_encode(&[0xff, 0x00, 0x80]), "/wCA");
}

#[test]
fn a_logged_image_is_reloaded_into_the_projection() {
    let blobs = vec![Blob { path: "/blobs/shot.png".into(), bytes: Some(b"foobar".to_vec()) }];
    let msg = rebuild_user_message(
        "what is this?",
        &[ImageRef { path: "/blobs/shot.png".into(), media_type: "image/png".into() }],
        &blobs,
    );
    assert_eq!(msg.images().len(), 1);
    assert_eq!(msg.images()[0].data_base64, "Zm9vYmFy");
}

#[test]
fn an_expired_blob_degrades_visibly_instead_of_vanishing() {
    let msg = rebuild_user_message(
        "describe it",
        &[ImageRef { path: "/nonexistent/gone.png".into(), media_type: "image/png".into() }],
        &[],
    );
    assert!(msg.images().is_empty(), "no bytes should be invented");
    let text = match &msg {
        Message::Simple { content, .. } => content.clone(),
        other => panic!("unexpected variant: {other:?}"),
    };
    assert!(text.contains("describe it"), "{text}");
    assert!(text.contains("no longer available"), "{text}");
    assert!(text.contains("gone.png"), "must name which one: {text}");
}

fn session() -> Session {
    let mut s = Session::new("test-session-id".into(), "m".into());
    s.record(EventPayload::SystemPrompt { kind: PromptKind::Kernel, content: "kernel".into() });
    s.record(EventPayload::UserMessage { images: Vec::new(), content: "hi".into() });
    s.record(EventPayload::AssistantMessage {
        content: String::new(),
        reasoning: Some("thinking".into()),
        tool_calls: vec![ToolCall {
            id: "c1".into(),
            tool_type: "function".into(),
            function: FunctionCall { name: "read_file".into(), arguments: "{}".into() },
        }],
    });
    s.record(EventPayload::ToolResult { images: Vec::new(), call_id: "c1".into(), content: "contents".into() });
    s.record(EventPayload::AssistantMessage { content: "done".into(), reasoning: None, tool_calls: vec![] });
    s
}

#[test]
fn projection_rebuilds_the_conversation_in_order() {
    let msgs = session().messages(&[]);
    assert_eq!(msgs.len(), 5);
    let roles: Vec<String> = msgs
        .iter()
        .map(|m| match m {
            Message::Simple { role, .. } => role.clone(),
            Message::ToolResponse { role, .. } => role.clone(),
        })
        .collect();
    assert_eq!(roles, ["system", "user", "assistant", "tool", "assistant"]);
}

#[test]
fn bookkeeping_events_are_not_model_visible() {
    let mut s = session();
    s.record(EventPayload::Usage(UsageInfo::default()));
    s.record(EventPayload::SkillActivated { name: "x".into() });
    s.record(EventPayload::Interrupted);
    assert_eq!(s.events.len(), 8);
    assert_eq!(s.messages(&[]).len(), 5);
}

#[test]
fn compaction_replaces_the_range_in_the_projection_but_not_on_disk() {
    let mut s = session();
    s.record(EventPayload::Compaction { from: 1, to: 4, summary: "user asked, tool answered".into() });
    let msgs = s.messages(&[]);
    assert_eq!(msgs.len(), 3);
    match &msgs[1] {
        Message::Simple { content, role, .. } => {
            assert_eq!(role, "system");
            assert!(content.contains("user asked"), "got: {}", content);
        }
        _ => panic!("expected the summary as a system message"),
    }
    assert_eq!(s.events.len(), 6);
    assert!(s.events.iter().any(|e| matches!(
        &e.payload,
        EventPayload::ToolResult { content, .. } if content == "contents"
    )));
}

#[test]
fn fork_truncates_and_records_lineage_without_inheriting_cost() {
    let mut s = session();
    s.meta.cost.record(&UsageInfo { prompt_tokens: 100, completion_tokens: 10, ..Default::default() });
    let f = s.fork("child".into(), 2);
    assert_eq!(f.events.len(), 2);
    assert_eq!(f.meta.forked_from.as_deref(), Some("test-session-id"));
    assert!(f.meta.cost.is_empty(), "cost belongs to the run that spent it");
    assert_eq!(s.events.len(), 5);
    for (a, b) in f.events.iter().zip(s.events.iter()) {
        assert_eq!(a.ts_micros, b.ts_micros, "copied events keep their time");
        assert_eq!(a.seq, b.seq);
    }
}

#[test]
fn fork_past_the_end_is_clamped_rather_than_panicking() {
    let f = session().fork("child".into(), 999);
    assert_eq!(f.events.len(), 5);
}

#[test]
fn the_index_map_lines_up_with_the_projection() {
    let s = session();
    let (msgs, seqs) = derive_messages_indexed(&s.events, &[]);
    assert_eq!(msgs.len(), seqs.len());
    assert_eq!(seqs, vec![0, 1, 2, 3, 4]);
}

#[test]
fn the_index_map_survives_a_compacted_range() {
    let mut s = session();
    s.record(EventPayload::Compaction { from: 1, to: 4, summary: "summary".into() });
    let (msgs, seqs) = derive_messages_indexed(&s.events, &[]);
    assert_eq!(msgs.len(), seqs.len());
    assert_eq!(seqs, vec![0, 1, 4]);
}

#[test]
fn a_new_session_is_untitled_and_empty() {
    let s = Session::new("abc".into(), "m".into());
    assert_eq!(s.meta.title, UNTITLED);
    assert!(s.events.is_empty());
    assert_eq!(s.id(), "abc");
}

#[test]
fn events_recorded_are_numbered_from_zero() {
    let s = session();
    let seqs: Vec<u64> = s.events.iter().map(|e| e.seq).collect();
    assert_eq!(seqs, vec![0, 1, 2, 3, 4]);
    assert_eq!(s.meta.event_count, 5);
}

#[test]
fn a_fork_is_titled_after_its_parent() {
    let f = session().fork("child".into(), 1);
    assert_eq!(f.meta.title, "fork of test-ses");
}

#[test]
fn short_ids_are_eight_bytes() {
    assert_eq!(short_id("0123456789abcdef"), "01234567");
    assert_eq!(short_id("abc"), "abc");
}

#[test]
fn every_visible_message_maps_back_to_an_event() {
    let msgs = derive_messages(&session().events, &[]);
    for m in &msgs {
        if m.is_system() {
            continue;
        }
        assert!(event_for(m).is_some(), "{m:?}");
    }
}

#[test]
fn only_what_is_persisted_is_left_out_of_the_next_write() {
    let mut s = session();
    assert_eq!(s.unpersisted().len(), 5);
    s.mark_persisted();
    assert!(s.unpersisted().is_empty());
    s.record(EventPayload::Interrupted);
    assert_eq!(s.unpersisted().len(), 1);
}

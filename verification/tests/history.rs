use seekcli::api::Message;
use seekcli::cost::CostTracker;
use seekcli::history::{
    bookkeeping_text_of, excerpt_of, first_matching_line, migrated_session, pick_session, sort_newest_first, HistoryManager,
};
use seekcli::session::{event_for, EventPayload, Session, SessionMeta};
use seekcli::api::UsageInfo;

fn meta(id: &str, title: &str, updated: i64) -> SessionMeta {
    SessionMeta {
        id: id.into(),
        title: title.into(),
        model: "m".into(),
        created_micros: 0,
        updated_micros: updated,
        event_count: 0,
        cost: CostTracker::new(),
        forked_from: None,
    }
}

#[test]
fn save_and_load_round_trips_through_the_event_log() {
    let h = HistoryManager { base_dir: "/tmp/sessions".into() };
    let mut s = h.create_session("m".into());
    s.record(EventPayload::UserMessage { images: Vec::new(), content: "hello".into() });
    s.meta.title = "greeting".into();
    let back = Session::restored(s.meta.clone(), s.unpersisted().to_vec());
    assert_eq!(back.meta.title, "greeting");
    assert_eq!(back.events.len(), 1);
    assert_eq!(back.messages(&[]).len(), 1);
}

#[test]
fn listing_reads_meta_only_and_sorts_newest_first() {
    let list = sort_newest_first(vec![meta("a", "first", 0), meta("b", "second", 1_000_000)]);
    assert_eq!(list.len(), 2);
    assert_eq!(list[0].title, "second", "newest first");
}

#[test]
fn an_ambiguous_prefix_is_refused_rather_than_guessed() {
    let names = vec!["dup-aa".to_string(), "dup-ab".to_string()];
    let err = match pick_session("dup-", false, &names) {
        Ok(_) => panic!("an ambiguous prefix must not silently pick one"),
        Err(e) => e,
    };
    assert!(err.contains("longer prefix"), "got: {}", err);
    assert_eq!(pick_session("dup-aa", false, &names).ok().as_deref(), Some("dup-aa"));
    assert_eq!(pick_session("dup-", true, &names).ok().as_deref(), Some("dup-"));
    assert_eq!(pick_session("zzz", false, &names).err().as_deref(), Some("no session matches `zzz`"));
}

#[test]
fn resolving_an_id_gives_the_session_directory() {
    let h = HistoryManager { base_dir: "/s".into() };
    let names = vec!["abc123".to_string()];
    assert_eq!(h.resolve_id("abc", false, &names).ok().as_deref(), Some("/s/abc123"));
    assert_eq!(h.blobs_dir("abc123"), "/s/abc123/blobs");
}

#[test]
fn legacy_snapshots_migrate_reversibly() {
    let msgs = vec![
        Message::new_user_text("hi".into()),
        Message::Simple {
            images: Vec::new(),
            role: "assistant".into(),
            content: "hello".into(),
            reasoning_content: None,
            tool_calls: None,
        },
    ];
    let migrated = migrated_session("legacy-one".into(), "old chat".into(), "m".into(), &msgs, 7, CostTracker::new());
    assert_eq!(migrated.meta.title, "old chat");
    assert_eq!(migrated.meta.id, "legacy-one");
    assert_eq!(migrated.meta.created_micros, 7);
    assert_eq!(migrated.messages(&[]).len(), 2);
}

#[test]
fn an_untitled_legacy_snapshot_gets_the_default_title() {
    let migrated = migrated_session("x".into(), "".into(), "m".into(), &[], 0, CostTracker::new());
    assert_eq!(migrated.meta.title, seekcli::session::UNTITLED);
    assert!(migrated.events.is_empty());
}

#[test]
fn search_finds_the_session_containing_a_phrase() {
    let a = "{\"payload\":\"how do I configure ripgrep\"}\n";
    let b = "{\"payload\":\"unrelated chatter\"}\n";
    assert!(first_matching_line(a, "RIPGREP").is_some(), "case-insensitive");
    assert!(first_matching_line(b, "RIPGREP").is_none());
}

#[test]
fn search_excerpts_show_the_message_not_the_json_record() {
    let payload = EventPayload::UserMessage { images: Vec::new(), content: "how do I\n  configure   ripgrep".into() };
    let excerpt = excerpt_of(Some(&payload), "{\"payload\":{...}}");
    assert_eq!(excerpt, "how do I configure ripgrep");
    assert!(!excerpt.contains("payload"), "raw JSON leaked: {}", excerpt);
}

#[test]
fn an_unreadable_line_is_excerpted_as_text_and_capped() {
    let long = "x ".repeat(80);
    let excerpt = excerpt_of(None, &long);
    assert_eq!(excerpt.chars().count(), 100);
    assert!(excerpt.starts_with("x x"));
}

#[test]
fn message_conversion_covers_every_role_the_log_stores() {
    let msgs = vec![
        Message::new_user_text("u".into()),
        Message::Simple {
            images: Vec::new(),
            role: "assistant".into(),
            content: "a".into(),
            reasoning_content: None,
            tool_calls: None,
        },
        Message::ToolResponse {
            images: Vec::new(),
            role: "tool".into(),
            content: "t".into(),
            tool_call_id: "c1".into(),
        },
    ];
    for m in &msgs {
        assert!(event_for(m).is_some(), "unconverted message");
    }
}

#[test]
fn bookkeeping_events_show_their_debug_form() {
    let a = EventPayload::SkillActivated { name: "a\"b\\c\nd".into() };
    assert_eq!(bookkeeping_text_of(&a), format!("{:?}", a));
    assert_eq!(bookkeeping_text_of(&a), "SkillActivated { name: \"a\\\"b\\\\c\\nd\" }");
    let u = EventPayload::Usage(UsageInfo {
        prompt_tokens: 12,
        completion_tokens: 3,
        prompt_cache_hit_tokens: 0,
        prompt_cache_miss_tokens: 40,
    });
    assert_eq!(
        bookkeeping_text_of(&u),
        "Usage(UsageInfo { prompt_tokens: 12, completion_tokens: 3, prompt_cache_hit_tokens: 0, prompt_cache_miss_tokens: 40 })"
    );
    assert_eq!(bookkeeping_text_of(&EventPayload::Interrupted), "Interrupted");
    assert_eq!(excerpt_of(Some(&EventPayload::Interrupted), "raw"), "Interrupted");
}

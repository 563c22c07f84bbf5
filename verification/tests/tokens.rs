use seekcli::api::{FunctionCall, ImagePart, Message, ToolCall};
use seekcli::tokens::{Heuristic, TokenCounter, ENVELOPE_TOKENS, IMAGE_TOKENS};

#[test]
fn an_image_is_not_counted_as_free() {
    let text_only = vec![Message::new_user_text("hi".into())];
    let with_image = vec![Message::new_user_with_images(
        "hi".into(),
        vec![ImagePart { media_type: "image/png".into(), data_base64: "QQ==".into() }],
    )];
    let bare = Heuristic.count_messages(&text_only);
    let imaged = Heuristic.count_messages(&with_image);
    assert!(imaged >= bare + IMAGE_TOKENS, "image added only {} tokens", imaged - bare);
}

#[test]
fn latin_text_uses_roughly_four_bytes_per_token() {
    let text = "the quick brown fox jumps over the lazy dog";
    let n = Heuristic.count_text(text);
    assert!((10..=12).contains(&n), "got {}", n);
}

#[test]
fn cjk_is_not_charged_three_times_over() {
    let cjk = "这是一段中文对话内容";
    let tokens = Heuristic.count_text(cjk);
    assert!((10..=12).contains(&tokens), "10 CJK chars should be ~10 tokens, got {}", tokens);
    assert!(tokens < cjk.len(), "must be cheaper than raw bytes");
}

#[test]
fn mixed_script_lands_between_the_two_ratios() {
    let mixed = "read 文件 and report";
    let n = Heuristic.count_text(mixed);
    assert!(n > 0 && n < mixed.len());
}

#[test]
fn message_counting_includes_tool_call_arguments() {
    let bare = vec![Message::Simple {
        images: Vec::new(),
        role: "assistant".into(),
        content: "ok".into(),
        reasoning_content: None,
        tool_calls: None,
    }];
    let with_call = vec![Message::Simple {
        images: Vec::new(),
        role: "assistant".into(),
        content: "ok".into(),
        reasoning_content: None,
        tool_calls: Some(vec![ToolCall {
            id: "c1".into(),
            tool_type: "function".into(),
            function: FunctionCall { name: "read_file".into(), arguments: r#"{"path":"some/long/path.rs"}"#.into() },
        }]),
    }];
    assert!(Heuristic.count_messages(&with_call) > Heuristic.count_messages(&bare));
}

#[test]
fn empty_input_is_zero_plus_envelope() {
    assert_eq!(Heuristic.count_text(""), 0);
    assert_eq!(Heuristic.count_messages(&[]), 0);
}

#[test]
fn one_message_pays_the_envelope() {
    let one = vec![Message::new_user_text(String::new())];
    assert_eq!(Heuristic.count_messages(&one), ENVELOPE_TOKENS);
}

use giribeat::cli::Provider;
use giribeat::llm::{
    api_error_message, chat_messages, parse_failure_message, refusal, reply_text, empty_reply_message, first_choice, first_text_block, ContentBlock, LlmRequest,
    STRUDEL_SYSTEM_PROMPT,
};

#[test]
fn request_sends_system_then_user() {
    let req = LlmRequest { prompt: "bossa nova".to_string(), model: "m".to_string(), api_key: "k".to_string() };
    let m = chat_messages(&req);
    assert_eq!(m.len(), 2);
    assert_eq!(m[0].role, "system");
    assert_eq!(m[0].content, STRUDEL_SYSTEM_PROMPT);
    assert_eq!(m[1].role, "user");
    assert_eq!(m[1].content, "bossa nova");
}

#[test]
fn first_choice_is_taken() {
    assert_eq!(first_choice(vec![]), None);
    assert_eq!(first_choice(vec!["a".to_string(), "b".to_string()]), Some("a".to_string()));
}

#[test]
fn first_text_block_skips_other_kinds() {
    let blocks = vec![
        ContentBlock { kind: "thinking".to_string(), text: "hmm".to_string() },
        ContentBlock { kind: "text".to_string(), text: "{}".to_string() },
        ContentBlock { kind: "text".to_string(), text: "later".to_string() },
    ];
    assert_eq!(first_text_block(blocks), Some("{}".to_string()));
    assert_eq!(first_text_block(vec![ContentBlock { kind: "Text".to_string(), text: "x".to_string() }]), None);
}

#[test]
fn refusals_name_provider_status_and_reason() {
    assert_eq!(
        api_error_message(Provider::Cerebras, "401 Unauthorized", Some("bad key".to_string()), "{...}"),
        "Cerebras API error 401 Unauthorized: bad key"
    );
    assert_eq!(
        api_error_message(Provider::Cohere, "500 Internal Server Error", None, "oops"),
        "Cohere API error 500 Internal Server Error: oops"
    );
    assert_eq!(empty_reply_message(Provider::Cerebras), "Cerebras returned no choices");
    assert_eq!(empty_reply_message(Provider::Cohere), "Cohere returned no text content");
}

#[test]
fn status_decides_refusal() {
    assert_eq!(refusal(Provider::Cohere, true, "200 OK", None, "{}"), None);
    assert_eq!(
        refusal(Provider::Cohere, false, "429 Too Many Requests", Some("slow down".to_string()), "{}"),
        Some("Cohere API error 429 Too Many Requests: slow down".to_string())
    );
}

#[test]
fn reply_without_text_is_an_error() {
    assert_eq!(reply_text(Provider::Cerebras, Some("{}".to_string())), Ok("{}".to_string()));
    assert_eq!(reply_text(Provider::Cohere, None), Err("Cohere returned no text content".to_string()));
}

#[test]
fn unreadable_replies_name_provider_and_body() {
    assert_eq!(parse_failure_message(Provider::Cohere, "<html>"), "Failed to parse Cohere response: <html>");
    assert_eq!(parse_failure_message(Provider::Cerebras, ""), "Failed to parse Cerebras response: ");
}

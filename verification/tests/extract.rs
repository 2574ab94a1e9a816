use giribeat::llm::{extract_json, extract_json_checked};

fn ex(s: &str) -> String {
    extract_json(s.to_string())
}

#[test]
fn plain_object_is_kept() {
    assert_eq!(ex("{\"bpm\": 90}"), "{\"bpm\": 90}");
}

#[test]
fn surrounding_white_space_is_trimmed() {
    assert_eq!(ex("  \n\t{\"a\":1}\n  "), "{\"a\":1}");
}

#[test]
fn json_fence_is_removed() {
    assert_eq!(ex("```json\n{\"bpm\": 120, \"events\": []}\n```"), "{\"bpm\": 120, \"events\": []}");
}

#[test]
fn bare_fence_is_removed() {
    assert_eq!(ex("```\n{\"x\": [1, 2]}\n```"), "{\"x\": [1, 2]}");
}

#[test]
fn prose_around_the_object_is_dropped() {
    assert_eq!(ex("Here is your pattern: {\"bpm\": 100} Enjoy!"), "{\"bpm\": 100}");
}

#[test]
fn nested_braces_are_kept_whole() {
    assert_eq!(ex("x {\"a\": {\"b\": {}}} y"), "{\"a\": {\"b\": {}}}");
}

#[test]
fn text_without_braces_is_trimmed_and_unfenced() {
    assert_eq!(ex("```json\n  hello  \n```"), "hello");
    assert_eq!(ex("   no json here  "), "no json here");
}

#[test]
fn unclosed_fence_is_left_in_place() {
    assert_eq!(ex("```json\nabc"), "```json\nabc");
    assert_eq!(ex("```json\n{\"a\":1}"), "{\"a\":1}");
}

#[test]
fn only_one_brace_keeps_the_text() {
    assert_eq!(ex("  { open only "), "{ open only");
    assert_eq!(ex("close only } "), "close only }");
}

#[test]
fn adjacent_inverted_braces_give_empty_text() {
    assert_eq!(ex("}{"), "");
}

#[test]
fn checked_refuses_inverted_braces() {
    assert_eq!(extract_json_checked("} x {".to_string()), None);
    assert_eq!(extract_json_checked("```json {\"k\": 2} ```".to_string()), Some("{\"k\": 2}".to_string()));
}

#[test]
fn unicode_white_space_is_trimmed() {
    assert_eq!(ex("\u{3000}\u{a0}{}\u{2028}"), "{}");
}

#[test]
fn extraction_is_idempotent_on_objects() {
    let once = ex("Sure!\n```json\n{\"bpm\": 95, \"events\": [{\"t\": 0}]}\n```\nHave fun.");
    assert_eq!(ex(&once), once);
}

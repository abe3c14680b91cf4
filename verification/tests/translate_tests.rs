use codex_server::gateway::{supports_responses_surface, WireKind};
use codex_server::json::{parse_json, json_to_string, Json};
use codex_server::translate::{
    build_responses_request, chat_messages_valid, map_chat_messages_to_responses_input,
    message_text, normalize_chat_request, prepare_responses_body, translate_responses_payload,
    usage_tokens, ChatMessage,
};

fn parse(s: &str) -> Json {
    parse_json(s.as_bytes()).expect("well-formed JSON")
}

#[test]
fn user_message_maps_to_input_text_item() {
    let messages = vec![ChatMessage { role: "user".to_string(), content: parse("\"hi\"") }];
    let input = map_chat_messages_to_responses_input(&messages);
    assert_eq!(
        json_to_string(&input),
        "[{\"role\":\"user\",\"content\":[{\"type\":\"input_text\",\"text\":\"hi\"}]}]"
    );
}

#[test]
fn assistant_message_maps_to_output_text_item() {
    let messages =
        vec![ChatMessage { role: "assistant".to_string(), content: parse("\"sure\"") }];
    let input = map_chat_messages_to_responses_input(&messages);
    assert_eq!(
        json_to_string(&input),
        "[{\"role\":\"assistant\",\"content\":[{\"type\":\"output_text\",\"text\":\"sure\"}]}]"
    );
}

#[test]
fn array_content_concatenates_text_parts_with_newlines() {
    let content = parse(
        "[{\"type\":\"text\",\"text\":\"one\"},{\"type\":\"image\",\"url\":\"x\"},{\"text\":\"two\"}]",
    );
    let t = message_text(&content);
    assert_eq!(t, "one\ntwo");
    let none = message_text(&parse("42"));
    assert_eq!(none, "");
}

#[test]
fn responses_request_carries_fixed_tool_fields() {
    let messages = vec![ChatMessage { role: "user".to_string(), content: parse("\"hello\"") }];
    let input = map_chat_messages_to_responses_input(&messages);
    let req = build_responses_request("gpt-4o-mini", input, true);
    assert_eq!(
        json_to_string(&req),
        "{\"model\":\"gpt-4o-mini\",\"input\":[{\"role\":\"user\",\"content\":[{\"type\":\"input_text\",\"text\":\"hello\"}]}],\"tools\":[],\"tool_choice\":\"auto\",\"parallel_tool_calls\":false,\"stream\":true,\"include\":[]}"
    );
}

#[test]
fn chatgpt_mode_discards_caller_instructions_and_store() {
    let body = parse("{\"model\":\"m\",\"store\":true,\"instructions\":\"mine\"}");
    let out = prepare_responses_body(body, true, "base text", "fallback");
    let s = json_to_string(&out);
    assert!(s.contains("\"store\":false"));
    assert!(s.contains("\"instructions\":\"base text\""));
    assert!(!s.contains("mine"));
    assert!(s.contains("\"model\":\"m\""));
}

#[test]
fn chatgpt_mode_is_idempotent_about_instructions() {
    let a = prepare_responses_body(parse("{\"instructions\":\"x\"}"), true, "base", "fb");
    let b = prepare_responses_body(parse("{\"instructions\":\"y\",\"store\":false}"), true, "base", "fb");
    assert_eq!(json_to_string(&a), json_to_string(&b));
}

#[test]
fn missing_instructions_get_the_fallback() {
    let out = prepare_responses_body(parse("{\"model\":\"m\"}"), false, "base", "fallback text");
    assert!(json_to_string(&out).contains("\"instructions\":\"fallback text\""));
    let kept = prepare_responses_body(
        parse("{\"model\":\"m\",\"instructions\":\"keep\"}"),
        false,
        "base",
        "fallback text",
    );
    // parsing normalizes field order (sorted keys); the content is untouched
    assert_eq!(json_to_string(&kept), "{\"instructions\":\"keep\",\"model\":\"m\"}");
    // a non-string instructions value counts as missing
    let nonstr =
        prepare_responses_body(parse("{\"instructions\":7}"), false, "base", "fallback text");
    assert!(json_to_string(&nonstr).contains("\"instructions\":\"fallback text\""));
}

#[test]
fn content_shape_validation() {
    let good = vec![
        ChatMessage { role: "user".to_string(), content: parse("\"hi\"") },
        ChatMessage { role: "user".to_string(), content: parse("[{\"text\":\"x\"}]") },
    ];
    assert!(chat_messages_valid(&good));
    let bad = vec![ChatMessage { role: "user".to_string(), content: parse("42") }];
    assert!(!chat_messages_valid(&bad));
}

#[test]
fn request_normalization_defaults() {
    let (m, s) = normalize_chat_request(None, None, "cfg-model");
    assert_eq!(m, "cfg-model");
    assert!(!s);
    let (m2, s2) = normalize_chat_request(Some("named".to_string()), Some(true), "cfg-model");
    assert_eq!(m2, "named");
    assert!(s2);
}

#[test]
fn responses_surface_needs_responses_provider() {
    assert!(supports_responses_surface(&WireKind::Responses));
    assert!(!supports_responses_surface(&WireKind::ChatCompletions));
}

#[test]
fn output_text_is_collected_from_message_items() {
    let v = parse(
        "{\"output\":[{\"type\":\"message\",\"content\":[{\"type\":\"output_text\",\"text\":\"Hel\"},{\"type\":\"refusal\",\"text\":\"no\"},{\"type\":\"output_text\",\"text\":\"lo\"}]},{\"type\":\"reasoning\"}]}",
    );
    let cc = translate_responses_payload(&v, "chatcmpl-x", 1700000000, "gpt-4o-mini");
    let s = json_to_string(&cc);
    assert!(s.contains("\"content\":\"Hello\""));
    assert!(s.contains("\"finish_reason\":\"stop\""));
    assert!(s.contains("\"role\":\"assistant\""));
    assert!(s.contains("\"object\":\"chat.completion\""));
}

#[test]
fn output_nested_under_response_is_found() {
    let v = parse(
        "{\"response\":{\"output\":[{\"type\":\"message\",\"content\":[{\"type\":\"output_text\",\"text\":\"ok\"}]}],\"usage\":{\"input_tokens\":3,\"output_tokens\":4}}}",
    );
    let cc = translate_responses_payload(&v, "id", 0, "m");
    let s = json_to_string(&cc);
    assert!(s.contains("\"content\":\"ok\""));
    assert!(s.contains("\"prompt_tokens\":3"));
    assert!(s.contains("\"completion_tokens\":4"));
    assert!(s.contains("\"total_tokens\":7"));
}

#[test]
fn usage_total_defaults_to_prompt_plus_completion() {
    let v = parse("{\"usage\":{\"input_tokens\":11,\"output_tokens\":31}}");
    let (p, c, t) = usage_tokens(&v);
    assert_eq!((p, c, t), (11, 31, 42));
}

#[test]
fn usage_total_is_kept_when_present() {
    let v = parse("{\"usage\":{\"input_tokens\":11,\"output_tokens\":31,\"total_tokens\":50}}");
    let (p, c, t) = usage_tokens(&v);
    assert_eq!((p, c, t), (11, 31, 50));
}

#[test]
fn usage_missing_counts_are_zero() {
    let v = parse("{}");
    let (p, c, t) = usage_tokens(&v);
    assert_eq!((p, c, t), (0, 0, 0));
}

#[test]
fn full_chat_completion_shape() {
    let v = parse(
        "{\"output\":[{\"type\":\"message\",\"content\":[{\"type\":\"output_text\",\"text\":\"Hi\"}]}],\"usage\":{\"input_tokens\":1,\"output_tokens\":2}}",
    );
    let cc = translate_responses_payload(&v, "chatcmpl-7", 1700000001, "m1");
    assert_eq!(
        json_to_string(&cc),
        "{\"choices\":[{\"finish_reason\":\"stop\",\"index\":0,\"message\":{\"content\":\"Hi\",\"role\":\"assistant\"}}],\"created\":1700000001,\"id\":\"chatcmpl-7\",\"model\":\"m1\",\"object\":\"chat.completion\",\"usage\":{\"completion_tokens\":2,\"prompt_tokens\":1,\"total_tokens\":3}}"
    );
}

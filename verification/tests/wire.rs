use prompt_codec::prompt::{Message, Prompt};
use prompt_codec::request_schemas::{
    AnthropicPrompt, GooglePrompt, GoogleTools, OpenAiPrompt, Unit,
};
use serde_json::Value;

fn msg(role: &str, content: &str) -> Message {
    Message { role: role.to_string(), content: content.to_string() }
}

fn prompt(model: Option<&str>, messages: Vec<Message>, temperature: Option<u32>, stream: Option<bool>) -> Prompt {
    Prompt { model: model.map(|m| m.to_string()), messages, temperature, stream }
}

#[test]
fn openai_wire_form_is_exact() {
    let r = OpenAiPrompt::from_prompt(prompt(Some("x"), vec![msg("user", "Hi")], None, None)).unwrap();
    assert_eq!(r.to_json(), "{\"model\":\"x\",\"messages\":[{\"role\":\"user\",\"content\":\"Hi\"}]}");
}

#[test]
fn absent_temperature_leaves_no_key() {
    let r = OpenAiPrompt::from_prompt(prompt(Some("x"), vec![msg("user", "Hi")], None, Some(true))).unwrap();
    let text = r.to_json();
    assert!(!text.contains("temperature"));
    let v: Value = serde_json::from_str(&text).unwrap();
    assert!(v.get("temperature").is_none());
    assert_eq!(v["stream"], Value::Bool(true));
}

#[test]
fn present_temperature_is_a_number_not_null() {
    let r = OpenAiPrompt::from_prompt(prompt(Some("x"), vec![msg("user", "Hi")], Some(700), None)).unwrap();
    let text = r.to_json();
    assert!(text.contains("\"temperature\":0.700"));
    let v: Value = serde_json::from_str(&text).unwrap();
    assert_eq!(v["temperature"].as_f64().unwrap(), 0.7);
    assert!(v.get("stream").is_none());
}

#[test]
fn string_contents_are_escaped() {
    let r = OpenAiPrompt::from_prompt(prompt(
        Some("x"),
        vec![msg("user", "a\"b\\c\nd\te\u{1}f")],
        None,
        None,
    ))
    .unwrap();
    let text = r.to_json();
    assert_eq!(
        text,
        "{\"model\":\"x\",\"messages\":[{\"role\":\"user\",\"content\":\"a\\\"b\\\\c\\nd\\te\\u0001f\"}]}"
    );
    let v: Value = serde_json::from_str(&text).unwrap();
    assert_eq!(v["messages"][0]["content"], Value::String("a\"b\\c\nd\te\u{1}f".to_string()));
}

#[test]
fn anthropic_wire_form_is_exact() {
    let r = AnthropicPrompt::from_prompt(prompt(
        Some("m"),
        vec![msg("system", "Be terse."), msg("user", "Hi"), msg("user", "There")],
        Some(500),
        Some(false),
    ))
    .unwrap();
    assert_eq!(
        r.to_json(),
        "{\"model\":\"m\",\"messages\":[{\"role\":\"user\",\"content\":\"Be terse.\\n\\nHi\\n\\nThere\"}],\"temperature\":0.500,\"max_tokens\":4096,\"stream\":false}"
    );
}

#[test]
fn anthropic_absent_options_leave_no_keys() {
    let r = AnthropicPrompt::from_prompt(prompt(Some("m"), vec![msg("user", "Hi")], None, None)).unwrap();
    let v: Value = serde_json::from_str(&r.to_json()).unwrap();
    assert!(v.get("temperature").is_none());
    assert!(v.get("stream").is_none());
    assert_eq!(v["max_tokens"].as_i64().unwrap(), 4096);
}

#[test]
fn google_wire_form_is_exact() {
    let r = GooglePrompt::from_prompt(prompt(
        None,
        vec![msg("system", "Be terse."), msg("user", "Hi")],
        Some(200),
        None,
    ));
    assert_eq!(
        r.to_json(),
        "{\"contents\":[{\"role\":\"user\",\"parts\":[{\"text\":\"Be terse.\\n\\nHi\"}]}],\"generation_config\":{\"temperature\":0.200,\"response_mime_type\":\"text/plain\"}}"
    );
}

#[test]
fn google_empty_tools_leave_no_key() {
    let r = GooglePrompt::from_prompt(prompt(None, vec![msg("user", "Hi")], None, None));
    let text = r.to_json();
    assert!(!text.contains("tools"));
    let v: Value = serde_json::from_str(&text).unwrap();
    assert!(v.get("tools").is_none());
    assert!(v["generation_config"].get("temperature").is_none());
    assert!(v["generation_config"].get("max_output_tokens").is_none());
    assert_eq!(v["generation_config"]["response_mime_type"], Value::String("text/plain".to_string()));
}

#[test]
fn enabled_tools_are_rendered() {
    let mut r = GooglePrompt::from_prompt(prompt(None, vec![msg("user", "Hi")], None, None));
    r.tools.push(GoogleTools { google_search: Unit });
    let text = r.to_json();
    assert!(text.ends_with(",\"tools\":[{\"google_search\":null}]}"));
    let v: Value = serde_json::from_str(&text).unwrap();
    assert!(v["tools"][0]["google_search"].is_null());
}

#[test]
fn empty_conversation_serializes_to_an_empty_array() {
    let r = OpenAiPrompt::from_prompt(prompt(Some("x"), Vec::new(), None, None)).unwrap();
    let text = r.to_json();
    assert_eq!(text, "{\"model\":\"x\",\"messages\":[]}");
    let v: Value = serde_json::from_str(&text).unwrap();
    assert_eq!(v["messages"].as_array().unwrap().len(), 0);
}

#[test]
fn whole_number_temperature_keeps_three_fraction_digits() {
    let r = OpenAiPrompt::from_prompt(prompt(Some("x"), vec![msg("user", "Hi")], Some(1000), None)).unwrap();
    let text = r.to_json();
    assert!(text.contains("\"temperature\":1.000"));
    let v: Value = serde_json::from_str(&text).unwrap();
    assert_eq!(v["temperature"].as_f64().unwrap(), 1.0);
}

use prompt_codec::prompt::{Message, Prompt};
use prompt_codec::request_schemas::{
    AnthropicPrompt, ConfigError, GooglePrompt, OpenAiPrompt, DEFAULT_MAX_TOKENS,
};

fn msg(role: &str, content: &str) -> Message {
    Message { role: role.to_string(), content: content.to_string() }
}

fn example_prompt() -> Prompt {
    Prompt {
        model: Some("x".to_string()),
        messages: vec![msg("system", "Be terse."), msg("user", "Hi"), msg("user", "There")],
        temperature: None,
        stream: None,
    }
}

#[test]
fn openai_passes_messages_through_unchanged() {
    let r = OpenAiPrompt::from_prompt(example_prompt()).unwrap();
    assert_eq!(r.model, "x");
    assert_eq!(r.messages.len(), 3);
    assert_eq!(r.messages[0].role, "system");
    assert_eq!(r.messages[0].content, "Be terse.");
    assert_eq!(r.messages[2].content, "There");
    assert_eq!(r.temperature, None);
    assert_eq!(r.stream, None);
}

#[test]
fn openai_without_model_is_a_config_error() {
    let mut p = example_prompt();
    p.model = None;
    assert_eq!(OpenAiPrompt::from_prompt(p).unwrap_err(), ConfigError::MissingModel);
}

#[test]
fn anthropic_merges_example_scenario_into_one_message() {
    let r = AnthropicPrompt::from_prompt(example_prompt()).unwrap();
    assert_eq!(r.model, "x");
    assert_eq!(r.messages.len(), 1);
    assert_eq!(r.messages[0].role, "user");
    assert_eq!(r.messages[0].content, "Be terse.\n\nHi\n\nThere");
    assert_eq!(r.max_tokens, DEFAULT_MAX_TOKENS);
    assert_eq!(r.max_tokens, 4096);
}

#[test]
fn anthropic_without_model_is_a_config_error() {
    let mut p = example_prompt();
    p.model = None;
    assert_eq!(AnthropicPrompt::from_prompt(p).unwrap_err(), ConfigError::MissingModel);
}

#[test]
fn anthropic_token_budget_can_be_overridden() {
    let r = AnthropicPrompt::from_prompt_with_max_tokens(example_prompt(), 1000).unwrap();
    assert_eq!(r.max_tokens, 1000);
}

#[test]
fn anthropic_keeps_temperature_and_stream() {
    let mut p = example_prompt();
    p.temperature = Some(700);
    p.stream = Some(true);
    let r = AnthropicPrompt::from_prompt(p).unwrap();
    assert_eq!(r.temperature, Some(700));
    assert_eq!(r.stream, Some(true));
}

#[test]
fn google_merges_example_scenario_into_one_content() {
    let r = GooglePrompt::from_prompt(example_prompt());
    assert_eq!(r.contents.len(), 1);
    assert_eq!(r.contents[0].role, "user");
    assert_eq!(r.contents[0].parts.len(), 1);
    assert_eq!(r.contents[0].parts[0].text, "Be terse.\n\nHi\n\nThere");
    assert_eq!(r.generation_config.temperature, None);
    assert_eq!(r.generation_config.max_output_tokens, None);
    assert_eq!(r.generation_config.response_mime_type, "text/plain");
    assert!(r.tools.is_empty());
}

#[test]
fn google_builds_without_a_model() {
    let mut p = example_prompt();
    p.model = None;
    p.temperature = Some(200);
    let r = GooglePrompt::from_prompt(p);
    assert_eq!(r.contents.len(), 1);
    assert_eq!(r.generation_config.temperature, Some(200));
}

#[test]
fn builders_accept_an_empty_conversation() {
    let empty = Prompt {
        model: Some("x".to_string()),
        messages: Vec::new(),
        temperature: None,
        stream: None,
    };
    let a = OpenAiPrompt::from_prompt(Prompt {
        model: empty.model.clone(),
        messages: Vec::new(),
        temperature: None,
        stream: None,
    })
    .unwrap();
    assert!(a.messages.is_empty());
    let b = AnthropicPrompt::from_prompt(Prompt {
        model: empty.model.clone(),
        messages: Vec::new(),
        temperature: None,
        stream: None,
    })
    .unwrap();
    assert!(b.messages.is_empty());
    let c = GooglePrompt::from_prompt(empty);
    assert!(c.contents.is_empty());
}

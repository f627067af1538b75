use prompt_codec::prompt::Message;
use prompt_codec::response_schemas::{
    AnthropicMessage, AnthropicResponse, ExtractError, GoogleContentParts, GoogleResponse,
    GoogleResponseCandidate, GoogleResponseContent, MessageWrapper, OllamaResponse,
    OpenAiResponse,
};

fn candidate(parts: &[&str]) -> GoogleResponseCandidate {
    GoogleResponseCandidate {
        content: GoogleResponseContent {
            parts: parts.iter().map(|t| GoogleContentParts { text: t.to_string() }).collect(),
        },
    }
}

#[test]
fn openai_extracts_first_choice() {
    let r = OpenAiResponse {
        choices: vec![
            MessageWrapper {
                message: Message {
                    role: "assistant".to_string(),
                    content: "hello world".to_string(),
                },
            },
            MessageWrapper {
                message: Message { role: "assistant".to_string(), content: "other".to_string() },
            },
        ],
    };
    assert_eq!(r.extract_text().unwrap(), "hello world");
}

#[test]
fn openai_empty_choices_is_a_typed_error() {
    let r = OpenAiResponse { choices: Vec::new() };
    assert_eq!(r.extract_text().unwrap_err(), ExtractError::EmptyResponse);
}

#[test]
fn anthropic_extracts_first_block() {
    let r = AnthropicResponse {
        content: vec![
            AnthropicMessage { text: "hello world".to_string(), block_type: "text".to_string() },
            AnthropicMessage { text: "later".to_string(), block_type: "text".to_string() },
        ],
    };
    assert_eq!(r.extract_text().unwrap(), "hello world");
}

#[test]
fn anthropic_empty_content_is_a_typed_error() {
    let r = AnthropicResponse { content: Vec::new() };
    assert_eq!(r.extract_text().unwrap_err(), ExtractError::EmptyResponse);
}

#[test]
fn ollama_unwraps_the_single_message() {
    let r = OllamaResponse {
        message: Message { role: "assistant".to_string(), content: "hello world".to_string() },
    };
    assert_eq!(r.extract_text(), "hello world");
}

#[test]
fn google_flattens_parts_and_candidates_in_order() {
    let r = GoogleResponse { candidates: vec![candidate(&["hello", " ", "wor"]), candidate(&["ld"])] };
    assert_eq!(r.extract_text(), "hello world");
}

#[test]
fn google_zero_candidates_yield_the_empty_string() {
    let r = GoogleResponse { candidates: Vec::new() };
    assert_eq!(r.extract_text(), "");
}

#[test]
fn google_empty_part_lists_yield_the_empty_string() {
    let r = GoogleResponse { candidates: vec![candidate(&[]), candidate(&[])] };
    assert_eq!(r.extract_text(), "");
}

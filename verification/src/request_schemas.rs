//! Per-provider request bodies and the builders that produce them from a
//! [`Prompt`].
//!
//! Each builder is a pure conversion: it fails only when the provider needs
//! a model identifier and the prompt has none, and otherwise copies or
//! merges the conversation into the provider's shape.

use crate::merge::{merge_messages, merged_normalized};
use crate::prompt::{Message, MessageView, Prompt};
use vstd::prelude::*;

verus! {

/// A request cannot be built: the prompt configuration is incomplete.
#[derive(Clone, Copy, Debug, PartialEq, Eq, Structural)]
pub enum ConfigError {
    /// The provider requires a model identifier and the prompt has none.
    MissingModel,
}

/// The token budget written into requests for providers that require one,
/// when the caller does not override it.
pub const DEFAULT_MAX_TOKENS: u32 = 4096;

/// The OpenAI-style request body: `{model, messages, temperature?, stream?}`.
#[derive(Debug)]
pub struct OpenAiPrompt {
    pub model: String,
    pub messages: Vec<Message>,
    pub temperature: Option<u32>,
    pub stream: Option<bool>,
}

/// What the OpenAI-style request built from a prompt must hold: the model,
/// the conversation unchanged, and the optional fields exactly as given.
pub open spec fn openai_request_for(p: OpenAiPrompt, prompt: Prompt) -> bool {
    &&& p.model == prompt.model.unwrap()
    &&& p.messages == prompt.messages
    &&& p.temperature == prompt.temperature
    &&& p.stream == prompt.stream
}

impl OpenAiPrompt {
    /// Builds the OpenAI-style request. The conversation passes through
    /// unchanged; absent options stay absent; a missing model is the only
    /// failure.
    pub fn from_prompt(prompt: Prompt) -> (r: Result<OpenAiPrompt, ConfigError>)
        ensures
            r is Ok <==> prompt.model is Some,
            r is Err ==> r == Err::<OpenAiPrompt, ConfigError>(ConfigError::MissingModel),
            r is Ok ==> openai_request_for(r.unwrap(), prompt),
    {
        match prompt.model {
            None => Err(ConfigError::MissingModel),
            Some(model) => Ok(
                OpenAiPrompt {
                    model,
                    messages: prompt.messages,
                    temperature: prompt.temperature,
                    stream: prompt.stream,
                },
            ),
        }
    }
}

/// The Anthropic-style request body:
/// `{model, messages, temperature?, max_tokens, stream?}`.
#[derive(Debug)]
pub struct AnthropicPrompt {
    pub model: String,
    pub messages: Vec<Message>,
    pub temperature: Option<u32>,
    pub max_tokens: u32,
    pub stream: Option<bool>,
}

/// What the Anthropic-style request built from a prompt must hold: the
/// model, the normalized and merged conversation, the given token budget,
/// and the optional fields exactly as given.
pub open spec fn anthropic_request_for(p: AnthropicPrompt, prompt: Prompt, max_tokens: u32) -> bool {
    &&& p.model == prompt.model.unwrap()
    &&& p.messages.deep_view() == merged_normalized(prompt.messages.deep_view())
    &&& p.temperature == prompt.temperature
    &&& p.max_tokens == max_tokens
    &&& p.stream == prompt.stream
}

impl AnthropicPrompt {
    /// Builds the Anthropic-style request with the default token budget.
    pub fn from_prompt(prompt: Prompt) -> (r: Result<AnthropicPrompt, ConfigError>)
        ensures
            r is Ok <==> prompt.model is Some,
            r is Err ==> r == Err::<AnthropicPrompt, ConfigError>(ConfigError::MissingModel),
            r is Ok ==> anthropic_request_for(r.unwrap(), prompt, DEFAULT_MAX_TOKENS),
    {
        Self::from_prompt_with_max_tokens(prompt, DEFAULT_MAX_TOKENS)
    }

    /// Builds the Anthropic-style request: roles are normalized, adjacent
    /// same-role messages merged, and the given token budget written into
    /// the request. A missing model is the only failure.
    pub fn from_prompt_with_max_tokens(prompt: Prompt, max_tokens: u32) -> (r: Result<
        AnthropicPrompt,
        ConfigError,
    >)
        ensures
            r is Ok <==> prompt.model is Some,
            r is Err ==> r == Err::<AnthropicPrompt, ConfigError>(ConfigError::MissingModel),
            r is Ok ==> anthropic_request_for(r.unwrap(), prompt, max_tokens),
    {
        match prompt.model {
            None => Err(ConfigError::MissingModel),
            Some(model) => {
                let messages = merge_messages(&prompt.messages);
                Ok(
                    AnthropicPrompt {
                        model,
                        messages,
                        temperature: prompt.temperature,
                        max_tokens,
                        stream: prompt.stream,
                    },
                )
            },
        }
    }
}

/// One text part of a Google-style content entry.
#[derive(Debug)]
pub struct GoogleMessagePart {
    pub text: String,
}

impl View for GoogleMessagePart {
    type V = Seq<char>;

    open spec fn view(&self) -> Seq<char> {
        self.text@
    }
}

impl DeepView for GoogleMessagePart {
    type V = Seq<char>;

    open spec fn deep_view(&self) -> Seq<char> {
        self.text@
    }
}

/// One Google-style content entry: a role and its text parts.
#[derive(Debug)]
pub struct GoogleMessage {
    pub role: String,
    pub parts: Vec<GoogleMessagePart>,
}

/// The mathematical value of a [`GoogleMessage`].
#[verifier::ext_equal]
pub ghost struct GoogleMessageView {
    pub role: Seq<char>,
    pub parts: Seq<Seq<char>>,
}

impl View for GoogleMessage {
    type V = GoogleMessageView;

    open spec fn view(&self) -> GoogleMessageView {
        GoogleMessageView { role: self.role@, parts: self.parts.deep_view() }
    }
}

impl DeepView for GoogleMessage {
    type V = GoogleMessageView;

    open spec fn deep_view(&self) -> GoogleMessageView {
        self@
    }
}

/// The generation options of a Google-style request.
#[derive(Debug)]
pub struct GoogleGenerationConfig {
    pub temperature: Option<u32>,
    pub max_output_tokens: Option<u16>,
    pub response_mime_type: String,
}

/// The value of a tool entry that is enabled by its bare presence.
#[derive(Debug)]
pub struct Unit;

/// One tool a Google-style request may enable.
#[derive(Debug)]
pub struct GoogleTools {
    pub google_search: Unit,
}

/// The Google-style request body:
/// `{contents, generation_config, tools?}`.
#[derive(Debug)]
pub struct GooglePrompt {
    pub contents: Vec<GoogleMessage>,
    pub generation_config: GoogleGenerationConfig,
    pub tools: Vec<GoogleTools>,
}

/// A merged conversation in the Google shape: each message keeps its role
/// and carries its content as a single text part.
pub open spec fn google_shape(s: Seq<MessageView>) -> Seq<GoogleMessageView> {
    s.map_values(|m: MessageView| GoogleMessageView { role: m.role, parts: seq![m.content] })
}

/// What the Google-style request built from a prompt must hold: the
/// normalized and merged conversation in the Google shape, the plain-text
/// mime type, no output-token bound and no tools.
pub open spec fn google_request_for(p: GooglePrompt, prompt: Prompt) -> bool {
    &&& p.contents.deep_view() == google_shape(merged_normalized(prompt.messages.deep_view()))
    &&& p.generation_config.temperature == prompt.temperature
    &&& p.generation_config.max_output_tokens is None
    &&& p.generation_config.response_mime_type@ == "text/plain"@
    &&& p.tools@.len() == 0
}

impl GooglePrompt {
    /// Builds the Google-style request: roles are normalized, adjacent
    /// same-role messages merged into the last part's text, the output
    /// mime type fixed to plain text and no tools enabled. The provider
    /// carries the model outside the body, so building never fails.
    pub fn from_prompt(prompt: Prompt) -> (r: GooglePrompt)
        ensures
            google_request_for(r, prompt),
    {
        let merged = merge_messages(&prompt.messages);
        let ghost target: Seq<GoogleMessageView> = google_shape(merged.deep_view());
        let mut contents: Vec<GoogleMessage> = Vec::new();
        let mut i: usize = 0;
        proof {
            assert(contents.deep_view() =~~= target.take(0));
        }
        while i < merged.len()
            invariant
                i <= merged.len(),
                target == google_shape(merged.deep_view()),
                merged.deep_view() == merged_normalized(prompt.messages.deep_view()),
                contents@.len() == i,
                contents.deep_view() == target.take(i as int),
            decreases merged.len() - i,
        {
            let m = &merged[i];
            let part = GoogleMessagePart { text: m.content.clone() };
            let mut parts: Vec<GoogleMessagePart> = Vec::new();
            parts.push(part);
            proof {
                assert(parts.deep_view() =~= seq![merged.deep_view()[i as int].content]);
            }
            let ghost prev: Seq<GoogleMessageView> = contents.deep_view();
            contents.push(GoogleMessage { role: m.role.clone(), parts });
            proof {
                let gm = merged.deep_view()[i as int];
                assert(contents@[i as int].deep_view() =~~= target[i as int]);
                assert forall|j: int| 0 <= j < i implies contents.deep_view()[j] == target[j] by {
                    assert(prev[j] == target[j]);
                    assert(contents.deep_view()[j] == contents@[j].deep_view());
                    assert(contents@[j].deep_view() == prev[j]);
                }
                assert(contents.deep_view() =~~= target.take(i + 1));
            }
            i = i + 1;
        }
        proof {
            assert(target.take(merged.deep_view().len() as int) =~= target);
        }
        GooglePrompt {
            contents,
            generation_config: GoogleGenerationConfig {
                temperature: prompt.temperature,
                max_output_tokens: None,
                response_mime_type: "text/plain".to_owned(),
            },
            tools: Vec::new(),
        }
    }
}

/// No content entry of a built Google-style request carries the role
/// "system": what [`GooglePrompt::from_prompt`] puts into `contents` is the
/// normalized and merged conversation in the Google shape.
pub proof fn lemma_google_contents_no_system(s: Seq<MessageView>)
    ensures
        forall|i: int|
            0 <= i < google_shape(merged_normalized(s)).len() ==> #[trigger] google_shape(
                merged_normalized(s),
            )[i].role != "system"@,
{
    crate::merge::lemma_merged_normalized_no_system(s);
    assert forall|i: int|
        0 <= i < google_shape(merged_normalized(s)).len() implies #[trigger] google_shape(
        merged_normalized(s),
    )[i].role != "system"@ by {
        assert(google_shape(merged_normalized(s))[i].role == merged_normalized(s)[i].role);
    }
}

/// The providers a request can be built for.
#[derive(Clone, Copy, Debug, PartialEq, Eq, Structural)]
pub enum Provider {
    OpenAi,
    Anthropic,
    Google,
}

/// A built request, tagged with the provider it addresses.
#[derive(Debug)]
pub enum ProviderRequest {
    OpenAi(OpenAiPrompt),
    Anthropic(AnthropicPrompt),
    Google(GooglePrompt),
}

/// Builds the request body for the chosen provider. Providers that carry
/// the model inside the body fail on a prompt without one; the Google-style
/// provider carries it outside the body and never fails.
pub fn build_request(provider: Provider, prompt: Prompt) -> (r: Result<
    ProviderRequest,
    ConfigError,
>)
    ensures
        r is Ok <==> (provider is Google || prompt.model is Some),
        r is Err ==> r == Err::<ProviderRequest, ConfigError>(ConfigError::MissingModel),
        r is Ok ==> match r.unwrap() {
            ProviderRequest::OpenAi(p) => provider is OpenAi && openai_request_for(p, prompt),
            ProviderRequest::Anthropic(p) => provider is Anthropic && anthropic_request_for(
                p,
                prompt,
                DEFAULT_MAX_TOKENS,
            ),
            ProviderRequest::Google(p) => provider is Google && google_request_for(p, prompt),
        },
{
    match provider {
        Provider::OpenAi => match OpenAiPrompt::from_prompt(prompt) {
            Ok(p) => Ok(ProviderRequest::OpenAi(p)),
            Err(e) => Err(e),
        },
        Provider::Anthropic => match AnthropicPrompt::from_prompt(prompt) {
            Ok(p) => Ok(ProviderRequest::Anthropic(p)),
            Err(e) => Err(e),
        },
        Provider::Google => Ok(ProviderRequest::Google(GooglePrompt::from_prompt(prompt))),
    }
}

} // verus!

//! Per-provider response bodies and the extractors that reduce each to
//! plain text.
//!
//! The first two providers answer with a list the extractor reads its text
//! from; an empty list is reported as a typed error, never a fault. The
//! flattening extractor concatenates every part of every candidate and
//! degrades to the empty string instead.

use crate::prompt::Message;
use vstd::prelude::*;

verus! {

/// A response carried no extractable text.
#[derive(Clone, Copy, Debug, PartialEq, Eq, Structural)]
pub enum ExtractError {
    /// The list the extractor reads its text from is empty.
    EmptyResponse,
}

/// One choice of an OpenAI-style response.
#[derive(Debug)]
pub struct MessageWrapper {
    pub message: Message,
}

/// An OpenAI-style response: a list of choices.
#[derive(Debug)]
pub struct OpenAiResponse {
    pub choices: Vec<MessageWrapper>,
}

impl OpenAiResponse {
    /// The content of the first choice's message; an empty choice list is
    /// the only failure.
    pub fn extract_text(&self) -> (r: Result<String, ExtractError>)
        ensures
            r is Ok <==> self.choices@.len() > 0,
            r is Ok ==> r.unwrap()@ == self.choices@[0].message.content@,
            r is Err ==> r == Err::<String, ExtractError>(ExtractError::EmptyResponse),
    {
        if self.choices.len() > 0 {
            Ok(self.choices[0].message.content.clone())
        } else {
            Err(ExtractError::EmptyResponse)
        }
    }
}

/// One content block of an Anthropic-style response: its text and the kind
/// tag the wire calls "type".
#[derive(Debug)]
pub struct AnthropicMessage {
    pub text: String,
    pub block_type: String,
}

/// An Anthropic-style response: a list of content blocks.
#[derive(Debug)]
pub struct AnthropicResponse {
    pub content: Vec<AnthropicMessage>,
}

impl AnthropicResponse {
    /// The text of the first content block; an empty block list is the
    /// only failure.
    pub fn extract_text(&self) -> (r: Result<String, ExtractError>)
        ensures
            r is Ok <==> self.content@.len() > 0,
            r is Ok ==> r.unwrap()@ == self.content@[0].text@,
            r is Err ==> r == Err::<String, ExtractError>(ExtractError::EmptyResponse),
    {
        if self.content.len() > 0 {
            Ok(self.content[0].text.clone())
        } else {
            Err(ExtractError::EmptyResponse)
        }
    }
}

/// An Ollama-style response: the answer message itself, with no list
/// indirection.
#[derive(Debug)]
pub struct OllamaResponse {
    pub message: Message,
}

impl OllamaResponse {
    /// The content of the single answer message; never fails.
    pub fn extract_text(&self) -> (r: String)
        ensures
            r@ == self.message.content@,
    {
        self.message.content.clone()
    }
}

/// One text part of a Google-style response candidate.
#[derive(Debug)]
pub struct GoogleContentParts {
    pub text: String,
}

impl View for GoogleContentParts {
    type V = Seq<char>;

    open spec fn view(&self) -> Seq<char> {
        self.text@
    }
}

impl DeepView for GoogleContentParts {
    type V = Seq<char>;

    open spec fn deep_view(&self) -> Seq<char> {
        self.text@
    }
}

/// The content of one Google-style candidate: its text parts.
#[derive(Debug)]
pub struct GoogleResponseContent {
    pub parts: Vec<GoogleContentParts>,
}

impl View for GoogleResponseContent {
    type V = Seq<Seq<char>>;

    open spec fn view(&self) -> Seq<Seq<char>> {
        self.parts.deep_view()
    }
}

impl DeepView for GoogleResponseContent {
    type V = Seq<Seq<char>>;

    open spec fn deep_view(&self) -> Seq<Seq<char>> {
        self.parts.deep_view()
    }
}

/// One candidate of a Google-style response.
#[derive(Debug)]
pub struct GoogleResponseCandidate {
    pub content: GoogleResponseContent,
}

impl View for GoogleResponseCandidate {
    type V = Seq<Seq<char>>;

    open spec fn view(&self) -> Seq<Seq<char>> {
        self.content.deep_view()
    }
}

impl DeepView for GoogleResponseCandidate {
    type V = Seq<Seq<char>>;

    open spec fn deep_view(&self) -> Seq<Seq<char>> {
        self.content.deep_view()
    }
}

/// A Google-style response: a list of candidates.
#[derive(Debug)]
pub struct GoogleResponse {
    pub candidates: Vec<GoogleResponseCandidate>,
}

/// The texts of one candidate's parts, concatenated in order with no
/// separator.
pub open spec fn concat_texts(parts: Seq<Seq<char>>) -> Seq<char>
    decreases parts.len(),
{
    if parts.len() == 0 {
        Seq::empty()
    } else {
        concat_texts(parts.drop_last()) + parts.last()
    }
}

/// The texts of every part of every candidate, flattened left to right
/// into one string with no separator.
pub open spec fn concat_candidate_texts(candidates: Seq<Seq<Seq<char>>>) -> Seq<char>
    decreases candidates.len(),
{
    if candidates.len() == 0 {
        Seq::empty()
    } else {
        concat_candidate_texts(candidates.drop_last()) + concat_texts(candidates.last())
    }
}

/// Concatenating one more part extends the flattened text by that part.
proof fn lemma_concat_texts_push(parts: Seq<Seq<char>>, x: Seq<char>)
    ensures
        concat_texts(parts.push(x)) == concat_texts(parts) + x,
{
    assert(parts.push(x).drop_last() =~= parts);
}

/// Concatenating one more candidate extends the flattened text by that
/// candidate's flattened parts.
proof fn lemma_concat_candidate_texts_push(candidates: Seq<Seq<Seq<char>>>, x: Seq<Seq<char>>)
    ensures
        concat_candidate_texts(candidates.push(x)) == concat_candidate_texts(candidates)
            + concat_texts(x),
{
    assert(candidates.push(x).drop_last() =~= candidates);
}

impl GoogleResponse {
    /// The text of every part of every candidate, flattened left to right
    /// with no separator; zero candidates or parts yield the empty string,
    /// not an error.
    pub fn extract_text(&self) -> (r: String)
        ensures
            r@ == concat_candidate_texts(self.candidates.deep_view()),
            self.candidates@.len() == 0 ==> r@ == Seq::<char>::empty(),
    {
        let ghost cands: Seq<Seq<Seq<char>>> = self.candidates.deep_view();
        let mut out = String::new();
        let mut i: usize = 0;
        while i < self.candidates.len()
            invariant
                i <= self.candidates.len(),
                cands == self.candidates.deep_view(),
                cands.len() == self.candidates@.len(),
                out@ == concat_candidate_texts(cands.take(i as int)),
            decreases self.candidates.len() - i,
        {
            let cand = &self.candidates[i];
            let ghost parts: Seq<Seq<char>> = cand.content.parts.deep_view();
            proof {
                assert(cands[i as int] == parts);
                assert(out@ + concat_texts(parts.take(0)) =~= out@);
            }
            let ghost before: Seq<char> = out@;
            let mut j: usize = 0;
            while j < cand.content.parts.len()
                invariant
                    j <= cand.content.parts.len(),
                    parts == cand.content.parts.deep_view(),
                    parts.len() == cand.content.parts@.len(),
                    out@ == before + concat_texts(parts.take(j as int)),
                decreases cand.content.parts.len() - j,
            {
                out.append(cand.content.parts[j].text.as_str());
                proof {
                    assert(parts.take(j + 1) =~= parts.take(j as int).push(parts[j as int]));
                    lemma_concat_texts_push(parts.take(j as int), parts[j as int]);
                    assert(out@ =~= before + concat_texts(parts.take(j + 1)));
                }
                j = j + 1;
            }
            proof {
                assert(parts.take(parts.len() as int) =~= parts);
                assert(cands.take(i + 1) =~= cands.take(i as int).push(parts));
                lemma_concat_candidate_texts_push(cands.take(i as int), parts);
                assert(out@ =~= concat_candidate_texts(cands.take(i + 1)));
            }
            i = i + 1;
        }
        proof {
            assert(cands.take(cands.len() as int) =~= cands);
        }
        out
    }
}

/// A deserialized response, tagged with the provider it came from.
#[derive(Debug)]
pub enum ProviderResponse {
    OpenAi(OpenAiResponse),
    Anthropic(AnthropicResponse),
    Ollama(OllamaResponse),
    Google(GoogleResponse),
}

impl ProviderResponse {
    /// The extracted text of any provider's response, under one uniform
    /// outcome: an empty choice or block list is a typed error, while the
    /// single-message and the flattening providers always succeed, the
    /// latter with the empty string for an empty candidate list.
    pub fn extract_text(&self) -> (r: Result<String, ExtractError>)
        ensures
            match self {
                ProviderResponse::OpenAi(resp) => {
                    &&& r is Ok <==> resp.choices@.len() > 0
                    &&& r is Ok ==> r.unwrap()@ == resp.choices@[0].message.content@
                    &&& r is Err ==> r == Err::<String, ExtractError>(ExtractError::EmptyResponse)
                },
                ProviderResponse::Anthropic(resp) => {
                    &&& r is Ok <==> resp.content@.len() > 0
                    &&& r is Ok ==> r.unwrap()@ == resp.content@[0].text@
                    &&& r is Err ==> r == Err::<String, ExtractError>(ExtractError::EmptyResponse)
                },
                ProviderResponse::Ollama(resp) => {
                    &&& r is Ok
                    &&& r.unwrap()@ == resp.message.content@
                },
                ProviderResponse::Google(resp) => {
                    &&& r is Ok
                    &&& r.unwrap()@ == concat_candidate_texts(resp.candidates.deep_view())
                },
            },
    {
        match self {
            ProviderResponse::OpenAi(resp) => resp.extract_text(),
            ProviderResponse::Anthropic(resp) => resp.extract_text(),
            ProviderResponse::Ollama(resp) => Ok(resp.extract_text()),
            ProviderResponse::Google(resp) => Ok(resp.extract_text()),
        }
    }
}

} // verus!

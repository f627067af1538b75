//! The provider-independent prompt model: a conversation of role/content
//! messages plus optional generation parameters.

use vstd::prelude::*;

verus! {

/// One turn of a conversation: a role label (conventionally "system",
/// "user" or "assistant") and its text content.
#[derive(Debug)]
pub struct Message {
    pub role: String,
    pub content: String,
}

/// The mathematical value of a [`Message`]: both strings as character
/// sequences.
pub ghost struct MessageView {
    pub role: Seq<char>,
    pub content: Seq<char>,
}

impl View for Message {
    type V = MessageView;

    open spec fn view(&self) -> MessageView {
        MessageView { role: self.role@, content: self.content@ }
    }
}

impl DeepView for Message {
    type V = MessageView;

    open spec fn deep_view(&self) -> MessageView {
        self@
    }
}

/// The provider-independent prompt: the ordered conversation plus optional
/// generation parameters.
///
/// The sampling temperature is carried in thousandths (`700` means 0.7), so
/// that the core never holds a floating-point value and a serializer can
/// render it exactly.
#[derive(Debug)]
pub struct Prompt {
    pub model: Option<String>,
    pub messages: Vec<Message>,
    pub temperature: Option<u32>,
    pub stream: Option<bool>,
}

} // verus!

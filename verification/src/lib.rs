//! Translation between one internal chat-prompt representation and the
//! request/response JSON shapes of several model providers.
//!
//! Request builders normalize roles, merge adjacent same-role messages and
//! produce a serializable request value; response extractors reduce a
//! deserialized provider response to plain text. Every conversion is a pure
//! function with a full contract.

pub mod json;
pub mod merge;
pub mod prompt;
pub mod request_schemas;
pub mod response_schemas;

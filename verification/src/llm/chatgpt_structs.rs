//! The envelope in which the backend takes a prompt and hands back a reply.

use vstd::prelude::*;

verus! {

/// What is sent: the model that is to answer, and the prompt.
#[derive(Clone, Copy, Debug, PartialEq, Eq)]
pub struct ChatGPTRequest<'a> {
    pub model: &'a str,
    pub input: &'a str,
}

/// What comes back on success.
#[derive(Clone, Debug, PartialEq, Eq)]
pub struct ChatGPTResponse {
    pub output: Vec<ChatGPTOutput>,
    pub status: String,
    pub error: Option<String>,
    pub model: String,
    pub usage: ChatGPTUsage,
}

/// One message of the reply.
#[derive(Clone, Debug, PartialEq, Eq)]
pub struct ChatGPTOutput {
    pub content: Vec<ChatGPTContent>,
    pub id: String,
    pub kind: String,
    pub status: String,
    pub role: String,
}

/// One part of a message.
#[derive(Clone, Debug, PartialEq, Eq)]
pub struct ChatGPTContent {
    pub text: String,
    pub kind: String,
}

/// What the exchange cost, in tokens.
#[derive(Clone, Copy, Debug, PartialEq, Eq)]
pub struct ChatGPTUsage {
    pub input_tokens: i32,
    pub output_tokens: i32,
    pub total_tokens: i32,
}

} // verus!

//! The text-generating backend: what is sent to it, and what is made of its
//! reply.

pub mod chatgpt;
pub mod chatgpt_lexical_items;
pub mod chatgpt_structs;

//! The graph of meanings, and what it knows about a word.

pub mod graph;
pub mod panlex_lexical_items;
pub mod resolution;
pub mod rows;
pub mod sqlite;

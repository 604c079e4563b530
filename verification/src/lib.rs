//! Lexical resolution: what is known about a word, as a sequence of typed
//! records, from two backends that are never asked together.
//!
//! - [`query`] checks a query and its language codes before anything else
//!   is done, and holds the two ways to ask.
//! - [`panlex`] finds renderings and synonyms in a graph of meanings: it
//!   walks from the expressions that have the text asked for to their
//!   meanings and on to the expressions of the wanted language variety,
//!   keeps the best quality for each text, and lists the texts in order.
//! - [`llm`] writes the prompt for a text-generating backend, recovers the
//!   JSON object from its reply, and makes records of the object's fields.
//! - [`model`] holds the records, [`error`] the failures, [`text`],
//!   [`order`] and [`util`] what is needed of texts, and [`proxy`] what is settled before
//!   a request is passed on to a dictionary or example service.
//!
//! Contracts speak of views: a string is seen as its `Seq<char>`, a record
//! as the texts it holds.

pub mod error;
pub mod llm;
pub mod model;
pub mod order;
pub mod panlex;
pub mod proxy;
pub mod query;
pub mod text;
pub mod util;

//! What is checked of a query before a backend is asked.

use crate::error::{InputFault, LexError};
use crate::llm::chatgpt_lexical_items::{
    build_prompt, interpret, interpreted, prompt, ChatGPTLexicalResponse,
};
use crate::model::lexical_item_detail::{all_wf, detail_views, LexicalItemDetail};
use crate::panlex::graph::MeaningGraph;
use crate::panlex::panlex_lexical_items::{get, relational_records};
use crate::panlex::resolution::{synonyms_of, translations_of};
use crate::text::{all_white_space, lemma_trimmed_empty, trim, trimmed};
use vstd::prelude::*;
use vstd::string::*;

verus! {

/// The most characters that a trimmed query may have.
pub const MAX_QUERY_LEN: usize = 50;

/// The width of a language code of three letters.
pub const ISO3_WIDTH: usize = 3;

/// The width of a language code of two letters, as older clients send it.
pub const ISO2_WIDTH: usize = 2;

/// What is wrong with a query and its two language codes, if anything: the
/// first of an empty trimmed query, a trimmed query that is too long, and a
/// language code that is not `width` characters wide.
pub open spec fn input_fault(
    query: Seq<char>,
    lang_from: Seq<char>,
    lang_to: Seq<char>,
    width: nat,
) -> Option<InputFault> {
    let q = trimmed(query);
    if q.len() == 0 {
        Some(InputFault::EmptyQuery)
    } else if q.len() > MAX_QUERY_LEN {
        Some(InputFault::QueryTooLong)
    } else if lang_from.len() != width || lang_to.len() != width {
        Some(InputFault::LanguageCode { width: width as usize })
    } else {
        None
    }
}

/// Checks a query and two language codes of the given width.
pub fn validate_with_width(query: &str, lang_from: &str, lang_to: &str, width: usize) -> (r:
    Result<(), LexError>)
    ensures
        match input_fault(query@, lang_from@, lang_to@, width as nat) {
            None => r is Ok,
            Some(f) => r == Err::<(), LexError>(LexError::InvalidInput(f)),
        },
{
    let q = trim(query);
    let n: usize = q.unicode_len();
    if n == 0 {
        return Err(LexError::InvalidInput(InputFault::EmptyQuery));
    } else if MAX_QUERY_LEN < n {
        return Err(LexError::InvalidInput(InputFault::QueryTooLong));
    }
    if lang_from.unicode_len() != width || lang_to.unicode_len() != width {
        return Err(LexError::InvalidInput(InputFault::LanguageCode { width }));
    }
    Ok(())
}

/// Checks a query and two language codes of three letters.
pub fn validate_params(query: &str, lang_from_iso3: &str, lang_to_iso3: &str) -> (r: Result<
    (),
    LexError,
>)
    ensures
        match input_fault(query@, lang_from_iso3@, lang_to_iso3@, ISO3_WIDTH as nat) {
            None => r is Ok,
            Some(f) => r == Err::<(), LexError>(LexError::InvalidInput(f)),
        },
{
    validate_with_width(query, lang_from_iso3, lang_to_iso3, ISO3_WIDTH)
}

/// A query of white space alone, and one that keeps more than
/// [`MAX_QUERY_LEN`] characters when trimmed, is turned down whatever the
/// language codes and their width.
pub proof fn lemma_blank_or_long_query_is_refused(
    query: Seq<char>,
    lang_from: Seq<char>,
    lang_to: Seq<char>,
    width: nat,
)
    requires
        all_white_space(query) || trimmed(query).len() > MAX_QUERY_LEN,
    ensures
        input_fault(query, lang_from, lang_to, width) is Some,
        all_white_space(query) ==> input_fault(query, lang_from, lang_to, width) == Some(
            InputFault::EmptyQuery,
        ),
        !all_white_space(query) ==> input_fault(query, lang_from, lang_to, width) == Some(
            InputFault::QueryTooLong,
        ),
{
    lemma_trimmed_empty(query);
}

/// The two ways to ask about a word. Each checks the query first, and
/// asks nothing of its backend where the check fails.
#[derive(Clone, Copy, Debug, PartialEq, Eq)]
pub struct Query;

impl Query {
    /// What the graph of meanings knows about `query`: its renderings,
    /// then its synonyms.
    pub fn panlex(
        &self,
        graph: &MeaningGraph,
        query: &str,
        lang_from_iso3: &str,
        lang_to_iso3: &str,
    ) -> (r: Result<Vec<LexicalItemDetail>, LexError>)
        ensures
            match input_fault(query@, lang_from_iso3@, lang_to_iso3@, ISO3_WIDTH as nat) {
                Some(f) => r == Err::<Vec<LexicalItemDetail>, LexError>(LexError::InvalidInput(f)),
                None => r matches Ok(items) && detail_views(items@) == relational_records(
                    translations_of(graph@, query@, lang_from_iso3@, lang_to_iso3@),
                    synonyms_of(graph@, query@, lang_from_iso3@),
                ) && all_wf(detail_views(items@)),
            },
    {
        match validate_params(query, lang_from_iso3, lang_to_iso3) {
            Err(e) => Err(e),
            Ok(_) => Ok(get(graph, query, lang_from_iso3, lang_to_iso3)),
        }
    }

    /// The prompt that asks the generative backend about `query`.
    pub fn llm_prompt(&self, query: &str, lang_from_iso3: &str, lang_to_iso3: &str) -> (r: Result<
        String,
        LexError,
    >)
        ensures
            match input_fault(query@, lang_from_iso3@, lang_to_iso3@, ISO3_WIDTH as nat) {
                Some(f) => r == Err::<String, LexError>(LexError::InvalidInput(f)),
                None => r matches Ok(p) && p@ == prompt(query@, lang_from_iso3@, lang_to_iso3@),
            },
    {
        match validate_params(query, lang_from_iso3, lang_to_iso3) {
            Err(e) => Err(e),
            Ok(_) => Ok(build_prompt(query, lang_from_iso3, lang_to_iso3)),
        }
    }

    /// What the generative backend said about `query`. `parsed` is what
    /// the JSON parser made of `payload`: the fields of the reply, or its
    /// complaint.
    pub fn llm(
        &self,
        parsed: Result<ChatGPTLexicalResponse, String>,
        payload: &str,
        query: &str,
        lang_from_iso3: &str,
        lang_to_iso3: &str,
    ) -> (r: Result<Vec<LexicalItemDetail>, LexError>)
        ensures
            match input_fault(query@, lang_from_iso3@, lang_to_iso3@, ISO3_WIDTH as nat) {
                Some(f) => r == Err::<Vec<LexicalItemDetail>, LexError>(LexError::InvalidInput(f)),
                None => (match r {
                    Ok(items) => Ok(detail_views(items@)),
                    Err(e) => Err(e@),
                }) == interpreted(
                    match parsed {
                        Ok(reply) => Ok(reply@),
                        Err(detail) => Err(detail@),
                    },
                    payload@,
                    query@,
                    lang_from_iso3@,
                    lang_to_iso3@,
                ) && (r matches Ok(items) ==> all_wf(detail_views(items@))),
            },
    {
        match validate_params(query, lang_from_iso3, lang_to_iso3) {
            Err(e) => Err(e),
            Ok(_) => interpret(parsed, payload, query, lang_from_iso3, lang_to_iso3),
        }
    }
}

} // verus!

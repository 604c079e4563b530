//! The sentence search of Tatoeba.

use crate::proxy::{refusal, refuse, ProxyError, ProxyErrorView};
use crate::text::{trim, trimmed};
use vstd::prelude::*;
use vstd::string::*;

verus! {

/// Where the search is.
pub const TATOEBA: &'static str = "https://tatoeba.org/en/api_v0/search";

/// The parameter that holds what is searched for.
pub const QUERY: &'static str = "query";

/// What a service failure is reported with.
pub const UPSTREAM_ERROR: &'static str = "Tatoeba upstream error";

/// What is searched for, or why the request is refused: the parameter may
/// not be missing, nor empty when trimmed.
pub open spec fn search_query(query: Option<Seq<char>>) -> Result<Seq<char>, ProxyErrorView> {
    match query {
        Some(q) => if trimmed(q).len() == 0 {
            Err(refusal("query must not be empty"@))
        } else {
            Ok(trimmed(q))
        },
        None => Err(refusal("missing required parameter `query`"@)),
    }
}

/// The trimmed query that is passed on in the place of the one that came.
pub fn tatoeba_query(query: Option<&str>) -> (r: Result<String, ProxyError>)
    ensures
        match r {
            Ok(q) => Ok(q@),
            Err(e) => Err(e@),
        } == search_query(
            match query {
                Some(q) => Some(q@),
                None => None,
            },
        ),
{
    match query {
        Some(q) => {
            let trimmed = trim(q);
            if trimmed.unicode_len() == 0 {
                return Err(refuse("query must not be empty"));
            }
            Ok(String::from_str(trimmed))
        },
        None => Err(refuse("missing required parameter `query`")),
    }
}

} // verus!

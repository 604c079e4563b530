//! The example sentences of the Wortschatz of Leipzig: the sentences of a
//! corpus that hold a term.

use crate::proxy::{refusal, refuse, ProxyError, ProxyErrorView};
use crate::text::{trim, trimmed};
use vstd::prelude::*;
use vstd::string::*;

verus! {

/// Which of the sentences are wanted.
#[derive(Clone, Copy, Debug, PartialEq, Eq)]
pub struct LeipzigQueryParams {
    pub offset: Option<usize>,
    pub limit: Option<usize>,
}

/// Where the sentences of all corpora are.
pub const LEIPZIG: &'static str = "https://api.wortschatz-leipzig.de/ws/sentences/";

/// What stands between the corpus and the term.
pub const SENTENCES: &'static str = "/sentences/";

/// What a service failure is reported with.
pub const UPSTREAM_ERROR: &'static str = "Wortschatz Leipzig upstream error";

/// Where a request for sentences goes, or why it is refused: neither the
/// corpus nor the term may be empty when trimmed.
pub open spec fn leipzig_target(corpus: Seq<char>, term: Seq<char>) -> Result<
    Seq<char>,
    ProxyErrorView,
> {
    if trimmed(corpus).len() == 0 {
        Err(refusal("corpus must not be empty"@))
    } else if trimmed(term).len() == 0 {
        Err(refusal("term must not be empty"@))
    } else {
        Ok(LEIPZIG@ + trimmed(corpus) + SENTENCES@ + trimmed(term))
    }
}

/// The address of the sentences of `corpus` that hold `term`.
pub fn leipzig_url(corpus: &str, term: &str) -> (r: Result<String, ProxyError>)
    ensures
        match r {
            Ok(url) => Ok(url@),
            Err(e) => Err(e@),
        } == leipzig_target(corpus@, term@),
{
    let corpus = trim(corpus);
    let term = trim(term);
    if corpus.unicode_len() == 0 {
        return Err(refuse("corpus must not be empty"));
    }
    if term.unicode_len() == 0 {
        return Err(refuse("term must not be empty"));
    }
    let mut url = String::from_str(LEIPZIG);
    url.append(corpus);
    url.append(SENTENCES);
    url.append(term);
    Ok(url)
}

/// The name under which an offset is passed on.
pub const OFFSET: &'static str = "offset";

/// The name under which a limit is passed on.
pub const LIMIT: &'static str = "limit";

/// The parameters that are passed on: the offset, then the limit, each
/// only where it is given.
pub open spec fn passed_on(params: LeipzigQueryParams) -> Seq<(Seq<char>, usize)> {
    (match params.offset {
        Some(offset) => seq![(OFFSET@, offset)],
        None => seq![],
    }) + (match params.limit {
        Some(limit) => seq![(LIMIT@, limit)],
        None => seq![],
    })
}

/// The names and values of [`passed_on`], in order.
pub open spec fn pair_views(pairs: Seq<(&'static str, usize)>) -> Seq<(Seq<char>, usize)> {
    pairs.map_values(|p: (&'static str, usize)| (p.0@, p.1))
}

/// The parameters that are passed on with a request for sentences.
pub fn query_pairs(params: &LeipzigQueryParams) -> (pairs: Vec<(&'static str, usize)>)
    ensures
        pair_views(pairs@) == passed_on(*params),
{
    let mut pairs: Vec<(&'static str, usize)> = Vec::new();
    if let Some(offset) = params.offset {
        pairs.push((OFFSET, offset));
    }
    if let Some(limit) = params.limit {
        pairs.push((LIMIT, limit));
    }
    assert(pair_views(pairs@) =~= passed_on(*params));
    pairs
}

} // verus!

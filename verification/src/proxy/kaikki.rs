//! The dictionary pages of Kaikki: one file for each word, in a directory
//! named by the word's first two characters.

use crate::proxy::{refusal, refuse, ProxyError};
use crate::text::{str_eq, trim, trimmed};
use vstd::prelude::*;
use vstd::string::*;

verus! {

/// The parameters of a request for a dictionary page.
#[derive(Clone, Debug, PartialEq, Eq)]
pub struct KaikkiQuery {
    pub query: String,
    pub lang_iso3: String,
}

/// Where the service is.
pub const KAIKKI: &'static str = "https://kaikki.org/";

/// What stands between the dictionary and the page.
pub const MEANING: &'static str = "/meaning/";

/// How a page's name ends.
pub const JSONL: &'static str = ".jsonl";

/// What a service failure is reported with.
pub const UPSTREAM_ERROR: &'static str = "Kaikki upstream error";

/// The dictionary of a language, for the four languages that have one.
pub open spec fn subwiktionary(lang: Seq<char>) -> Option<Seq<char>> {
    if lang == "rus"@ {
        Some("ruwiktionary/\u{420}\u{443}\u{441}\u{441}\u{43a}\u{438}\u{439}"@)
    } else if lang == "eng"@ {
        Some("dictionary/English"@)
    } else if lang == "deu"@ {
        Some("dewiktionary/Deutsch"@)
    } else if lang == "fra"@ {
        Some("frwiktionary/Fran\u{e7}ais"@)
    } else {
        None
    }
}

/// The dictionary of a language.
pub fn subwiktionary_of(lang_iso3: &str) -> (r: Option<&'static str>)
    ensures
        match r {
            Some(s) => Some(s@),
            None => None,
        } == subwiktionary(lang_iso3@),
{
    if str_eq(lang_iso3, "rus") {
        Some("ruwiktionary/\u{420}\u{443}\u{441}\u{441}\u{43a}\u{438}\u{439}")
    } else if str_eq(lang_iso3, "eng") {
        Some("dictionary/English")
    } else if str_eq(lang_iso3, "deu") {
        Some("dewiktionary/Deutsch")
    } else if str_eq(lang_iso3, "fra") {
        Some("frwiktionary/Fran\u{e7}ais")
    } else {
        None
    }
}

/// The first character of a word, or a low line for no word.
pub open spec fn first_of(query: Seq<char>) -> char {
    if query.len() > 0 {
        query[0]
    } else {
        '_'
    }
}

/// The second character of a word, or its first where it has one only.
pub open spec fn second_of(query: Seq<char>) -> char {
    if query.len() > 1 {
        query[1]
    } else {
        first_of(query)
    }
}

/// The path of a word's page within its dictionary: the word's first
/// character, its first two, and the word with the ending of the file.
pub open spec fn page_postfix(query: Seq<char>) -> Seq<char> {
    seq![first_of(query), '/', first_of(query), second_of(query), '/'] + query + JSONL@
}

/// The path of a word's page within its dictionary.
pub fn query_page_postfix(query: &str) -> (r: String)
    ensures
        r@ == page_postfix(query@),
{
    let n: usize = query.unicode_len();
    proof {
        reveal_strlit("_");
        reveal_strlit("/");
    }
    let first = if n > 0 {
        query.substring_char(0, 1)
    } else {
        "_"
    };
    let second = if n > 1 {
        query.substring_char(1, 2)
    } else {
        first
    };
    assert(first@ =~= seq![first_of(query@)]);
    assert(second@ =~= seq![second_of(query@)]);
    let mut out = String::from_str(first);
    out.append("/");
    out.append(first);
    out.append(second);
    out.append("/");
    out.append(query);
    out.append(JSONL);
    assert(out@ =~= page_postfix(query@));
    out
}

/// Where a request for a page goes, or why it is refused: a query that is
/// empty when trimmed is, and a language without a dictionary.
pub open spec fn kaikki_target(query: Seq<char>, lang: Seq<char>) -> Result<
    Seq<char>,
    crate::proxy::ProxyErrorView,
> {
    let q = trimmed(query);
    if q.len() == 0 {
        Err(refusal("query must not be empty"@))
    } else {
        match subwiktionary(trimmed(lang)) {
            Some(sub) => Ok(KAIKKI@ + sub + MEANING@ + page_postfix(q)),
            None => Err(refusal("unsupported lang"@)),
        }
    }
}

/// The address of the page that `params` asks for.
pub fn kaikki_url(params: &KaikkiQuery) -> (r: Result<String, ProxyError>)
    ensures
        match r {
            Ok(url) => Ok(url@),
            Err(e) => Err(e@),
        } == kaikki_target(params.query@, params.lang_iso3@),
{
    let query = trim(params.query.as_str());
    if query.unicode_len() == 0 {
        return Err(refuse("query must not be empty"));
    }
    let sub = match subwiktionary_of(trim(params.lang_iso3.as_str())) {
        Some(s) => s,
        None => {
            return Err(refuse("unsupported lang"));
        },
    };
    let mut url = String::from_str(KAIKKI);
    url.append(sub);
    url.append(MEANING);
    url.append(query_page_postfix(query).as_str());
    assert(url@ =~= KAIKKI@ + sub@ + MEANING@ + page_postfix(trimmed(params.query@)));
    Ok(url)
}

} // verus!

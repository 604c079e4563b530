//! The graph of meanings in a relational store: the two statements that
//! ask the store for the rows of a lookup, what is bound to them, and what
//! is made of the store's answer.
//!
//! The store runs the walk itself. What it is asked for is what
//! [`resolve`](crate::panlex::resolution::resolve) finds in a graph held in
//! memory: for each text that shares a meaning with the text asked for, in
//! the wanted variety, the greatest quality, in the order of texts. A
//! quality that the store does not know counts as 0.

use crate::error::{LexError, LexErrorView};
use crate::model::lexical_item_detail::{SetRecordView, Synonyms, WordTranslations};
use crate::panlex::graph::{synonym_lookup, translation_lookup, variety_uid, GraphView};
use crate::panlex::resolution::{
    lemma_resolution_is, resolves, synonyms_of, translations_of, variety_uid_of,
};
use crate::panlex::rows::{record_of, row_views, synonyms, word_translations, RowView, ScoredText};
use crate::text::{trim, trimmed};
use vstd::prelude::*;
use vstd::string::*;

verus! {

/// Asks for the renderings of a text. Bound are the `uid` of the variety of
/// the text, the text, and the `uid` of the wanted variety.
pub const TRANSLATIONS: &'static str = r#"
        WITH src_meanings AS (
          SELECT dnx.mn
          FROM ex
          JOIN lv   ON lv.lv = ex.lv
          JOIN dnx  ON dnx.ex = ex.ex
          WHERE lv.uid = ?1
            AND ex.tt = ?2
        )
        SELECT
          ex_ru.tt               AS txt,
          MAX(COALESCE(d_ru.uq, 0)) AS quality
        FROM src_meanings
        JOIN dnx  AS d_ru  ON d_ru.mn = src_meanings.mn
        JOIN lv   AS lv_ru ON lv_ru.lv = d_ru.lv AND lv_ru.uid = ?3
        JOIN ex   AS ex_ru ON ex_ru.ex = d_ru.ex
        GROUP BY ex_ru.tt
        ORDER BY ex_ru.tt
    "#;

/// Asks for the synonyms of a text. Bound are the `uid` of the variety of
/// the text, and the text.
pub const SYNONYMS: &'static str = r#"
        WITH src_expr AS (
          SELECT ex.ex AS src_ex, dnx.mn
          FROM ex
          JOIN lv   ON lv.lv = ex.lv
          JOIN dnx  ON dnx.ex = ex.ex
          WHERE lv.uid = ?1
            AND ex.tt = ?2
        )
        SELECT
          ex_syn.tt                    AS txt,
          MAX(COALESCE(d_syn.uq, 0))   AS quality
        FROM src_expr
        JOIN dnx  AS d_syn  ON d_syn.mn = src_expr.mn
        JOIN lv   AS lv_syn ON lv_syn.lv = d_syn.lv AND lv_syn.uid = ?1
        JOIN ex   AS ex_syn ON ex_syn.ex = d_syn.ex
        WHERE ex_syn.ex NOT IN (SELECT src_ex FROM src_expr)
          AND ex_syn.tt <> ?2
        GROUP BY ex_syn.tt
        ORDER BY ex_syn.tt
    "#;

/// What is bound to [`TRANSLATIONS`] for a query, in order: the `uid` of
/// the variety of the query, the trimmed query, and the `uid` of the wanted
/// variety.
pub fn translation_binds(query: &str, lang_from_iso3: &str, lang_to_iso3: &str) -> (b: (
    String,
    String,
    String,
))
    ensures
        b.0@ == variety_uid(lang_from_iso3@),
        b.1@ == trimmed(query@),
        b.2@ == variety_uid(lang_to_iso3@),
{
    (
        variety_uid_of(lang_from_iso3),
        String::from_str(trim(query)),
        variety_uid_of(lang_to_iso3),
    )
}

/// What is bound to [`SYNONYMS`] for a query, in order: the `uid` of the
/// variety of the query, and the trimmed query.
pub fn synonym_binds(query: &str, lang_from_iso3: &str) -> (b: (String, String))
    ensures
        b.0@ == variety_uid(lang_from_iso3@),
        b.1@ == trimmed(query@),
{
    (variety_uid_of(lang_from_iso3), String::from_str(trim(query)))
}

/// What a store that runs the lookup itself came to: the rows it found, or
/// the message of its failure.
pub open spec fn store_outcome(
    outcome: Result<Seq<RowView>, Seq<char>>,
    query: Seq<char>,
    lang_from: Seq<char>,
    lang_to: Seq<char>,
) -> Result<Option<SetRecordView>, LexErrorView> {
    match outcome {
        Ok(rows) => Ok(record_of(rows, query, lang_from, lang_to)),
        Err(detail) => Err(LexErrorView::StoreError { message: detail }),
    }
}

/// The record of renderings for what the store came to: a failure of the
/// store is passed on with its message, and rows are made into a record,
/// where there are any.
pub fn translations_from_store(
    outcome: Result<Vec<ScoredText>, String>,
    query: &str,
    lang_from_iso3: &str,
    lang_to_iso3: &str,
) -> (r: Result<Option<WordTranslations>, LexError>)
    ensures
        match r {
            Ok(Some(w)) => Ok(Some(w@)),
            Ok(None) => Ok(None),
            Err(e) => Err(e@),
        } == store_outcome(
            match outcome {
                Ok(rows) => Ok(row_views(rows@)),
                Err(detail) => Err(detail@),
            },
            query@,
            lang_from_iso3@,
            lang_to_iso3@,
        ),
        r matches Ok(Some(w)) ==> w.translations_set.wf(),
{
    match outcome {
        Ok(rows) => Ok(word_translations(&rows, query, lang_from_iso3, lang_to_iso3)),
        Err(detail) => Err(LexError::StoreError { message: detail }),
    }
}

/// The record of synonyms for what the store came to.
pub fn synonyms_from_store(
    outcome: Result<Vec<ScoredText>, String>,
    query: &str,
    lang_from_iso3: &str,
) -> (r: Result<Option<Synonyms>, LexError>)
    ensures
        match r {
            Ok(Some(s)) => Ok(Some(s@)),
            Ok(None) => Ok(None),
            Err(e) => Err(e@),
        } == store_outcome(
            match outcome {
                Ok(rows) => Ok(row_views(rows@)),
                Err(detail) => Err(detail@),
            },
            query@,
            lang_from_iso3@,
            lang_from_iso3@,
        ),
        r matches Ok(Some(s)) ==> s.translations_set.wf(),
{
    match outcome {
        Ok(rows) => Ok(synonyms(&rows, query, lang_from_iso3)),
        Err(detail) => Err(LexError::StoreError { message: detail }),
    }
}

/// A store that hands back the rows that answer the lookup leads to the
/// record that the walk through the graph leads to.
pub proof fn lemma_store_agrees_with_graph(
    g: GraphView,
    rows: Seq<RowView>,
    query: Seq<char>,
    lang_from: Seq<char>,
    lang_to: Seq<char>,
)
    requires
        resolves(g, translation_lookup(trimmed(query), lang_from, lang_to), rows)
            || resolves(g, synonym_lookup(trimmed(query), lang_from), rows),
    ensures
        resolves(g, translation_lookup(trimmed(query), lang_from, lang_to), rows) ==> store_outcome(
            Ok(rows),
            query,
            lang_from,
            lang_to,
        ) == Ok::<Option<SetRecordView>, LexErrorView>(
            translations_of(g, query, lang_from, lang_to),
        ),
        resolves(g, synonym_lookup(trimmed(query), lang_from), rows) ==> store_outcome(
            Ok(rows),
            query,
            lang_from,
            lang_from,
        ) == Ok::<Option<SetRecordView>, LexErrorView>(synonyms_of(g, query, lang_from)),
{
    if resolves(g, translation_lookup(trimmed(query), lang_from, lang_to), rows) {
        lemma_resolution_is(g, translation_lookup(trimmed(query), lang_from, lang_to), rows);
    }
    if resolves(g, synonym_lookup(trimmed(query), lang_from), rows) {
        lemma_resolution_is(g, synonym_lookup(trimmed(query), lang_from), rows);
    }
}

} // verus!

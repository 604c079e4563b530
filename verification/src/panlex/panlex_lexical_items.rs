//! The records that the graph of meanings gives for a word: its renderings
//! first, then its synonyms, each only where there are any.

use crate::model::lexical_item_detail::{
    all_wf, detail_views, LexicalItemDetail, LexicalItemDetailView, SetRecordView, Synonyms,
    WordTranslations,
};
use crate::panlex::graph::{GraphView, MeaningGraph};
use crate::panlex::resolution::{get_synonyms, get_translations, synonyms_of, translations_of};
use vstd::prelude::*;

verus! {

/// The records made of what two lookups gave: the renderings, if any, before
/// the synonyms, if any.
pub open spec fn relational_records(
    translations: Option<SetRecordView>,
    synonyms: Option<SetRecordView>,
) -> Seq<LexicalItemDetailView> {
    (match translations {
        Some(w) => seq![LexicalItemDetailView::WordTranslations(w)],
        None => seq![],
    }) + (match synonyms {
        Some(s) => seq![LexicalItemDetailView::Synonyms(s)],
        None => seq![],
    })
}

/// Puts the results of the two lookups in their order.
pub fn assemble(translations: Option<WordTranslations>, synonyms: Option<Synonyms>) -> (out: Vec<
    LexicalItemDetail,
>)
    ensures
        (translations matches Some(w) ==> w.translations_set.wf()) && (synonyms matches Some(s)
            ==> s.translations_set.wf()) ==> all_wf(detail_views(out@)),
        detail_views(out@) == relational_records(
            match translations {
                Some(w) => Some(w@),
                None => None,
            },
            match synonyms {
                Some(s) => Some(s@),
                None => None,
            },
        ),
{
    let mut out = Vec::<LexicalItemDetail>::new();
    if let Some(wt) = translations {
        out.push(LexicalItemDetail::WordTranslations(wt));
    }
    if let Some(syn) = synonyms {
        out.push(LexicalItemDetail::Synonyms(syn));
    }
    proof {
        assert(detail_views(out@) =~= relational_records(
            match translations {
                Some(w) => Some(w@),
                None => None,
            },
            match synonyms {
                Some(s) => Some(s@),
                None => None,
            },
        ));
    }
    out
}

/// What the graph knows about `query`: its renderings into `lang_to_iso3`,
/// then its synonyms in `lang_from_iso3`.
pub fn get(g: &MeaningGraph, query: &str, lang_from_iso3: &str, lang_to_iso3: &str) -> (out: Vec<
    LexicalItemDetail,
>)
    ensures
        detail_views(out@) == relational_records(
            translations_of(g@, query@, lang_from_iso3@, lang_to_iso3@),
            synonyms_of(g@, query@, lang_from_iso3@),
        ),
        all_wf(detail_views(out@)),
{
    let translations = get_translations(g, query, lang_from_iso3, lang_to_iso3);
    let synonyms = get_synonyms(g, query, lang_from_iso3);
    assemble(translations, synonyms)
}

} // verus!

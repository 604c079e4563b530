//! Resolution: the walk through the graph of meanings that finds, for a text
//! in one language variety, the texts that share a meaning with it in
//! another, each with the best quality of the denotations that lead to it.

use crate::model::lexical_item_detail::{SetRecordView, Synonyms, WordTranslations};
use crate::panlex::graph::{
    synonym_lookup, translation_lookup, variety_uid, GraphView, Lookup, MeaningGraph,
};
use crate::panlex::rows::{
    clamped, covers, lemma_rendering_set_wf, lemma_takes_in_keeps_cover, lemma_with_pair, merge,
    record_of, row_views, sorted_by_text, synonyms, takes_in, with_pair, word_translations,
    RowView, ScoredText,
};
use crate::order::{lemma_text_before_asymmetric, lemma_text_before_irreflexive, text_before};
use crate::text::{str_eq, trim, trimmed};
use vstd::prelude::*;
use vstd::string::*;

verus! {

/// `rows` is what the graph answers to a lookup: the rows stand in the order
/// of their texts, each text once; each row has the text and the quality of
/// a candidate; and each candidate's text has a row, whose quality is no
/// smaller than the candidate's. So a row holds the greatest quality among
/// the candidates of its text.
pub open spec fn resolves(g: GraphView, l: Lookup, rows: Seq<RowView>) -> bool {
    &&& sorted_by_text(rows)
    &&& forall|r: int|
        0 <= r < rows.len() ==> g.offers((#[trigger] rows[r]).text, rows[r].quality, l)
    &&& forall|j: int, k: int| #[trigger]
        g.is_candidate(j, k, l) ==> covers(rows, g.expressions[k].text, g.denotations[j].quality)
}

/// The rows that the graph answers to a lookup: there is such a sequence
/// ([`lemma_resolution_exists`]) and no second one
/// ([`lemma_resolution_unique`]); [`resolve`] finds it.
pub open spec fn resolution(g: GraphView, l: Lookup) -> Seq<RowView> {
    choose|rows: Seq<RowView>| resolves(g, l, rows)
}

/// The record of renderings that the graph has for `query`.
pub open spec fn translations_of(
    g: GraphView,
    query: Seq<char>,
    lang_from: Seq<char>,
    lang_to: Seq<char>,
) -> Option<SetRecordView> {
    record_of(
        resolution(g, translation_lookup(trimmed(query), lang_from, lang_to)),
        query,
        lang_from,
        lang_to,
    )
}

/// The record of synonyms that the graph has for `query`.
pub open spec fn synonyms_of(g: GraphView, query: Seq<char>, lang: Seq<char>) -> Option<
    SetRecordView,
> {
    record_of(resolution(g, synonym_lookup(trimmed(query), lang)), query, lang, lang)
}

/// What the walk has done when it stands before expression `k` of
/// denotation `j`: the rows are sorted, each is offered by the graph, and
/// they cover the candidates of the denotations before `j` and, with `j`,
/// of the expressions before `k`.
spec fn walked(g: GraphView, l: Lookup, rows: Seq<RowView>, j: int, k: int) -> bool {
    &&& sorted_by_text(rows)
    &&& forall|r: int|
        0 <= r < rows.len() ==> g.offers((#[trigger] rows[r]).text, rows[r].quality, l)
    &&& forall|a: int, b: int|
        (a < j || (a == j && b < k)) && #[trigger] g.is_candidate(a, b, l) ==> covers(
            rows,
            g.expressions[b].text,
            g.denotations[a].quality,
        )
}

/// Taking in the candidate at which the walk stands moves it on by one
/// expression.
proof fn lemma_walk_takes(
    g: GraphView,
    l: Lookup,
    before: Seq<RowView>,
    after: Seq<RowView>,
    j: int,
    k: int,
)
    requires
        walked(g, l, before, j, k),
        g.is_candidate(j, k, l),
        sorted_by_text(after),
        takes_in(
            before,
            after,
            (RowView { text: g.expressions[k].text, quality: g.denotations[j].quality }),
        ),
    ensures
        walked(g, l, after, j, k + 1),
{
    let pair = RowView { text: g.expressions[k].text, quality: g.denotations[j].quality };
    assert(g.offers(pair.text, pair.quality, l)) by {
        reveal(GraphView::offers);
    }
    assert forall|r: int| 0 <= r < after.len() implies g.offers(
        (#[trigger] after[r]).text,
        after[r].quality,
        l,
    ) by {
        if after[r] != pair {
            let r0 = choose|r0: int| 0 <= r0 < before.len() && before[r0] == after[r];
            assert(g.offers(before[r0].text, before[r0].quality, l));
        }
    }
    assert forall|a: int, b: int|
        (a < j || (a == j && b < k + 1)) && #[trigger] g.is_candidate(a, b, l) implies covers(
        after,
        g.expressions[b].text,
        g.denotations[a].quality,
    ) by {
        if a == j && b == k {
        } else {
            lemma_takes_in_keeps_cover(
                before,
                after,
                pair,
                g.expressions[b].text,
                g.denotations[a].quality,
            );
        }
    }
}

/// The rows of the walk when it stands before expression `k` of denotation
/// `j`.
spec fn walk(g: GraphView, l: Lookup, j: nat, k: nat) -> Seq<RowView>
    decreases j, k,
{
    if k > 0 {
        let before = walk(g, l, j, (k - 1) as nat);
        if g.is_candidate(j as int, k - 1, l) {
            with_pair(
                before,
                RowView {
                    text: g.expressions[k - 1].text,
                    quality: g.denotations[j as int].quality,
                },
            )
        } else {
            before
        }
    } else if j > 0 {
        walk(g, l, (j - 1) as nat, g.expressions.len())
    } else {
        Seq::empty()
    }
}

/// The rows of the walk are what [`walked`] says.
proof fn lemma_walk(g: GraphView, l: Lookup, j: nat, k: nat)
    requires
        k <= g.expressions.len(),
    ensures
        walked(g, l, walk(g, l, j, k), j as int, k as int),
    decreases j, k,
{
    let rows = walk(g, l, j, k);
    if k > 0 {
        lemma_walk(g, l, j, (k - 1) as nat);
        let before = walk(g, l, j, (k - 1) as nat);
        if g.is_candidate(j as int, k - 1, l) {
            let pair = RowView {
                text: g.expressions[k - 1].text,
                quality: g.denotations[j as int].quality,
            };
            lemma_with_pair(before, pair);
            lemma_walk_takes(g, l, before, rows, j as int, k - 1);
        } else {
            assert forall|a: int, b: int|
                (a < j || (a == j && b < k)) && #[trigger] g.is_candidate(a, b, l) implies covers(
                rows,
                g.expressions[b].text,
                g.denotations[a].quality,
            ) by {}
        }
    } else if j > 0 {
        lemma_walk(g, l, (j - 1) as nat, g.expressions.len());
        assert forall|a: int, b: int|
            (a < j || (a == j && b < 0)) && #[trigger] g.is_candidate(a, b, l) implies covers(
            rows,
            g.expressions[b].text,
            g.denotations[a].quality,
        ) by {}
    }
}

/// Every lookup has an answer in every graph: the rows that [`resolution`]
/// names are it.
pub proof fn lemma_resolution_exists(g: GraphView, l: Lookup)
    ensures
        resolves(g, l, resolution(g, l)),
{
    lemma_walk(g, l, g.denotations.len(), 0);
    let rows = walk(g, l, g.denotations.len(), 0);
    assert forall|a: int, b: int| #[trigger] g.is_candidate(a, b, l) implies covers(
        rows,
        g.expressions[b].text,
        g.denotations[a].quality,
    ) by {}
    assert(resolves(g, l, rows));
}

/// In two answers to one lookup, a text stands at the same place.
proof fn lemma_same_text_at(
    g: GraphView,
    l: Lookup,
    r1: Seq<RowView>,
    r2: Seq<RowView>,
    i: int,
)
    requires
        resolves(g, l, r1),
        resolves(g, l, r2),
        0 <= i < r1.len(),
    ensures
        i < r2.len(),
        r1[i].text == r2[i].text,
    decreases i,
{
    let b = lemma_has_row(g, l, r1, r2, i);
    if b < i {
        lemma_same_text_at(g, l, r2, r1, b);
        assert(text_before(r1[b].text, r1[i].text));
        lemma_text_before_asymmetric(r1[b].text, r1[i].text);
    } else if b > i {
        let a = lemma_has_row(g, l, r2, r1, i);
        if a < i {
            lemma_same_text_at(g, l, r1, r2, a);
            assert(text_before(r2[a].text, r2[i].text));
            lemma_text_before_asymmetric(r2[a].text, r2[i].text);
        } else if a == i {
            assert(text_before(r2[i].text, r2[b].text));
            lemma_text_before_asymmetric(r2[i].text, r2[b].text);
        } else {
            assert(text_before(r1[i].text, r1[a].text));
            assert(text_before(r2[i].text, r2[b].text));
            lemma_text_before_asymmetric(r1[i].text, r1[a].text);
        }
    }
}

/// The text of a row of one answer has a row in every other answer to the
/// same lookup, with a quality that is no smaller.
proof fn lemma_has_row(g: GraphView, l: Lookup, r1: Seq<RowView>, r2: Seq<RowView>, i: int) -> (b:
    int)
    requires
        resolves(g, l, r1),
        resolves(g, l, r2),
        0 <= i < r1.len(),
    ensures
        0 <= b < r2.len(),
        r2[b].text == r1[i].text,
        r1[i].quality <= r2[b].quality,
{
    assert(g.offers(r1[i].text, r1[i].quality, l));
    assert(exists|j: int, k: int|
        #[trigger] g.is_candidate(j, k, l) && g.expressions[k].text == r1[i].text
            && g.denotations[j].quality == r1[i].quality) by {
        reveal(GraphView::offers);
    }
    let (j, k) = choose|j: int, k: int|
        #[trigger] g.is_candidate(j, k, l) && g.expressions[k].text == r1[i].text
            && g.denotations[j].quality == r1[i].quality;
    assert(covers(r2, r1[i].text, r1[i].quality));
    assert(exists|b: int|
        0 <= b < r2.len() && (#[trigger] r2[b]).text == r1[i].text && r1[i].quality
            <= r2[b].quality) by {
        reveal(covers);
    }
    choose|b: int|
        0 <= b < r2.len() && (#[trigger] r2[b]).text == r1[i].text && r1[i].quality
            <= r2[b].quality
}

/// A lookup has one answer: the same graph and the same lookup give the same
/// rows, in the same order, whenever they are asked.
pub proof fn lemma_resolution_unique(g: GraphView, l: Lookup, r1: Seq<RowView>, r2: Seq<RowView>)
    requires
        resolves(g, l, r1),
        resolves(g, l, r2),
    ensures
        r1 == r2,
{
    if r1.len() > 0 {
        lemma_same_text_at(g, l, r1, r2, r1.len() - 1);
    }
    if r2.len() > 0 {
        lemma_same_text_at(g, l, r2, r1, r2.len() - 1);
    }
    assert forall|i: int| 0 <= i < r1.len() implies r1[i] == r2[i] by {
        lemma_same_text_at(g, l, r1, r2, i);
        let b = lemma_has_row(g, l, r1, r2, i);
        if b < i {
            assert(text_before(r2[b].text, r2[i].text));
            lemma_text_before_asymmetric(r2[b].text, r2[i].text);
        } else if b > i {
            assert(text_before(r2[i].text, r2[b].text));
            lemma_text_before_asymmetric(r2[i].text, r2[b].text);
        }
        let a = lemma_has_row(g, l, r2, r1, i);
        if a < i {
            assert(text_before(r1[a].text, r1[i].text));
            lemma_text_before_asymmetric(r1[a].text, r1[i].text);
        } else if a > i {
            assert(text_before(r1[i].text, r1[a].text));
            lemma_text_before_asymmetric(r1[i].text, r1[a].text);
        }
    }
    assert(r1 =~= r2);
}

/// Rows that answer a lookup are the rows that [`resolution`] names.
pub proof fn lemma_resolution_is(g: GraphView, l: Lookup, rows: Seq<RowView>)
    requires
        resolves(g, l, rows),
    ensures
        resolution(g, l) == rows,
        resolves(g, l, resolution(g, l)),
{
    lemma_resolution_unique(g, l, rows, resolution(g, l));
}

/// The graph answers with no row exactly when it has no candidate.
pub proof fn lemma_no_rows_iff_no_candidate(g: GraphView, l: Lookup, rows: Seq<RowView>)
    requires
        resolves(g, l, rows),
    ensures
        rows.len() == 0 <==> g.offers_nothing(l),
{
    if rows.len() == 0 {
        assert forall|j: int, k: int| !#[trigger] g.is_candidate(j, k, l) by {
            if g.is_candidate(j, k, l) {
                assert(covers(rows, g.expressions[k].text, g.denotations[j].quality));
                reveal(covers);
            }
        }
    } else {
        assert(g.offers(rows[0].text, rows[0].quality, l));
        reveal(GraphView::offers);
    }
}

/// A row holds the greatest quality among the candidates of its text, not a
/// sum nor a mean: some candidate of that text has the row's quality, and
/// none has a greater one. Clamping keeps that order.
pub proof fn lemma_row_holds_best_quality(
    g: GraphView,
    l: Lookup,
    rows: Seq<RowView>,
    r: int,
    j: int,
    k: int,
)
    requires
        resolves(g, l, rows),
        0 <= r < rows.len(),
        g.is_candidate(j, k, l),
        g.expressions[k].text == rows[r].text,
    ensures
        g.offers(rows[r].text, rows[r].quality, l),
        g.denotations[j].quality <= rows[r].quality,
        clamped(g.denotations[j].quality) <= clamped(rows[r].quality),
{
    assert(covers(rows, g.expressions[k].text, g.denotations[j].quality));
    assert(exists|b: int|
        0 <= b < rows.len() && (#[trigger] rows[b]).text == rows[r].text
            && g.denotations[j].quality <= rows[b].quality) by {
        reveal(covers);
    }
    let b = choose|b: int|
        0 <= b < rows.len() && (#[trigger] rows[b]).text == rows[r].text
            && g.denotations[j].quality <= rows[b].quality;
    if b < r {
        assert(text_before(rows[b].text, rows[r].text));
        lemma_text_before_asymmetric(rows[b].text, rows[r].text);
    } else if b > r {
        assert(text_before(rows[r].text, rows[b].text));
        lemma_text_before_asymmetric(rows[r].text, rows[b].text);
    }
}

/// Where the expressions asked about are left out, as they are for
/// synonyms, no row has the text asked for, and each row comes from an
/// expression whose id is none of theirs.
pub proof fn lemma_source_is_left_out(g: GraphView, l: Lookup, rows: Seq<RowView>, r: int)
    requires
        resolves(g, l, rows),
        l.leave_out_source,
        0 <= r < rows.len(),
    ensures
        rows[r].text != l.text,
        exists|j: int, k: int|
            #[trigger] g.is_candidate(j, k, l) && g.expressions[k].text == rows[r].text
                && g.denotations[j].quality == rows[r].quality && !g.is_source_id(
                g.expressions[k].id,
                l,
            ),
{
    assert(g.offers(rows[r].text, rows[r].quality, l));
    reveal(GraphView::offers);
    let (j, k) = choose|j: int, k: int|
        #[trigger] g.is_candidate(j, k, l) && g.expressions[k].text == rows[r].text
            && g.denotations[j].quality == rows[r].quality;
    assert(g.admitted(k, l));
}

/// The rows stand in the order of their texts whatever their qualities: of
/// two rows the one with the text that comes first stands first.
pub proof fn lemma_rows_in_text_order(g: GraphView, l: Lookup, rows: Seq<RowView>, a: int, b: int)
    requires
        resolves(g, l, rows),
        0 <= a < rows.len(),
        0 <= b < rows.len(),
    ensures
        a < b <==> text_before(rows[a].text, rows[b].text),
        a == b <==> rows[a].text == rows[b].text,
{
    if a < b {
        assert(text_before(rows[a].text, rows[b].text));
        lemma_text_before_asymmetric(rows[a].text, rows[b].text);
    } else if b < a {
        assert(text_before(rows[b].text, rows[a].text));
        lemma_text_before_asymmetric(rows[b].text, rows[a].text);
    } else {
        lemma_text_before_irreflexive(rows[a].text);
    }
}

/// Whatever the store holds, a record that is made for a lookup has a
/// quality beside each rendering, and each quality lies between 0 and 9.
pub proof fn lemma_records_are_well_formed(
    g: GraphView,
    query: Seq<char>,
    lang_from: Seq<char>,
    lang_to: Seq<char>,
)
    ensures
        translations_of(g, query, lang_from, lang_to) matches Some(record)
            ==> record.translations_set.wf() && record.translations_set.translations_qualities
            is Some,
        synonyms_of(g, query, lang_from) matches Some(record) ==> record.translations_set.wf()
            && record.translations_set.translations_qualities is Some,
{
    lemma_rendering_set_wf(
        resolution(g, translation_lookup(trimmed(query), lang_from, lang_to)),
        query,
        lang_from,
        lang_to,
    );
    lemma_rendering_set_wf(
        resolution(g, synonym_lookup(trimmed(query), lang_from)),
        query,
        lang_from,
        lang_from,
    );
}

/// No synonym of a word is the word itself: no sentence of the record of
/// synonyms has the trimmed query as its text.
pub proof fn lemma_synonyms_never_name_the_query(g: GraphView, query: Seq<char>, lang: Seq<char>)
    ensures
        synonyms_of(g, query, lang) matches Some(record) ==> forall|i: int|
            0 <= i < record.translations_set.translations.len()
                ==> (#[trigger] record.translations_set.translations[i]).text != trimmed(query),
{
    let l = synonym_lookup(trimmed(query), lang);
    let rows = resolution(g, l);
    lemma_resolution_exists(g, l);
    if rows.len() > 0 {
        let record = synonyms_of(g, query, lang)->0;
        assert forall|i: int| 0 <= i < record.translations_set.translations.len() implies (
        #[trigger] record.translations_set.translations[i]).text != trimmed(query) by {
            lemma_source_is_left_out(g, l, rows, i);
        }
    }
}

/// A lookup that finds no candidate gives no record, which is no failure,
/// and no other lookup does: there is a record exactly when the graph has a
/// candidate.
pub proof fn lemma_no_record_iff_no_candidate(
    g: GraphView,
    query: Seq<char>,
    lang_from: Seq<char>,
    lang_to: Seq<char>,
)
    ensures
        translations_of(g, query, lang_from, lang_to) is None <==> g.offers_nothing(
            translation_lookup(trimmed(query), lang_from, lang_to),
        ),
        synonyms_of(g, query, lang_from) is None <==> g.offers_nothing(
            synonym_lookup(trimmed(query), lang_from),
        ),
{
    let l = translation_lookup(trimmed(query), lang_from, lang_to);
    lemma_resolution_exists(g, l);
    lemma_no_rows_iff_no_candidate(g, l, resolution(g, l));
    let s = synonym_lookup(trimmed(query), lang_from);
    lemma_resolution_exists(g, s);
    lemma_no_rows_iff_no_candidate(g, s, resolution(g, s));
}

/// Whether `items` holds `x`.
fn holds(items: &Vec<i64>, x: i64) -> (r: bool)
    ensures
        r == items@.contains(x),
{
    let mut i: usize = 0;
    while i < items.len()
        invariant
            i <= items.len(),
            forall|p: int| 0 <= p < i ==> items@[p] != x,
        decreases items.len() - i,
    {
        if items[i] == x {
            return true;
        }
        i += 1;
    }
    false
}

/// Whether the registry lists a variety with this id under this `uid`.
fn variety_named(g: &MeaningGraph, variety: i64, uid: &str) -> (r: bool)
    ensures
        r == g@.variety_named(variety as int, uid@),
{
    let mut v: usize = 0;
    while v < g.varieties.len()
        invariant
            v <= g.varieties.len(),
            forall|p: int|
                0 <= p < v ==> !((#[trigger] g@.varieties[p]).id == variety
                    && g@.varieties[p].uid == uid@),
        decreases g.varieties.len() - v,
    {
        if g.varieties[v].id == variety && str_eq(g.varieties[v].uid.as_str(), uid) {
            assert(g@.varieties[v as int].id == variety && g@.varieties[v as int].uid == uid@);
            return true;
        }
        v += 1;
    }
    false
}

/// The ids of the expressions asked about.
fn source_ids(g: &MeaningGraph, text: &str, uid_from: &str, Ghost(l): Ghost<Lookup>) -> (ids: Vec<
    i64,
>)
    requires
        l.text == text@,
        l.uid_from == uid_from@,
    ensures
        forall|id: i64| #[trigger] ids@.contains(id) <==> g@.is_source_id(id as int, l),
{
    let mut ids: Vec<i64> = Vec::new();
    let mut k: usize = 0;
    while k < g.expressions.len()
        invariant
            k <= g.expressions.len(),
            l.text == text@,
            l.uid_from == uid_from@,
            forall|p: int| 0 <= p < ids.len() ==> g@.is_source_id(#[trigger] ids@[p] as int, l),
            forall|q: int|
                0 <= q < k && #[trigger] g@.is_source(q, l) ==> ids@.contains(
                    g.expressions@[q].id,
                ),
        decreases g.expressions.len() - k,
    {
        let e = &g.expressions[k];
        if str_eq(e.text.as_str(), text) && variety_named(g, e.variety, uid_from) {
            let ghost before = ids@;
            ids.push(e.id);
            proof {
                assert(g@.is_source(k as int, l));
                assert(ids@[ids.len() - 1] == e.id);
                assert forall|q: int| 0 <= q < k + 1 && #[trigger] g@.is_source(q, l) implies ids@.contains(
                    g.expressions@[q].id,
                ) by {
                    if q < k {
                        let p = choose|p: int|
                            0 <= p < before.len() && before[p] == g.expressions@[q].id;
                        assert(ids@[p] == before[p]);
                    }
                }
                assert forall|p: int| 0 <= p < ids.len() implies g@.is_source_id(
                    #[trigger] ids@[p] as int,
                    l,
                ) by {
                    if p < before.len() {
                        assert(ids@[p] == before[p]);
                    }
                }
            }
        }
        k += 1;
    }
    proof {
        assert forall|id: i64| g@.is_source_id(id as int, l) implies #[trigger] ids@.contains(
            id,
        ) by {
            let q = choose|q: int| #[trigger] g@.is_source(q, l) && g@.expressions[q].id == id;
            assert(g.expressions@[q].id == id);
        }
    }
    ids
}

/// The meanings of the expressions asked about.
fn source_meanings(g: &MeaningGraph, ids: &Vec<i64>, Ghost(l): Ghost<Lookup>) -> (meanings: Vec<
    i64,
>)
    requires
        forall|id: i64| #[trigger] ids@.contains(id) <==> g@.is_source_id(id as int, l),
    ensures
        forall|m: i64| #[trigger] meanings@.contains(m) <==> g@.is_source_meaning(m as int, l),
{
    let mut meanings: Vec<i64> = Vec::new();
    let mut i: usize = 0;
    while i < g.denotations.len()
        invariant
            i <= g.denotations.len(),
            forall|id: i64| #[trigger] ids@.contains(id) <==> g@.is_source_id(id as int, l),
            forall|p: int|
                0 <= p < meanings.len() ==> g@.is_source_meaning(#[trigger] meanings@[p] as int, l),
            forall|q: int, m: int|
                0 <= q < i && #[trigger] g@.denotes_source(q, m, l) ==> meanings@.contains(
                    g.denotations@[q].meaning,
                ),
        decreases g.denotations.len() - i,
    {
        let d = &g.denotations[i];
        if holds(ids, d.expression) {
            let ghost before = meanings@;
            meanings.push(d.meaning);
            proof {
                assert(g@.denotes_source(i as int, d.meaning as int, l));
                assert(meanings@[meanings.len() - 1] == d.meaning);
                assert forall|q: int, m: int|
                    0 <= q < i + 1 && #[trigger] g@.denotes_source(
                        q,
                        m,
                        l,
                    ) implies meanings@.contains(g.denotations@[q].meaning) by {
                    if q < i {
                        let p = choose|p: int|
                            0 <= p < before.len() && before[p] == g.denotations@[q].meaning;
                        assert(meanings@[p] == before[p]);
                    }
                }
                assert forall|p: int| 0 <= p < meanings.len() implies g@.is_source_meaning(
                    #[trigger] meanings@[p] as int,
                    l,
                ) by {
                    if p < before.len() {
                        assert(meanings@[p] == before[p]);
                    }
                }
            }
        } else {
            proof {
                assert forall|q: int, m: int|
                    0 <= q < i + 1 && #[trigger] g@.denotes_source(
                        q,
                        m,
                        l,
                    ) implies meanings@.contains(g.denotations@[q].meaning) by {
                    if q == i {
                        assert(ids@.contains(d.expression));
                    }
                }
            }
        }
        i += 1;
    }
    proof {
        assert forall|m: i64| g@.is_source_meaning(m as int, l) implies #[trigger] meanings@.contains(
            m,
        ) by {
            let q = choose|q: int| #[trigger] g@.denotes_source(q, m as int, l);
            assert(g.denotations@[q].meaning == m);
        }
    }
    meanings
}

/// The rows for the candidates that denotation `j` gives, taken into rows
/// that hold those of the denotations before it.
fn take_expressions(
    g: &MeaningGraph,
    j: usize,
    text: &str,
    ids: &Vec<i64>,
    leave_out_source: bool,
    rows: &mut Vec<ScoredText>,
    Ghost(l): Ghost<Lookup>,
)
    requires
        l.text == text@,
        l.leave_out_source == leave_out_source,
        forall|id: i64| #[trigger] ids@.contains(id) <==> g@.is_source_id(id as int, l),
        g@.leads_to_target(j as int, l),
        walked(g@, l, row_views(old(rows)@), j as int, 0),
    ensures
        walked(g@, l, row_views(final(rows)@), j as int + 1, 0),
{
    let d = &g.denotations[j];
    let mut k: usize = 0;
    while k < g.expressions.len()
        invariant
            k <= g.expressions.len(),
            j < g.denotations.len(),
            *d == g.denotations@[j as int],
            l.text == text@,
            l.leave_out_source == leave_out_source,
            forall|id: i64| #[trigger] ids@.contains(id) <==> g@.is_source_id(id as int, l),
            g@.leads_to_target(j as int, l),
            walked(g@, l, row_views(rows@), j as int, k as int),
        decreases g.expressions.len() - k,
    {
        let e = &g.expressions[k];
        let ghost before = row_views(rows@);
        if e.id == d.expression && (!leave_out_source || (!holds(ids, e.id) && !str_eq(
            e.text.as_str(),
            text,
        ))) {
            merge(rows, e.text.as_str(), d.quality);
            proof {
                assert(g@.expressions[k as int] == e@);
                assert(g@.denotations[j as int] == d@);
                assert(g@.admitted(k as int, l));
                assert(g@.is_candidate(j as int, k as int, l));
                lemma_walk_takes(g@, l, before, row_views(rows@), j as int, k as int);
            }
        } else {
            proof {
                assert(g@.expressions[k as int] == e@);
                assert(g@.denotations[j as int] == d@);
                if leave_out_source && e.id == d.expression {
                    assert(ids@.contains(e.id) <==> g@.is_source_id(e.id as int, l));
                }
                assert(!g@.is_candidate(j as int, k as int, l));
            }
        }
        k += 1;
    }
    proof {
        let rows1 = row_views(rows@);
        assert forall|a: int, b: int|
            (a < j + 1 || (a == j + 1 && b < 0)) && #[trigger] g@.is_candidate(
                a,
                b,
                l,
            ) implies covers(rows1, g@.expressions[b].text, g@.denotations[a].quality) by {}
    }
}

/// The rows that the graph answers to a lookup: for the text `text` of the
/// variety `uid_from`, the texts that share a meaning with it in the variety
/// `uid_to`, in the order of texts, each with the greatest quality of the
/// denotations that lead to it. With `leave_out_source`, the expressions
/// asked about, and every expression with their text, are left out.
pub fn resolve(g: &MeaningGraph, text: &str, uid_from: &str, uid_to: &str, leave_out_source: bool)
    -> (rows: Vec<ScoredText>)
    ensures
        resolves(
            g@,
            (Lookup { text: text@, uid_from: uid_from@, uid_to: uid_to@, leave_out_source }),
            row_views(rows@),
        ),
        row_views(rows@) == resolution(
            g@,
            (Lookup { text: text@, uid_from: uid_from@, uid_to: uid_to@, leave_out_source }),
        ),
{
    let ghost l = Lookup { text: text@, uid_from: uid_from@, uid_to: uid_to@, leave_out_source };
    let ids = source_ids(g, text, uid_from, Ghost(l));
    let meanings = source_meanings(g, &ids, Ghost(l));
    let mut rows: Vec<ScoredText> = Vec::new();
    let mut j: usize = 0;
    while j < g.denotations.len()
        invariant
            j <= g.denotations.len(),
            l == (Lookup { text: text@, uid_from: uid_from@, uid_to: uid_to@, leave_out_source }),
            forall|id: i64| #[trigger] ids@.contains(id) <==> g@.is_source_id(id as int, l),
            forall|m: i64| #[trigger] meanings@.contains(m) <==> g@.is_source_meaning(m as int, l),
            walked(g@, l, row_views(rows@), j as int, 0),
        decreases g.denotations.len() - j,
    {
        let d = &g.denotations[j];
        if holds(&meanings, d.meaning) && variety_named(g, d.variety, uid_to) {
            proof {
                assert(g@.denotations[j as int] == d@);
                assert(meanings@.contains(d.meaning) <==> g@.is_source_meaning(
                    d.meaning as int,
                    l,
                ));
            }
            take_expressions(g, j, text, &ids, leave_out_source, &mut rows, Ghost(l));
        } else {
            proof {
                assert(g@.denotations[j as int] == d@);
                assert(meanings@.contains(d.meaning) <==> g@.is_source_meaning(
                    d.meaning as int,
                    l,
                ));
                assert(!g@.leads_to_target(j as int, l));
                let rows0 = row_views(rows@);
                assert forall|a: int, b: int|
                    (a < j + 1 || (a == j + 1 && b < 0)) && #[trigger] g@.is_candidate(
                        a,
                        b,
                        l,
                    ) implies covers(rows0, g@.expressions[b].text, g@.denotations[a].quality) by {}
            }
        }
        j += 1;
    }
    proof {
        let all = row_views(rows@);
        assert forall|a: int, b: int| #[trigger] g@.is_candidate(a, b, l) implies covers(
            all,
            g@.expressions[b].text,
            g@.denotations[a].quality,
        ) by {}
        lemma_resolution_is(g@, l, all);
    }
    rows
}

/// The `uid` of the first variety of a language: its code, a hyphen, and
/// three zeros.
pub fn variety_uid_of(lang: &str) -> (uid: String)
    ensures
        uid@ == variety_uid(lang@),
{
    String::from_str(lang).concat("-000")
}

/// The renderings of `query` from one language into another that the graph
/// knows: a record, or none where it knows of none.
pub fn get_translations(
    g: &MeaningGraph,
    query: &str,
    lang_from_iso3: &str,
    lang_to_iso3: &str,
) -> (r: Option<WordTranslations>)
    ensures
        match r {
            Some(w) => Some(w@),
            None => None,
        } == translations_of(g@, query@, lang_from_iso3@, lang_to_iso3@),
        r matches Some(w) ==> w.translations_set.wf(),
        resolves(
            g@,
            translation_lookup(trimmed(query@), lang_from_iso3@, lang_to_iso3@),
            resolution(g@, translation_lookup(trimmed(query@), lang_from_iso3@, lang_to_iso3@)),
        ),
{
    let uid_from = variety_uid_of(lang_from_iso3);
    let uid_to = variety_uid_of(lang_to_iso3);
    let rows = resolve(g, trim(query), uid_from.as_str(), uid_to.as_str(), false);
    word_translations(&rows, query, lang_from_iso3, lang_to_iso3)
}

/// The other words of the language of `query` that share a meaning with it:
/// a record, or none where the graph knows of none.
pub fn get_synonyms(g: &MeaningGraph, query: &str, lang_from_iso3: &str) -> (r: Option<Synonyms>)
    ensures
        match r {
            Some(s) => Some(s@),
            None => None,
        } == synonyms_of(g@, query@, lang_from_iso3@),
        r matches Some(s) ==> s.translations_set.wf(),
        resolves(
            g@,
            synonym_lookup(trimmed(query@), lang_from_iso3@),
            resolution(g@, synonym_lookup(trimmed(query@), lang_from_iso3@)),
        ),
{
    let uid_from = variety_uid_of(lang_from_iso3);
    let rows = resolve(g, trim(query), uid_from.as_str(), uid_from.as_str(), true);
    synonyms(&rows, query, lang_from_iso3)
}

} // verus!

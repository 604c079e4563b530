//! Rows of a resolution: one text with the best quality found for it, kept
//! in the order of texts; and the records that are made of them.

use crate::model::lexical_item_detail::{SetRecordView, Synonyms, WordTranslations};
use crate::model::sentence::{sentence_views, Sentence, SentenceView};
use crate::model::translations_set::{TranslationsSet, TranslationsSetView};
use crate::order::{
    lemma_text_before_asymmetric, lemma_text_before_irreflexive, lemma_text_before_total,
    lemma_text_before_transitive, text_before, text_order, TextOrder,
};
use crate::text::{trim, trimmed};
use vstd::prelude::*;
use vstd::string::*;

verus! {

/// A text and the quality that goes with it.
#[derive(Clone, Debug, PartialEq, Eq)]
pub struct ScoredText {
    pub text: String,
    pub quality: i64,
}

/// What a [`ScoredText`] says.
pub struct RowView {
    pub text: Seq<char>,
    pub quality: int,
}

impl View for ScoredText {
    type V = RowView;

    open spec fn view(&self) -> RowView {
        RowView { text: self.text@, quality: self.quality as int }
    }
}

/// The views of a sequence of rows, in order.
pub open spec fn row_views(s: Seq<ScoredText>) -> Seq<RowView> {
    s.map_values(|r: ScoredText| r@)
}

/// The rows stand in the order of their texts, each text once.
pub open spec fn sorted_by_text(rows: Seq<RowView>) -> bool {
    forall|a: int, b: int|
        #![trigger rows[a], rows[b]]
        0 <= a < b < rows.len() ==> text_before(rows[a].text, rows[b].text)
}

/// Some row has this text, with a quality that is no smaller.
#[verifier::opaque]
pub open spec fn covers(rows: Seq<RowView>, text: Seq<char>, quality: int) -> bool {
    exists|r: int|
        0 <= r < rows.len() && (#[trigger] rows[r]).text == text && quality <= rows[r].quality
}

/// `after` is `before` with one more pair taken in: each of its rows is the
/// pair or a row of `before`, the pair is covered, and so is all that was.
pub open spec fn takes_in(before: Seq<RowView>, after: Seq<RowView>, pair: RowView) -> bool {
    &&& forall|r: int|
        0 <= r < after.len() ==> #[trigger] after[r] == pair || before.contains(after[r])
    &&& covers(after, pair.text, pair.quality)
    &&& forall|r: int|
        0 <= r < before.len() ==> covers(
            after,
            (#[trigger] before[r]).text,
            before[r].quality,
        )
}

/// What was covered before a pair was taken in is covered after.
pub proof fn lemma_takes_in_keeps_cover(
    before: Seq<RowView>,
    after: Seq<RowView>,
    pair: RowView,
    text: Seq<char>,
    quality: int,
)
    requires
        takes_in(before, after, pair),
        covers(before, text, quality),
    ensures
        covers(after, text, quality),
{
    reveal(covers);
    let r = choose|r: int|
        0 <= r < before.len() && (#[trigger] before[r]).text == text && quality
            <= before[r].quality;
    assert(covers(after, before[r].text, before[r].quality));
}

/// A row whose text is known may have its quality raised.
proof fn lemma_raise(before: Seq<RowView>, i: int, pair: RowView)
    requires
        sorted_by_text(before),
        0 <= i < before.len(),
        before[i].text == pair.text,
        before[i].quality <= pair.quality,
    ensures
        sorted_by_text(before.update(i, pair)),
        takes_in(before, before.update(i, pair), pair),
{
    reveal(covers);
    let after = before.update(i, pair);
    assert(after[i] == pair);
    assert forall|r: int| 0 <= r < after.len() implies #[trigger] after[r] == pair
        || before.contains(after[r]) by {
        if r != i {
            assert(after[r] == before[r]);
        }
    }
    assert forall|r: int| 0 <= r < before.len() implies covers(
        after,
        (#[trigger] before[r]).text,
        before[r].quality,
    ) by {
        assert(after[r].text == before[r].text);
    }
    assert forall|a: int, b: int|
        #![trigger after[a], after[b]]
        0 <= a < b < after.len() implies text_before(after[a].text, after[b].text) by {
        assert(after[a].text == before[a].text);
        assert(after[b].text == before[b].text);
    }
}

/// A row whose text is known, with a quality that is no smaller, stays.
proof fn lemma_keep(before: Seq<RowView>, i: int, pair: RowView)
    requires
        0 <= i < before.len(),
        before[i].text == pair.text,
        pair.quality <= before[i].quality,
    ensures
        takes_in(before, before, pair),
{
    reveal(covers);
    assert forall|r: int| 0 <= r < before.len() implies covers(
        before,
        (#[trigger] before[r]).text,
        before[r].quality,
    ) by {}
}

/// A new text gets its row where the order of texts puts it.
proof fn lemma_insert(before: Seq<RowView>, i: int, pair: RowView)
    requires
        sorted_by_text(before),
        0 <= i <= before.len(),
        forall|r: int| 0 <= r < i ==> text_before((#[trigger] before[r]).text, pair.text),
        i < before.len() ==> text_before(pair.text, before[i].text),
    ensures
        sorted_by_text(before.insert(i, pair)),
        takes_in(before, before.insert(i, pair), pair),
{
    reveal(covers);
    let after = before.insert(i, pair);
    assert(after[i] == pair);
    assert forall|r: int| 0 <= r < after.len() implies #[trigger] after[r] == pair
        || before.contains(after[r]) by {
        if r < i {
            assert(after[r] == before[r]);
        } else if r > i {
            assert(after[r] == before[r - 1]);
        }
    }
    assert forall|r: int| 0 <= r < before.len() implies covers(
        after,
        (#[trigger] before[r]).text,
        before[r].quality,
    ) by {
        if r < i {
            assert(after[r] == before[r]);
        } else {
            assert(after[r + 1] == before[r]);
        }
    }
    assert forall|a: int, b: int|
        #![trigger after[a], after[b]]
        0 <= a < b < after.len() implies text_before(after[a].text, after[b].text) by {
        if b < i {
            assert(after[a] == before[a] && after[b] == before[b]);
        } else if b == i {
            assert(after[a] == before[a]);
        } else if a == i {
            assert(after[b] == before[b - 1]);
            if b - 1 > i {
                assert(text_before(before[i].text, before[b - 1].text));
                lemma_text_before_transitive(pair.text, before[i].text, before[b - 1].text);
            }
        } else if a < i {
            assert(after[a] == before[a] && after[b] == before[b - 1]);
        } else {
            assert(after[a] == before[a - 1] && after[b] == before[b - 1]);
        }
    }
}

/// The number of rows, from the first on, whose texts come before `text`.
pub open spec fn rank(rows: Seq<RowView>, text: Seq<char>) -> nat
    decreases rows.len(),
{
    if rows.len() > 0 && text_before(rows.first().text, text) {
        1 + rank(rows.drop_first(), text)
    } else {
        0
    }
}

/// The rows with one more pair taken in: a new text gets a row at its
/// place, a known text keeps the greater of its quality and the pair's.
pub open spec fn with_pair(rows: Seq<RowView>, pair: RowView) -> Seq<RowView> {
    let i = rank(rows, pair.text) as int;
    if i < rows.len() && rows[i].text == pair.text {
        if rows[i].quality < pair.quality {
            rows.update(i, pair)
        } else {
            rows
        }
    } else {
        rows.insert(i, pair)
    }
}

/// The rows before the rank of a text come before it, the row at its rank
/// does not.
proof fn lemma_rank(rows: Seq<RowView>, text: Seq<char>)
    ensures
        rank(rows, text) <= rows.len(),
        forall|k: int|
            0 <= k < rank(rows, text) ==> text_before((#[trigger] rows[k]).text, text),
        rank(rows, text) < rows.len() ==> !text_before(rows[rank(rows, text) as int].text, text),
    decreases rows.len(),
{
    if rows.len() > 0 && text_before(rows.first().text, text) {
        let rest = rows.drop_first();
        lemma_rank(rest, text);
        assert forall|k: int| 0 <= k < rank(rows, text) implies text_before(
            (#[trigger] rows[k]).text,
            text,
        ) by {
            if k > 0 {
                assert(rows[k] == rest[k - 1]);
            }
        }
        if rank(rows, text) < rows.len() {
            assert(rows[rank(rows, text) as int] == rest[rank(rest, text) as int]);
        }
    }
}

/// Rows that are sorted by text stay so when a pair is taken in, and take
/// it in as [`takes_in`] says.
pub proof fn lemma_with_pair(rows: Seq<RowView>, pair: RowView)
    requires
        sorted_by_text(rows),
    ensures
        sorted_by_text(with_pair(rows, pair)),
        takes_in(rows, with_pair(rows, pair), pair),
{
    lemma_rank(rows, pair.text);
    let i = rank(rows, pair.text) as int;
    if i < rows.len() && rows[i].text == pair.text {
        if rows[i].quality < pair.quality {
            lemma_raise(rows, i, pair);
        } else {
            lemma_keep(rows, i, pair);
        }
    } else {
        if i < rows.len() {
            lemma_text_before_total(rows[i].text, pair.text);
        }
        lemma_insert(rows, i, pair);
    }
}

/// The place of a text among sorted rows is its rank.
proof fn lemma_place_is_rank(rows: Seq<RowView>, text: Seq<char>, i: int)
    requires
        0 <= i <= rows.len(),
        forall|k: int| 0 <= k < i ==> text_before((#[trigger] rows[k]).text, text),
        i < rows.len() ==> !text_before(rows[i].text, text),
    ensures
        rank(rows, text) == i,
    decreases rows.len(),
{
    if i > 0 {
        assert(text_before(rows[0].text, text));
        let rest = rows.drop_first();
        assert forall|k: int| 0 <= k < i - 1 implies text_before(
            (#[trigger] rest[k]).text,
            text,
        ) by {
            assert(rest[k] == rows[k + 1]);
        }
        if i - 1 < rest.len() {
            assert(rest[i - 1] == rows[i]);
        }
        lemma_place_is_rank(rest, text, i - 1);
    }
}

/// Where `text` stands among rows that are sorted by text: the number of
/// rows whose text comes before it, and whether the row there has the text.
fn place_of(rows: &Vec<ScoredText>, text: &str) -> (r: (usize, bool))
    ensures
        r.0 <= rows.len(),
        forall|k: int| 0 <= k < r.0 ==> text_before((#[trigger] row_views(rows@)[k]).text, text@),
        r.1 ==> r.0 < rows.len() && row_views(rows@)[r.0 as int].text == text@,
        !r.1 && r.0 < rows.len() ==> text_before(text@, row_views(rows@)[r.0 as int].text),
        r.0 < rows.len() ==> !text_before(row_views(rows@)[r.0 as int].text, text@),
        !r.1 && r.0 < rows.len() ==> row_views(rows@)[r.0 as int].text != text@,
{
    let mut i: usize = 0;
    while i < rows.len()
        invariant
            i <= rows.len(),
            forall|k: int| 0 <= k < i ==> text_before((#[trigger] row_views(rows@)[k]).text, text@),
        decreases rows.len() - i,
    {
        match text_order(rows[i].text.as_str(), text) {
            TextOrder::Before => {
                i += 1;
            },
            TextOrder::Same => {
                proof {
                    lemma_text_before_irreflexive(text@);
                }
                return (i, true);
            },
            TextOrder::After => {
                proof {
                    lemma_text_before_asymmetric(text@, rows[i as int].text@);
                }
                return (i, false);
            },
        }
    }
    (i, false)
}

/// Takes the pair of `text` and `quality` into rows that are sorted by text:
/// a new text gets a row at its place, a known text keeps the greater of its
/// quality and `quality`.
pub fn merge(rows: &mut Vec<ScoredText>, text: &str, quality: i64)
    requires
        sorted_by_text(row_views(old(rows)@)),
    ensures
        row_views(final(rows)@) == with_pair(
            row_views(old(rows)@),
            (RowView { text: text@, quality: quality as int }),
        ),
        sorted_by_text(row_views(final(rows)@)),
        takes_in(
            row_views(old(rows)@),
            row_views(final(rows)@),
            (RowView { text: text@, quality: quality as int }),
        ),
{
    let ghost before = row_views(rows@);
    let ghost pair = RowView { text: text@, quality: quality as int };
    let (i, found) = place_of(rows, text);
    proof {
        lemma_place_is_rank(before, text@, i as int);
    }
    if found {
        if rows[i].quality < quality {
            rows.set(i, ScoredText { text: String::from_str(text), quality });
            proof {
                assert(row_views(rows@) =~= before.update(i as int, pair));
                lemma_raise(before, i as int, pair);
            }
        } else {
            proof {
                lemma_keep(before, i as int, pair);
            }
        }
    } else {
        rows.insert(i, ScoredText { text: String::from_str(text), quality });
        proof {
            assert(row_views(rows@) =~= before.insert(i as int, pair));
            lemma_insert(before, i as int, pair);
        }
    }
}

/// The least quality that is passed on.
pub const MIN_QUALITY: i8 = 0;

/// The greatest quality that is passed on.
pub const MAX_QUALITY: i8 = 9;

/// `q` brought into the range from [`MIN_QUALITY`] to [`MAX_QUALITY`].
pub open spec fn clamped(q: int) -> int {
    if q < MIN_QUALITY {
        MIN_QUALITY as int
    } else if q > MAX_QUALITY {
        MAX_QUALITY as int
    } else {
        q
    }
}

/// The quality that is passed on for a quality found in the store.
pub fn clamp_quality(q: i64) -> (r: i8)
    ensures
        r == clamped(q as int),
        MIN_QUALITY <= r <= MAX_QUALITY,
{
    if q < 0 {
        MIN_QUALITY
    } else if q > 9 {
        MAX_QUALITY
    } else {
        q as i8
    }
}

/// The name under which the graph of meanings is given as a source.
pub open spec fn panlex() -> Seq<char> {
    "panlex"@
}

/// The sentence that stands for a row: its text, in the language of the
/// answers.
pub open spec fn rendering(row: RowView, lang: Seq<char>) -> SentenceView {
    SentenceView { text: row.text, lang_iso3: lang, source: panlex() }
}

/// The set of renderings made of the rows: the trimmed query in its
/// language, then a sentence and a clamped quality for each row, in order.
pub open spec fn rendering_set(
    rows: Seq<RowView>,
    query: Seq<char>,
    lang_from: Seq<char>,
    lang_to: Seq<char>,
) -> TranslationsSetView {
    TranslationsSetView {
        original: SentenceView { text: trimmed(query), lang_iso3: lang_from, source: panlex() },
        translations: Seq::new(rows.len(), |i: int| rendering(rows[i], lang_to)),
        translations_qualities: Some(Seq::new(rows.len(), |i: int| clamped(rows[i].quality) as i8)),
    }
}

/// The record made of the rows: none where there is no row.
pub open spec fn record_of(
    rows: Seq<RowView>,
    query: Seq<char>,
    lang_from: Seq<char>,
    lang_to: Seq<char>,
) -> Option<SetRecordView> {
    if rows.len() == 0 {
        None
    } else {
        Some(
            SetRecordView {
                translations_set: rendering_set(rows, query, lang_from, lang_to),
                source: panlex(),
            },
        )
    }
}

/// The qualities of a record made of rows stand one beside each rendering,
/// and each lies between 0 and 9.
pub proof fn lemma_rendering_set_wf(
    rows: Seq<RowView>,
    query: Seq<char>,
    lang_from: Seq<char>,
    lang_to: Seq<char>,
)
    ensures
        rendering_set(rows, query, lang_from, lang_to).wf(),
        rendering_set(rows, query, lang_from, lang_to).translations.len() == rows.len(),
        forall|i: int|
            0 <= i < rows.len() ==> 0 <= (#[trigger] rendering_set(
                rows,
                query,
                lang_from,
                lang_to,
            ).translations_qualities->0[i]) <= 9,
{
}

/// Builds the set of renderings of the rows.
fn rendering_set_of(rows: &Vec<ScoredText>, query: &str, lang_from: &str, lang_to: &str) -> (r:
    TranslationsSet)
    ensures
        r@ == rendering_set(row_views(rows@), query@, lang_from@, lang_to@),
{
    let ghost all = row_views(rows@);
    let source = "panlex";
    let mut translations: Vec<Sentence> = Vec::new();
    let mut qualities: Vec<i8> = Vec::new();
    let mut i: usize = 0;
    while i < rows.len()
        invariant
            i <= rows.len(),
            all == row_views(rows@),
            source@ == panlex(),
            sentence_views(translations@) == Seq::new(
                i as nat,
                |x: int| rendering(all[x], lang_to@),
            ),
            qualities@ == Seq::new(i as nat, |x: int| clamped(all[x].quality) as i8),
        decreases rows.len() - i,
    {
        let ghost t0 = sentence_views(translations@);
        let ghost q0 = qualities@;
        let s = Sentence::new(rows[i].text.as_str(), lang_to, source);
        translations.push(s);
        qualities.push(clamp_quality(rows[i].quality));
        proof {
            assert(sentence_views(translations@) =~= t0.push(rendering(all[i as int], lang_to@)));
            assert(sentence_views(translations@) =~= Seq::new(
                (i + 1) as nat,
                |x: int| rendering(all[x], lang_to@),
            ));
            assert(qualities@ =~= Seq::new(
                (i + 1) as nat,
                |x: int| clamped(all[x].quality) as i8,
            ));
        }
        i += 1;
    }
    TranslationsSet {
        original: Sentence::new(trim(query), lang_from, source),
        translations,
        translations_qualities: Some(qualities),
    }
}

/// The record of renderings for the rows that a lookup of `query` gave:
/// none for no rows.
pub fn word_translations(
    rows: &Vec<ScoredText>,
    query: &str,
    lang_from_iso3: &str,
    lang_to_iso3: &str,
) -> (r: Option<WordTranslations>)
    ensures
        match r {
            Some(w) => Some(w@),
            None => None,
        } == record_of(row_views(rows@), query@, lang_from_iso3@, lang_to_iso3@),
        r matches Some(w) ==> w.translations_set.wf(),
{
    if rows.len() == 0 {
        return None;
    }
    proof {
        lemma_rendering_set_wf(row_views(rows@), query@, lang_from_iso3@, lang_to_iso3@);
    }
    let translations_set = rendering_set_of(rows, query, lang_from_iso3, lang_to_iso3);
    Some(WordTranslations { translations_set, source: String::from_str("panlex") })
}

/// The record of synonyms for the rows that a lookup of `query` gave: none
/// for no rows.
pub fn synonyms(rows: &Vec<ScoredText>, query: &str, lang_from_iso3: &str) -> (r: Option<Synonyms>)
    ensures
        match r {
            Some(s) => Some(s@),
            None => None,
        } == record_of(row_views(rows@), query@, lang_from_iso3@, lang_from_iso3@),
        r matches Some(s) ==> s.translations_set.wf(),
{
    if rows.len() == 0 {
        return None;
    }
    proof {
        lemma_rendering_set_wf(row_views(rows@), query@, lang_from_iso3@, lang_from_iso3@);
    }
    let translations_set = rendering_set_of(rows, query, lang_from_iso3, lang_from_iso3);
    Some(Synonyms { translations_set, source: String::from_str("panlex") })
}

} // verus!

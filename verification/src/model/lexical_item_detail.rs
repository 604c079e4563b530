use crate::model::translations_set::{TranslationsSet, TranslationsSetView};
use vstd::prelude::*;

verus! {

/// The inflected forms of a word, as free text.
#[derive(Clone, Debug, PartialEq, Eq)]
pub struct Forms {
    pub text: String,
    pub source: String,
}

/// The renderings of a word in another language.
#[derive(Clone, Debug, PartialEq, Eq)]
pub struct WordTranslations {
    pub translations_set: TranslationsSet,
    pub source: String,
}

/// Words of the same language that share a meaning with a word.
#[derive(Clone, Debug, PartialEq, Eq)]
pub struct Synonyms {
    pub translations_set: TranslationsSet,
    pub source: String,
}

/// A short explanation of a word.
#[derive(Clone, Debug, PartialEq, Eq)]
pub struct Explanation {
    pub text: String,
    pub source: String,
}

/// An example sentence with its one rendering.
#[derive(Clone, Debug, PartialEq, Eq)]
pub struct Example {
    pub translations_set: TranslationsSet,
    pub source: String,
}

/// One record of what is known about a word.
#[derive(Clone, Debug, PartialEq, Eq)]
pub enum LexicalItemDetail {
    Forms(Forms),
    WordTranslations(WordTranslations),
    Synonyms(Synonyms),
    Explanation(Explanation),
    Example(Example),
}

/// What a record of free text says: [`Forms`], [`Explanation`].
pub struct TextRecordView {
    pub text: Seq<char>,
    pub source: Seq<char>,
}

/// What a record of renderings says: [`WordTranslations`], [`Synonyms`], [`Example`].
pub struct SetRecordView {
    pub translations_set: TranslationsSetView,
    pub source: Seq<char>,
}

/// What a [`LexicalItemDetail`] says.
pub enum LexicalItemDetailView {
    Forms(TextRecordView),
    WordTranslations(SetRecordView),
    Synonyms(SetRecordView),
    Explanation(TextRecordView),
    Example(SetRecordView),
}

impl View for Forms {
    type V = TextRecordView;

    open spec fn view(&self) -> TextRecordView {
        TextRecordView { text: self.text@, source: self.source@ }
    }
}

impl View for Explanation {
    type V = TextRecordView;

    open spec fn view(&self) -> TextRecordView {
        TextRecordView { text: self.text@, source: self.source@ }
    }
}

impl View for WordTranslations {
    type V = SetRecordView;

    open spec fn view(&self) -> SetRecordView {
        SetRecordView { translations_set: self.translations_set@, source: self.source@ }
    }
}

impl View for Synonyms {
    type V = SetRecordView;

    open spec fn view(&self) -> SetRecordView {
        SetRecordView { translations_set: self.translations_set@, source: self.source@ }
    }
}

impl View for Example {
    type V = SetRecordView;

    open spec fn view(&self) -> SetRecordView {
        SetRecordView { translations_set: self.translations_set@, source: self.source@ }
    }
}

impl View for LexicalItemDetail {
    type V = LexicalItemDetailView;

    open spec fn view(&self) -> LexicalItemDetailView {
        match self {
            LexicalItemDetail::Forms(r) => LexicalItemDetailView::Forms(r@),
            LexicalItemDetail::WordTranslations(r) => LexicalItemDetailView::WordTranslations(r@),
            LexicalItemDetail::Synonyms(r) => LexicalItemDetailView::Synonyms(r@),
            LexicalItemDetail::Explanation(r) => LexicalItemDetailView::Explanation(r@),
            LexicalItemDetail::Example(r) => LexicalItemDetailView::Example(r@),
        }
    }
}

impl LexicalItemDetailView {
    /// The record is well formed: its set, if it has one, is, and an
    /// example has exactly one rendering.
    pub open spec fn wf(self) -> bool {
        match self {
            LexicalItemDetailView::Forms(_) => true,
            LexicalItemDetailView::Explanation(_) => true,
            LexicalItemDetailView::WordTranslations(r) => r.translations_set.wf(),
            LexicalItemDetailView::Synonyms(r) => r.translations_set.wf(),
            LexicalItemDetailView::Example(r) => r.translations_set.wf()
                && r.translations_set.translations.len() == 1,
        }
    }
}

/// Every record of the sequence is well formed.
pub open spec fn all_wf(records: Seq<LexicalItemDetailView>) -> bool {
    forall|i: int| 0 <= i < records.len() ==> (#[trigger] records[i]).wf()
}

/// The views of a sequence of records, in order.
pub open spec fn detail_views(s: Seq<LexicalItemDetail>) -> Seq<LexicalItemDetailView> {
    s.map_values(|x: LexicalItemDetail| x@)
}

} // verus!

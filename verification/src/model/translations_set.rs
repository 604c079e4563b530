use crate::model::sentence::{sentence_views, Sentence, SentenceView};
use vstd::prelude::*;

verus! {

/// A sentence with its renderings, and optionally how good each rendering is,
/// on a scale from 0 to 9.
#[derive(Clone, Debug, PartialEq, Eq)]
pub struct TranslationsSet {
    pub original: Sentence,
    pub translations: Vec<Sentence>,
    /// Possible values are 0-9
    pub translations_qualities: Option<Vec<i8>>,
}

/// What a [`TranslationsSet`] says.
pub struct TranslationsSetView {
    pub original: SentenceView,
    pub translations: Seq<SentenceView>,
    pub translations_qualities: Option<Seq<i8>>,
}

impl TranslationsSetView {
    /// Qualities, where there are any, stand one beside each rendering and lie
    /// between 0 and 9.
    pub open spec fn wf(self) -> bool {
        self.translations_qualities matches Some(q) ==> {
            &&& q.len() == self.translations.len()
            &&& forall|i: int| 0 <= i < q.len() ==> 0 <= #[trigger] q[i] <= 9
        }
    }
}

impl View for TranslationsSet {
    type V = TranslationsSetView;

    open spec fn view(&self) -> TranslationsSetView {
        TranslationsSetView {
            original: self.original@,
            translations: sentence_views(self.translations@),
            translations_qualities: match self.translations_qualities {
                Some(q) => Some(q@),
                None => None,
            },
        }
    }
}

impl TranslationsSet {
    /// Whether the set is well formed: see [`TranslationsSetView::wf`].
    pub open spec fn wf(&self) -> bool {
        self@.wf()
    }
}

} // verus!

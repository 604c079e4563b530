use vstd::prelude::*;
use vstd::string::*;

verus! {

/// A piece of text in one language, with the backend that supplied it.
#[derive(Clone, Debug, PartialEq, Eq)]
pub struct Sentence {
    pub text: String,
    pub lang_iso3: String,
    pub source: String,
}

/// What a [`Sentence`] says: its three texts.
pub struct SentenceView {
    pub text: Seq<char>,
    pub lang_iso3: Seq<char>,
    pub source: Seq<char>,
}

impl View for Sentence {
    type V = SentenceView;

    open spec fn view(&self) -> SentenceView {
        SentenceView { text: self.text@, lang_iso3: self.lang_iso3@, source: self.source@ }
    }
}

impl Sentence {
    /// The sentence with the given text, language code and source.
    pub fn new(text: &str, lang_iso3: &str, source: &str) -> (s: Sentence)
        ensures
            s@ == (SentenceView { text: text@, lang_iso3: lang_iso3@, source: source@ }),
    {
        Sentence {
            text: String::from_str(text),
            lang_iso3: String::from_str(lang_iso3),
            source: String::from_str(source),
        }
    }
}

/// The views of a sequence of sentences, in order.
pub open spec fn sentence_views(s: Seq<Sentence>) -> Seq<SentenceView> {
    s.map_values(|x: Sentence| x@)
}

} // verus!

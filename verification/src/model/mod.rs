//! The records that a lookup of a word gives back.

pub mod lexical_item_detail;
pub mod sentence;
pub mod translations_set;

pub use lexical_item_detail::LexicalItemDetail;
pub use lexical_item_detail::WordTranslations;
pub use sentence::Sentence;
pub use translations_set::TranslationsSet;

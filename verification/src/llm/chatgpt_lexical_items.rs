//! The lexical pipeline of the generative backend: the prompt that asks for
//! a JSON object, the recovery of that object from a reply that may wrap it,
//! and the records made of its fields.

use crate::error::{LexError, LexErrorView};
use crate::model::lexical_item_detail::{
    all_wf, detail_views, Example, Explanation, Forms, LexicalItemDetail, LexicalItemDetailView,
    SetRecordView, Synonyms, TextRecordView, WordTranslations,
};
use crate::model::sentence::{sentence_views, Sentence, SentenceView};
use crate::model::translations_set::{TranslationsSet, TranslationsSetView};
use crate::text::{first_index_of, last_index_of, trim, trimmed};
use crate::util::{preview, truncate};
use vstd::prelude::*;
use vstd::string::*;

verus! {

/// The prompt up to the word that is to be explained.
pub const PROMPT_FORMAT: &'static str =
    "\nYou are called from a language learning app. Your goal is to reply with **JSON only**, no prose, no code fences.\n\nThe JSON format must be exactly:\n{\n  \"forms\": \"<FORMS>\",\n  \"translations\": [\"<TRANSLATION>\", \"<TRANSLATION>\", \"<TRANSLATION>\"],\n  \"synonyms\": [\"<SYNONYM>\", \"<SYNONYM>\", \"<SYNONYM>\"],\n  \"explanation\": \"<EXPLANATION_TARGET_LANG>\",\n  \"examples\": [\n    \"<EXAMPLE>\",\n    \"<EXAMPLE>\",\n    \"<EXAMPLE>\",\n    \"<EXAMPLE>\",\n    \"<EXAMPLE>\"\n  ]\n}\n\nWord to explain: ";

/// What introduces the language of the word.
pub const PROMPT_SOURCE: &'static str = "\nSource language (ISO-2): ";

/// What introduces the language of the answers.
pub const PROMPT_TARGET: &'static str = "\nTarget language (ISO-2): ";

/// What introduces the placeholders, the first of which is the forms.
pub const PROMPT_PLACEHOLDERS: &'static str = "\n\nPlaceholders:\n<FORMS>: ";

/// How the forms of a word are to be written.
pub const PROMPT_FORMS: &'static str =
    "\nif noun: article, singular form, plural form changes, e.g.:\nder Hund, -e\nder Platz, -\u{e4}e\nder Wurm, -(\u{fc})e\nif verb: follow next examples:\ngehen, geht, ging, ist gegangen\nlieben, liebt, liebte, hat geliebt\nfor others (adverb, adjective) make it as simple as possible\n";

/// What a rendering is.
pub const PROMPT_TRANSLATION: &'static str = "\n<TRANSLATION>: a translation into lang ";

/// What a synonym is.
pub const PROMPT_SYNONYM: &'static str = "\n<SYNONYM>: a synonym in lang ";

/// What the explanation is.
pub const PROMPT_EXPLANATION: &'static str =
    "\n<EXPLANATION_TARGET_LANG>: short (2-3 sentences) explanation of the word, in lang ";

/// What the first half of an example is.
pub const PROMPT_EXAMPLE: &'static str = "\n<EXAMPLE>: example sentence in lang ";

/// What the second half of an example is.
pub const PROMPT_EXAMPLE_RENDERED: &'static str = " | example sentence in lang ";

/// The rules that close the prompt.
pub const PROMPT_RULES: &'static str =
    "\nThe '|' is a required delimiter. Example sentences must be short. Translations and synonyms may contain 1-6 entries.\n";

/// The prompt that asks the backend about `query`, a word of the language
/// `lang_from`, for a reader of the language `lang_to`: a text that depends
/// on these three alone.
pub open spec fn prompt(query: Seq<char>, lang_from: Seq<char>, lang_to: Seq<char>) -> Seq<char> {
    PROMPT_FORMAT@ + query + PROMPT_SOURCE@ + lang_from + PROMPT_TARGET@ + lang_to
        + PROMPT_PLACEHOLDERS@ + PROMPT_FORMS@ + PROMPT_TRANSLATION@ + lang_to + PROMPT_SYNONYM@
        + lang_from + PROMPT_EXPLANATION@ + lang_to + PROMPT_EXAMPLE@ + lang_from
        + PROMPT_EXAMPLE_RENDERED@ + lang_to + PROMPT_RULES@
}

/// Writes the prompt for `query`.
pub fn build_prompt(query: &str, lang_from_iso2: &str, lang_to_iso2: &str) -> (p: String)
    ensures
        p@ == prompt(query@, lang_from_iso2@, lang_to_iso2@),
{
    let mut p = String::from_str(PROMPT_FORMAT);
    p.append(query);
    p.append(PROMPT_SOURCE);
    p.append(lang_from_iso2);
    p.append(PROMPT_TARGET);
    p.append(lang_to_iso2);
    p.append(PROMPT_PLACEHOLDERS);
    p.append(PROMPT_FORMS);
    p.append(PROMPT_TRANSLATION);
    p.append(lang_to_iso2);
    p.append(PROMPT_SYNONYM);
    p.append(lang_from_iso2);
    p.append(PROMPT_EXPLANATION);
    p.append(lang_to_iso2);
    p.append(PROMPT_EXAMPLE);
    p.append(lang_from_iso2);
    p.append(PROMPT_EXAMPLE_RENDERED);
    p.append(lang_to_iso2);
    p.append(PROMPT_RULES);
    p
}

/// The stretch of `s` from its first `{` to its last `}`, both included:
/// none where one of the two is missing, or the last `}` stands before the
/// first `{`. Braces are not counted, so two objects in a row come out as
/// one stretch.
pub open spec fn json_object_in(s: Seq<char>) -> Option<Seq<char>> {
    match (s.index_of_first('{'), s.index_of_last('}')) {
        (Some(start), Some(end)) => if start <= end {
            Some(s.subrange(start, end + 1))
        } else {
            None
        },
        _ => None,
    }
}

/// What of a reply is handed to the JSON parser: the stretch between the
/// outermost braces, or, where there is none, the trimmed reply.
pub open spec fn payload_of(raw: Seq<char>) -> Seq<char> {
    match json_object_in(raw) {
        Some(object) => object,
        None => trimmed(raw),
    }
}

/// Recovers a JSON object from a reply that may wrap it in prose or in a
/// fenced block.
pub fn extract_json_object(s: &str) -> (r: Option<String>)
    ensures
        match r {
            Some(object) => Some(object@),
            None => None,
        } == json_object_in(s@),
{
    let first = first_index_of(s, '{');
    let last = last_index_of(s, '}');
    match (first, last) {
        (Some(start), Some(end)) => {
            if end >= start {
                proof {
                    s@.index_of_last_ensures('}');
                }
                Some(String::from_str(s.substring_char(start, end + 1)))
            } else {
                None
            }
        },
        _ => None,
    }
}

/// What of a reply is handed to the JSON parser.
pub fn candidate_payload(raw: &str) -> (r: String)
    ensures
        r@ == payload_of(raw@),
{
    match extract_json_object(raw) {
        Some(object) => object,
        None => String::from_str(trim(raw)),
    }
}

/// Where `c` first stands in a text that holds it at `at` and not before.
proof fn lemma_first_at(s: Seq<char>, c: char, at: int)
    requires
        0 <= at < s.len(),
        s[at] == c,
        forall|k: int| 0 <= k < at ==> s[k] != c,
    ensures
        s.index_of_first(c) == Some(at),
{
    s.index_of_first_ensures(c);
    assert(s.contains(c));
}

/// Where `c` last stands in a text that holds it at `at` and not after.
proof fn lemma_last_at(s: Seq<char>, c: char, at: int)
    requires
        0 <= at < s.len(),
        s[at] == c,
        forall|k: int| at < k < s.len() ==> s[k] != c,
    ensures
        s.index_of_last(c) == Some(at),
{
    s.index_of_last_ensures(c);
    assert(s.contains(c));
}

/// A text that begins with `{` and ends with `}` is its own payload.
pub proof fn lemma_bare_object_is_recovered(object: Seq<char>)
    requires
        object.len() > 0,
        object.first() == '{',
        object.last() == '}',
    ensures
        payload_of(object) == object,
{
    lemma_first_at(object, '{', 0);
    lemma_last_at(object, '}', object.len() - 1);
    assert(object.subrange(0, object.len() as int) =~= object);
}

/// An object that begins with `{` and ends with `}` is recovered as it is,
/// alone or wrapped: what stands before it may hold no `{`, what stands
/// after it no `}`. So an object in a fenced block is read as the bare
/// object is.
pub proof fn lemma_wrapped_object_is_recovered(
    before: Seq<char>,
    object: Seq<char>,
    after: Seq<char>,
)
    requires
        object.len() > 0,
        object.first() == '{',
        object.last() == '}',
        !before.contains('{'),
        !after.contains('}'),
    ensures
        payload_of(before + object + after) == object,
        payload_of(object) == object,
        payload_of(before + object + after) == payload_of(object),
{
    let whole = before + object + after;
    let start = before.len() as int;
    let end = before.len() + object.len() - 1;
    assert(whole.len() == before.len() + object.len() + after.len());
    assert(whole[start] == object[0]);
    assert(whole[end] == object[object.len() - 1]);
    assert forall|k: int| 0 <= k < start implies whole[k] != '{' by {
        assert(whole[k] == before[k]);
    }
    assert forall|k: int| end < k < whole.len() implies whole[k] != '}' by {
        assert(whole[k] == after[k - end - 1]);
    }
    lemma_first_at(whole, '{', start);
    lemma_last_at(whole, '}', end);
    assert(whole.subrange(start, end + 1) =~= object);
    lemma_bare_object_is_recovered(object);
}

/// The opening of a fenced block of JSON.
pub const FENCE_OPEN: &'static str = "```json\n";

/// The closing of a fenced block.
pub const FENCE_CLOSE: &'static str = "\n```";

/// A reply that holds an object in a fenced block of JSON gives the same
/// payload as the object alone.
pub proof fn lemma_fenced_object_is_recovered(object: Seq<char>)
    requires
        object.len() > 0,
        object.first() == '{',
        object.last() == '}',
    ensures
        payload_of(FENCE_OPEN@ + object + FENCE_CLOSE@) == payload_of(object),
        payload_of(object) == object,
{
    reveal_strlit("```json\n");
    reveal_strlit("\n```");
    let open = FENCE_OPEN@;
    let close = FENCE_CLOSE@;
    assert(!open.contains('{')) by {
        assert forall|i: int| 0 <= i < open.len() implies open[i] != '{' by {}
    }
    assert(!close.contains('}')) by {
        assert forall|i: int| 0 <= i < close.len() implies close[i] != '}' by {}
    }
    lemma_wrapped_object_is_recovered(open, object, close);
}

/// The fields of the object that the backend is asked for.
#[derive(Clone, Debug, PartialEq, Eq)]
pub struct ChatGPTLexicalResponse {
    pub forms: String,
    pub translations: Vec<String>,
    pub synonyms: Vec<String>,
    pub explanation: String,
    pub examples: Vec<String>,
}

/// What a [`ChatGPTLexicalResponse`] says.
pub struct LexicalReplyView {
    pub forms: Seq<char>,
    pub translations: Seq<Seq<char>>,
    pub synonyms: Seq<Seq<char>>,
    pub explanation: Seq<char>,
    pub examples: Seq<Seq<char>>,
}

/// The texts of a sequence of strings, in order.
pub open spec fn texts(v: Seq<String>) -> Seq<Seq<char>> {
    v.map_values(|s: String| s@)
}

impl View for ChatGPTLexicalResponse {
    type V = LexicalReplyView;

    open spec fn view(&self) -> LexicalReplyView {
        LexicalReplyView {
            forms: self.forms@,
            translations: texts(self.translations@),
            synonyms: texts(self.synonyms@),
            explanation: self.explanation@,
            examples: texts(self.examples@),
        }
    }
}

/// The name under which the generative backend is given as a source.
pub open spec fn chatgpt() -> Seq<char> {
    "chatgpt"@
}

/// The sentence made of a text of the reply.
pub open spec fn reply_sentence(text: Seq<char>, lang: Seq<char>) -> SentenceView {
    SentenceView { text, lang_iso3: lang, source: chatgpt() }
}

/// The set made of a list of the reply: the query in its language, and a
/// sentence in the language `lang` for each text; no qualities.
pub open spec fn reply_set(
    query: Seq<char>,
    lang_from: Seq<char>,
    items: Seq<Seq<char>>,
    lang: Seq<char>,
) -> TranslationsSetView {
    TranslationsSetView {
        original: reply_sentence(query, lang_from),
        translations: Seq::new(items.len(), |i: int| reply_sentence(items[i], lang)),
        translations_qualities: None,
    }
}

/// The two halves of an example: what stands before its first `|` and what
/// stands after it, both trimmed; none where it has no `|`.
pub open spec fn example_parts(example: Seq<char>) -> Option<(Seq<char>, Seq<char>)> {
    match example.index_of_first('|') {
        Some(bar) => Some((trimmed(example.take(bar)), trimmed(example.skip(bar + 1)))),
        None => None,
    }
}

/// The record of an example: its first half in the language of the word,
/// with its second half as the one rendering; none for an example without
/// a `|`.
pub open spec fn example_record(example: Seq<char>, lang_from: Seq<char>, lang_to: Seq<char>)
    -> Option<LexicalItemDetailView> {
    match example_parts(example) {
        Some((lhs, rhs)) => Some(
            LexicalItemDetailView::Example(
                SetRecordView {
                    translations_set: TranslationsSetView {
                        original: reply_sentence(lhs, lang_from),
                        translations: seq![reply_sentence(rhs, lang_to)],
                        translations_qualities: None,
                    },
                    source: chatgpt(),
                },
            ),
        ),
        None => None,
    }
}

/// The records of the examples, in the order of the reply: one for each
/// example that has a `|`, none for the others.
pub open spec fn example_records(
    examples: Seq<Seq<char>>,
    lang_from: Seq<char>,
    lang_to: Seq<char>,
) -> Seq<LexicalItemDetailView>
    decreases examples.len(),
{
    if examples.len() == 0 {
        seq![]
    } else {
        example_records(examples.drop_last(), lang_from, lang_to) + (match example_record(
            examples.last(),
            lang_from,
            lang_to,
        ) {
            Some(record) => seq![record],
            None => seq![],
        })
    }
}

/// The records made of a reply, in their fixed order: the forms, the
/// explanation, the renderings, the synonyms, then the examples.
pub open spec fn reply_records(
    reply: LexicalReplyView,
    query: Seq<char>,
    lang_from: Seq<char>,
    lang_to: Seq<char>,
) -> Seq<LexicalItemDetailView> {
    seq![
        LexicalItemDetailView::Forms(TextRecordView { text: reply.forms, source: chatgpt() }),
        LexicalItemDetailView::Explanation(
            TextRecordView { text: reply.explanation, source: chatgpt() },
        ),
        LexicalItemDetailView::WordTranslations(
            SetRecordView {
                translations_set: reply_set(query, lang_from, reply.translations, lang_to),
                source: chatgpt(),
            },
        ),
        LexicalItemDetailView::Synonyms(
            SetRecordView {
                translations_set: reply_set(query, lang_from, reply.synonyms, lang_from),
                source: chatgpt(),
            },
        ),
    ] + example_records(reply.examples, lang_from, lang_to)
}

/// Whether a record is the record of an example as the generative backend
/// gives it: one rendering, no qualities.
pub open spec fn is_example(record: LexicalItemDetailView) -> bool {
    record matches LexicalItemDetailView::Example(e) && e.source == chatgpt()
        && e.translations_set.translations.len() == 1
        && e.translations_set.translations_qualities is None
}

/// The records of examples are records of examples, no more of them than
/// there are examples.
pub proof fn lemma_example_records(
    examples: Seq<Seq<char>>,
    lang_from: Seq<char>,
    lang_to: Seq<char>,
)
    ensures
        example_records(examples, lang_from, lang_to).len() <= examples.len(),
        forall|i: int|
            0 <= i < example_records(examples, lang_from, lang_to).len() ==> is_example(
                #[trigger] example_records(examples, lang_from, lang_to)[i],
            ),
    decreases examples.len(),
{
    if examples.len() > 0 {
        lemma_example_records(examples.drop_last(), lang_from, lang_to);
    }
}

/// The records of a reply come in a fixed order: the forms, the
/// explanation, the renderings, the synonyms, then examples alone. None of
/// the sets carries qualities.
pub proof fn lemma_reply_records_order(
    reply: LexicalReplyView,
    query: Seq<char>,
    lang_from: Seq<char>,
    lang_to: Seq<char>,
)
    ensures
        ({
            let records = reply_records(reply, query, lang_from, lang_to);
            &&& 4 <= records.len() <= 4 + reply.examples.len()
            &&& records[0] is Forms
            &&& records[1] is Explanation
            &&& records[2] matches LexicalItemDetailView::WordTranslations(w)
                && w.translations_set.translations_qualities is None
                && w.translations_set.translations.len() == reply.translations.len()
            &&& records[3] matches LexicalItemDetailView::Synonyms(s)
                && s.translations_set.translations_qualities is None
                && s.translations_set.translations.len() == reply.synonyms.len()
            &&& forall|i: int| 4 <= i < records.len() ==> is_example(#[trigger] records[i])
        }),
{
    let records = reply_records(reply, query, lang_from, lang_to);
    let examples = example_records(reply.examples, lang_from, lang_to);
    lemma_example_records(reply.examples, lang_from, lang_to);
    assert forall|i: int| 4 <= i < records.len() implies is_example(#[trigger] records[i]) by {
        assert(records[i] == examples[i - 4]);
    }
}

/// Splits an example at its first `|` and trims the two halves.
pub fn split_example(example: &str) -> (r: Option<(String, String)>)
    ensures
        match r {
            Some((lhs, rhs)) => Some((lhs@, rhs@)),
            None => None,
        } == example_parts(example@),
{
    match first_index_of(example, '|') {
        Some(bar) => {
            proof {
                example@.index_of_first_ensures('|');
                assert(example@.subrange(0, bar as int) =~= example@.take(bar as int));
                assert(example@.subrange(bar + 1, example@.len() as int) =~= example@.skip(
                    bar + 1,
                ));
            }
            let n: usize = example.unicode_len();
            let lhs = trim(example.substring_char(0, bar));
            let rhs = trim(example.substring_char(bar + 1, n));
            Some((String::from_str(lhs), String::from_str(rhs)))
        },
        None => None,
    }
}

/// A sentence of the generative backend for each text, in order.
fn reply_sentences(items: &Vec<String>, lang: &str) -> (r: Vec<Sentence>)
    ensures
        sentence_views(r@) == Seq::new(
            items.len() as nat,
            |i: int| reply_sentence(texts(items@)[i], lang@),
        ),
{
    let mut out: Vec<Sentence> = Vec::new();
    let mut i: usize = 0;
    while i < items.len()
        invariant
            i <= items.len(),
            sentence_views(out@) == Seq::new(
                i as nat,
                |x: int| reply_sentence(texts(items@)[x], lang@),
            ),
        decreases items.len() - i,
    {
        let ghost before = sentence_views(out@);
        out.push(Sentence::new(items[i].as_str(), lang, "chatgpt"));
        proof {
            assert(sentence_views(out@) =~= before.push(
                reply_sentence(texts(items@)[i as int], lang@),
            ));
            assert(sentence_views(out@) =~= Seq::new(
                (i + 1) as nat,
                |x: int| reply_sentence(texts(items@)[x], lang@),
            ));
        }
        i += 1;
    }
    out
}

/// The set of the generative backend for a list of the reply.
fn reply_set_of(query: &str, lang_from: &str, items: &Vec<String>, lang: &str) -> (r:
    TranslationsSet)
    ensures
        r@ == reply_set(query@, lang_from@, texts(items@), lang@),
{
    let set = TranslationsSet {
        original: Sentence::new(query, lang_from, "chatgpt"),
        translations: reply_sentences(items, lang),
        translations_qualities: None,
    };
    proof {
        assert(set@.translations =~= reply_set(
            query@,
            lang_from@,
            texts(items@),
            lang@,
        ).translations);
    }
    set
}

/// The record of one example, if it has a `|`.
fn example_record_of(example: &str, lang_from: &str, lang_to: &str) -> (r: Option<
    LexicalItemDetail,
>)
    ensures
        match r {
            Some(record) => Some(record@),
            None => None,
        } == example_record(example@, lang_from@, lang_to@),
{
    match split_example(example) {
        Some((lhs, rhs)) => {
            let mut translations: Vec<Sentence> = Vec::new();
            translations.push(Sentence::new(rhs.as_str(), lang_to, "chatgpt"));
            let set = TranslationsSet {
                original: Sentence::new(lhs.as_str(), lang_from, "chatgpt"),
                translations,
                translations_qualities: None,
            };
            proof {
                assert(set@.translations =~= seq![reply_sentence(rhs@, lang_to@)]);
            }
            Some(LexicalItemDetail::Example(Example {
                translations_set: set,
                source: String::from_str("chatgpt"),
            }))
        },
        None => None,
    }
}

/// The records made of a parsed reply to the prompt for `query`.
pub fn lexical_items(
    resp: ChatGPTLexicalResponse,
    query: &str,
    lang_from_iso2: &str,
    lang_to_iso2: &str,
) -> (out: Vec<LexicalItemDetail>)
    ensures
        detail_views(out@) == reply_records(resp@, query@, lang_from_iso2@, lang_to_iso2@),
        all_wf(detail_views(out@)),
{
    let ghost reply = resp@;
    proof {
        lemma_reply_records_order(reply, query@, lang_from_iso2@, lang_to_iso2@);
    }
    let mut out = Vec::<LexicalItemDetail>::new();
    let translations_set = reply_set_of(query, lang_from_iso2, &resp.translations, lang_to_iso2);
    let synonyms_set = reply_set_of(query, lang_from_iso2, &resp.synonyms, lang_from_iso2);
    let examples = resp.examples;

    out.push(LexicalItemDetail::Forms(Forms { text: resp.forms, source: String::from_str("chatgpt") }));
    out.push(
        LexicalItemDetail::Explanation(
            Explanation { text: resp.explanation, source: String::from_str("chatgpt") },
        ),
    );
    out.push(
        LexicalItemDetail::WordTranslations(
            WordTranslations { translations_set, source: String::from_str("chatgpt") },
        ),
    );
    out.push(
        LexicalItemDetail::Synonyms(
            Synonyms { translations_set: synonyms_set, source: String::from_str("chatgpt") },
        ),
    );
    let ghost head = detail_views(out@);
    proof {
        assert(head + example_records(
            reply.examples.take(0),
            lang_from_iso2@,
            lang_to_iso2@,
        ) =~= head);
        assert(head + example_records(reply.examples, lang_from_iso2@, lang_to_iso2@)
            =~= reply_records(reply, query@, lang_from_iso2@, lang_to_iso2@));
    }

    let mut i: usize = 0;
    while i < examples.len()
        invariant
            i <= examples.len(),
            texts(examples@) == reply.examples,
            detail_views(out@) == head + example_records(
                reply.examples.take(i as int),
                lang_from_iso2@,
                lang_to_iso2@,
            ),
        decreases examples.len() - i,
    {
        let ghost before = detail_views(out@);
        proof {
            assert(reply.examples.take(i + 1).drop_last() =~= reply.examples.take(i as int));
            assert(reply.examples.take(i + 1).last() == examples@[i as int]@);
        }
        match example_record_of(examples[i].as_str(), lang_from_iso2, lang_to_iso2) {
            Some(record) => {
                out.push(record);
                proof {
                    assert(detail_views(out@) =~= before.push(record@));
                    assert(detail_views(out@) =~= head + example_records(
                        reply.examples.take(i + 1),
                        lang_from_iso2@,
                        lang_to_iso2@,
                    ));
                }
            },
            None => {
                proof {
                    assert(detail_views(out@) =~= head + example_records(
                        reply.examples.take(i + 1),
                        lang_from_iso2@,
                        lang_to_iso2@,
                    ));
                }
            },
        }
        i += 1;
    }
    proof {
        assert(reply.examples.take(examples.len() as int) =~= reply.examples);
    }
    out
}

/// What opens the message of a payload that is no JSON of the wanted shape.
pub const INVALID_JSON: &'static str = "invalid JSON from ChatGPT: ";

/// The failure for a payload that the JSON parser turned down with
/// `detail`: its message names the parser's complaint, its preview shows
/// the beginning of the payload.
pub fn invalid_json(detail: &str, payload: &str) -> (e: LexError)
    ensures
        e@ == (LexErrorView::UpstreamFormat {
            message: INVALID_JSON@ + detail@,
            preview: Some(preview(payload@)),
        }),
{
    LexError::UpstreamFormat {
        message: String::from_str(INVALID_JSON).concat(detail),
        preview: Some(truncate(payload)),
    }
}

/// What a reply comes to: its records, where the JSON parser read the
/// payload, or the failure that carries the parser's complaint and a
/// preview of the payload.
pub open spec fn interpreted(
    parsed: Result<LexicalReplyView, Seq<char>>,
    payload: Seq<char>,
    query: Seq<char>,
    lang_from: Seq<char>,
    lang_to: Seq<char>,
) -> Result<Seq<LexicalItemDetailView>, LexErrorView> {
    match parsed {
        Ok(reply) => Ok(reply_records(reply, query, lang_from, lang_to)),
        Err(detail) => Err(
            LexErrorView::UpstreamFormat {
                message: INVALID_JSON@ + detail,
                preview: Some(preview(payload)),
            },
        ),
    }
}

/// Makes records of what the JSON parser made of `payload`: the fields of
/// the reply, or its complaint.
pub fn interpret(
    parsed: Result<ChatGPTLexicalResponse, String>,
    payload: &str,
    query: &str,
    lang_from_iso2: &str,
    lang_to_iso2: &str,
) -> (r: Result<Vec<LexicalItemDetail>, LexError>)
    ensures
        match r {
            Ok(items) => Ok(detail_views(items@)),
            Err(e) => Err(e@),
        } == interpreted(
            match parsed {
                Ok(reply) => Ok(reply@),
                Err(detail) => Err(detail@),
            },
            payload@,
            query@,
            lang_from_iso2@,
            lang_to_iso2@,
        ),
        r matches Ok(items) ==> all_wf(detail_views(items@)),
{
    match parsed {
        Ok(reply) => Ok(lexical_items(reply, query, lang_from_iso2, lang_to_iso2)),
        Err(detail) => Err(invalid_json(detail.as_str(), payload)),
    }
}

} // verus!

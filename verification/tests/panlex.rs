use lexical_items::error::LexError;
use lexical_items::model::lexical_item_detail::Synonyms;
use lexical_items::model::{LexicalItemDetail, Sentence, TranslationsSet, WordTranslations};
use lexical_items::panlex::graph::{Denotation, Expression, LanguageVariety, MeaningGraph};
use lexical_items::panlex::panlex_lexical_items::{assemble, get};
use lexical_items::panlex::resolution::{get_synonyms, get_translations, resolve, variety_uid_of};
use lexical_items::panlex::rows::{clamp_quality, merge, synonyms, word_translations, ScoredText};
use lexical_items::panlex::sqlite::{
    synonym_binds, synonyms_from_store, translation_binds, translations_from_store,
};

fn variety(id: i64, uid: &str) -> LanguageVariety {
    LanguageVariety { id, uid: uid.to_string() }
}

fn expression(id: i64, variety: i64, text: &str) -> Expression {
    Expression { id, variety, text: text.to_string() }
}

fn denotation(meaning: i64, quality: i64, expression: i64, variety: i64) -> Denotation {
    Denotation { meaning, provenance: 1, group: 1, quality, expression, variety }
}

fn empty_graph() -> MeaningGraph {
    MeaningGraph { varieties: vec![], expressions: vec![], denotations: vec![] }
}

fn beekeeper_graph() -> MeaningGraph {
    MeaningGraph {
        varieties: vec![variety(100, "deu-000"), variety(300, "eng-000")],
        expressions: vec![
            expression(1000, 100, "Imker"),
            expression(3000, 300, "beekeeper"),
            expression(3001, 300, "apiarist"),
        ],
        denotations: vec![
            denotation(9999, 7, 1000, 100),
            denotation(9999, 5, 3000, 300),
            denotation(9999, 3, 3000, 300),
            denotation(9999, 12, 3001, 300),
        ],
    }
}

fn synonym_graph() -> MeaningGraph {
    MeaningGraph {
        varieties: vec![variety(100, "deu-000")],
        expressions: vec![
            expression(1000, 100, "Imker"),
            expression(1001, 100, "Bienenhalter"),
            expression(1002, 100, "Bienenz\u{fc}chter"),
        ],
        denotations: vec![
            denotation(9999, 7, 1000, 100),
            denotation(9999, 12, 1001, 100),
            denotation(9999, 5, 1002, 100),
            denotation(9999, 3, 1002, 100),
        ],
    }
}

fn row(text: &str, quality: i64) -> ScoredText {
    ScoredText { text: text.to_string(), quality }
}

#[test]
fn graph_gives_renderings_in_text_order_with_clamped_best_quality() {
    let graph = beekeeper_graph();

    let result = get_translations(&graph, " Imker ", "deu", "eng").expect("some");

    let source = "panlex".to_string();
    let expected = WordTranslations {
        translations_set: TranslationsSet {
            original: Sentence::new("Imker", "deu", &source),
            translations: vec![
                Sentence::new("apiarist", "eng", &source),
                Sentence::new("beekeeper", "eng", &source),
            ],
            translations_qualities: Some(vec![9_i8, 5_i8]),
        },
        source: source.clone(),
    };

    assert_eq!(result, expected);
}

#[test]
fn graph_gives_no_record_when_nothing_matches() {
    let graph = MeaningGraph {
        varieties: vec![variety(100, "deu-000"), variety(300, "eng-000")],
        expressions: vec![],
        denotations: vec![],
    };
    let out = get_translations(&graph, "Nope", "deu", "eng");
    assert_eq!(out, None);
    assert_eq!(get_translations(&empty_graph(), "Nope", "deu", "eng"), None);
    assert_eq!(get_translations(&beekeeper_graph(), "Nope", "deu", "eng"), None);
}

#[test]
fn graph_gives_synonyms_of_the_same_language() {
    let graph = synonym_graph();

    let result = get_synonyms(&graph, " Imker ", "deu").expect("some");

    let source = "panlex".to_string();
    let expected = Synonyms {
        translations_set: TranslationsSet {
            original: Sentence::new("Imker", "deu", &source),
            translations: vec![
                Sentence::new("Bienenhalter", "deu", &source),
                Sentence::new("Bienenz\u{fc}chter", "deu", &source),
            ],
            translations_qualities: Some(vec![9_i8, 5_i8]),
        },
        source: source.clone(),
    };

    assert_eq!(result, expected);
}

#[test]
fn graph_gives_no_synonyms_when_only_the_source_exists() {
    let graph = MeaningGraph {
        varieties: vec![variety(100, "deu-000")],
        expressions: vec![expression(1000, 100, "Imker")],
        denotations: vec![denotation(9999, 7, 1000, 100)],
    };

    let result = get_synonyms(&graph, "Imker", "deu");

    assert_eq!(result, None);
}

#[test]
fn qualities_stay_between_zero_and_nine() {
    let mut graph = beekeeper_graph();
    graph.expressions.push(expression(3002, 300, "bee-master"));
    graph.expressions.push(expression(3003, 300, "hive keeper"));
    graph.denotations.push(denotation(9999, -4, 3002, 300));
    graph.denotations.push(denotation(9999, i64::MAX, 3003, 300));
    let result = get_translations(&graph, "Imker", "deu", "eng").expect("some");
    let set = result.translations_set;
    let texts: Vec<&str> = set.translations.iter().map(|s| s.text.as_str()).collect();
    assert_eq!(texts, vec!["apiarist", "bee-master", "beekeeper", "hive keeper"]);
    assert_eq!(set.translations_qualities, Some(vec![9_i8, 0, 5, 9]));
}

#[test]
fn clamp_quality_is_a_true_clamp() {
    assert_eq!(clamp_quality(-1), 0);
    assert_eq!(clamp_quality(0), 0);
    assert_eq!(clamp_quality(5), 5);
    assert_eq!(clamp_quality(9), 9);
    assert_eq!(clamp_quality(10), 9);
    assert_eq!(clamp_quality(12), 9);
    assert_eq!(clamp_quality(128), 9);
    assert_eq!(clamp_quality(256), 9);
    assert_eq!(clamp_quality(i64::MIN), 0);
    assert_eq!(clamp_quality(i64::MAX), 9);
}

#[test]
fn duplicate_denotations_give_the_maximum() {
    let mut graph = beekeeper_graph();
    graph.denotations.push(denotation(9999, 8, 3000, 300));
    graph.denotations.push(denotation(9999, 1, 3000, 300));
    let rows = resolve(&graph, "Imker", "deu-000", "eng-000", false);
    assert_eq!(rows, vec![row("apiarist", 12), row("beekeeper", 8)]);
}

#[test]
fn rows_come_in_text_order_whatever_the_order_of_the_tables() {
    let mut graph = beekeeper_graph();
    let first = resolve(&graph, "Imker", "deu-000", "eng-000", false);
    graph.expressions.reverse();
    graph.denotations.reverse();
    graph.varieties.reverse();
    let second = resolve(&graph, "Imker", "deu-000", "eng-000", false);
    assert_eq!(first, second);
    assert_eq!(first, resolve(&graph, "Imker", "deu-000", "eng-000", false));
    assert_eq!(first, vec![row("apiarist", 12), row("beekeeper", 5)]);
}

#[test]
fn two_expressions_with_one_text_share_a_row() {
    let mut graph = beekeeper_graph();
    graph.expressions.push(expression(3005, 300, "apiarist"));
    graph.denotations.push(denotation(9999, 2, 3005, 300));
    graph.expressions.push(expression(3006, 300, "Beekeeper"));
    graph.denotations.push(denotation(9999, 4, 3006, 300));
    let rows = resolve(&graph, "Imker", "deu-000", "eng-000", false);
    assert_eq!(rows, vec![row("Beekeeper", 4), row("apiarist", 12), row("beekeeper", 5)]);
}

#[test]
fn only_shared_meanings_and_the_wanted_variety_count() {
    let mut graph = beekeeper_graph();
    graph.varieties.push(variety(400, "fra-000"));
    graph.expressions.push(expression(4000, 400, "apiculteur"));
    graph.denotations.push(denotation(9999, 6, 4000, 400));
    graph.expressions.push(expression(3010, 300, "baker"));
    graph.denotations.push(denotation(5555, 9, 3010, 300));
    graph.expressions.push(expression(1010, 100, "Imker"));
    graph.denotations.push(denotation(7777, 9, 1010, 100));
    graph.expressions.push(expression(3011, 300, "bee farmer"));
    graph.denotations.push(denotation(7777, 2, 3011, 300));
    let eng = resolve(&graph, "Imker", "deu-000", "eng-000", false);
    assert_eq!(eng, vec![row("apiarist", 12), row("bee farmer", 2), row("beekeeper", 5)]);
    let fra = resolve(&graph, "Imker", "deu-000", "fra-000", false);
    assert_eq!(fra, vec![row("apiculteur", 6)]);
    let none = resolve(&graph, "Imker", "eng-000", "deu-000", false);
    assert_eq!(none, vec![]);
    let back = resolve(&graph, "beekeeper", "eng-000", "deu-000", false);
    assert_eq!(back, vec![row("Imker", 7)]);
}

#[test]
fn synonyms_never_hold_the_query() {
    let mut graph = synonym_graph();
    graph.expressions.push(expression(1003, 100, "Imker"));
    graph.denotations.push(denotation(9999, 9, 1003, 100));
    graph.expressions.push(expression(1004, 100, "imker"));
    graph.denotations.push(denotation(9999, 1, 1004, 100));
    let result = get_synonyms(&graph, "Imker", "deu").expect("some");
    let texts: Vec<&str> =
        result.translations_set.translations.iter().map(|s| s.text.as_str()).collect();
    assert_eq!(texts, vec!["Bienenhalter", "Bienenz\u{fc}chter", "imker"]);
    assert!(texts.iter().all(|t| *t != "Imker"));
    let with_source = resolve(&graph, "Imker", "deu-000", "deu-000", false);
    assert_eq!(
        with_source,
        vec![
            row("Bienenhalter", 12),
            row("Bienenz\u{fc}chter", 5),
            row("Imker", 9),
            row("imker", 1)
        ]
    );
}

#[test]
fn synonyms_leave_out_an_expression_that_shares_the_id_of_the_source() {
    let mut graph = synonym_graph();
    graph.expressions.push(expression(1000, 100, "Zeidler"));
    let rows = resolve(&graph, "Imker", "deu-000", "deu-000", true);
    assert_eq!(rows, vec![row("Bienenhalter", 12), row("Bienenz\u{fc}chter", 5)]);
    let kept = resolve(&graph, "Imker", "deu-000", "deu-000", false);
    assert_eq!(
        kept,
        vec![row("Bienenhalter", 12), row("Bienenz\u{fc}chter", 5), row("Imker", 7), row("Zeidler", 7)]
    );
}

#[test]
fn variety_uid_appends_the_first_variety() {
    assert_eq!(variety_uid_of("deu"), "deu-000");
    assert_eq!(variety_uid_of(""), "-000");
}

#[test]
fn merge_keeps_rows_sorted_and_the_best_quality() {
    let mut rows: Vec<ScoredText> = Vec::new();
    merge(&mut rows, "m", 3);
    merge(&mut rows, "a", 1);
    merge(&mut rows, "z", 2);
    merge(&mut rows, "m", 2);
    assert_eq!(rows, vec![row("a", 1), row("m", 3), row("z", 2)]);
    merge(&mut rows, "m", 8);
    merge(&mut rows, "b", -5);
    assert_eq!(rows, vec![row("a", 1), row("b", -5), row("m", 8), row("z", 2)]);
}

#[test]
fn records_of_rows_trim_the_query_and_clamp() {
    let rows = vec![row("apiarist", 12), row("beekeeper", 5)];
    let source = "panlex".to_string();
    let set = TranslationsSet {
        original: Sentence::new("Imker", "deu", &source),
        translations: vec![
            Sentence::new("apiarist", "eng", &source),
            Sentence::new("beekeeper", "eng", &source),
        ],
        translations_qualities: Some(vec![9_i8, 5_i8]),
    };
    assert_eq!(
        word_translations(&rows, " Imker ", "deu", "eng"),
        Some(WordTranslations { translations_set: set, source: source.clone() })
    );
    let syn = synonyms(&rows, "Imker\n", "deu").expect("some");
    assert_eq!(syn.source, "panlex");
    assert_eq!(syn.translations_set.original, Sentence::new("Imker", "deu", &source));
    assert_eq!(syn.translations_set.translations[1], Sentence::new("beekeeper", "deu", &source));
    assert_eq!(word_translations(&vec![], "Imker", "deu", "eng"), None);
    assert_eq!(synonyms(&vec![], "Imker", "deu"), None);
}

#[test]
fn get_puts_translations_before_synonyms() {
    let mut graph = beekeeper_graph();
    graph.expressions.push(expression(1001, 100, "Bienenhalter"));
    graph.denotations.push(denotation(9999, 4, 1001, 100));
    let out = get(&graph, "Imker", "deu", "eng");
    assert_eq!(out.len(), 2);
    assert!(matches!(out[0], LexicalItemDetail::WordTranslations(_)));
    assert!(matches!(out[1], LexicalItemDetail::Synonyms(_)));
    assert_eq!(
        out,
        assemble(
            get_translations(&graph, "Imker", "deu", "eng"),
            get_synonyms(&graph, "Imker", "deu")
        )
    );

    let only_translations = get(&beekeeper_graph(), "Imker", "deu", "eng");
    assert_eq!(only_translations.len(), 1);
    assert!(matches!(only_translations[0], LexicalItemDetail::WordTranslations(_)));

    let only_synonyms = get(&synonym_graph(), "Imker", "deu", "eng");
    assert_eq!(only_synonyms.len(), 1);
    assert!(matches!(only_synonyms[0], LexicalItemDetail::Synonyms(_)));

    assert_eq!(get(&empty_graph(), "Imker", "deu", "eng"), vec![]);
    assert_eq!(assemble(None, None), vec![]);
}

#[test]
fn failure_of_the_store_is_passed_on() {
    let failed = || Err("no such table: ex".to_string());
    let error = LexError::StoreError { message: "no such table: ex".to_string() };
    assert_eq!(translations_from_store(failed(), "Imker", "deu", "eng"), Err(error.clone()));
    assert_eq!(synonyms_from_store(failed(), "Imker", "deu"), Err(error.clone()));
    assert_eq!(error.http_status(), Some(500));

    assert_eq!(translations_from_store(Ok(vec![]), "Imker", "deu", "eng"), Ok(None));
    assert_eq!(synonyms_from_store(Ok(vec![]), "Imker", "deu"), Ok(None));

    let rows = vec![row("apiarist", 12), row("beekeeper", 5)];
    assert_eq!(
        translations_from_store(Ok(rows.clone()), " Imker ", "deu", "eng"),
        Ok(get_translations(&beekeeper_graph(), " Imker ", "deu", "eng"))
    );
    assert_eq!(
        synonyms_from_store(Ok(rows.clone()), "Imker", "deu"),
        Ok(synonyms(&rows, "Imker", "deu"))
    );
}

#[test]
fn binds_are_the_uids_and_the_trimmed_query() {
    assert_eq!(
        translation_binds(" Imker ", "deu", "eng"),
        ("deu-000".to_string(), "Imker".to_string(), "eng-000".to_string())
    );
    assert_eq!(synonym_binds("\tImker\n", "deu"), ("deu-000".to_string(), "Imker".to_string()));
}

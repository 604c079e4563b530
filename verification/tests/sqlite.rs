use lexical_items::error::LexError;
use lexical_items::model::lexical_item_detail::Synonyms;
use lexical_items::model::{Sentence, TranslationsSet, WordTranslations};
use lexical_items::panlex::graph::{Denotation, Expression, LanguageVariety, MeaningGraph};
use lexical_items::panlex::panlex_lexical_items::{assemble, get};
use lexical_items::panlex::resolution;
use lexical_items::panlex::rows::ScoredText;
use lexical_items::panlex::sqlite::{
    synonym_binds, synonyms_from_store, translation_binds, translations_from_store, SYNONYMS,
    TRANSLATIONS,
};
use sqlx::{sqlite::SqlitePoolOptions, SqlitePool};

fn on_runtime<T>(work: impl std::future::Future<Output = T>) -> T {
    tokio::runtime::Builder::new_current_thread()
        .enable_all()
        .build()
        .expect("runtime")
        .block_on(work)
}

async fn new_test_pool() -> SqlitePool {
    let pool = SqlitePoolOptions::new()
        .max_connections(1) // <- important for :memory:
        .connect("sqlite::memory:")
        .await
        .expect("connect :memory:");
    create_full_schema(&pool).await.expect("schema");
    pool
}

async fn create_full_schema(pool: &SqlitePool) -> Result<(), sqlx::Error> {
    const SCHEMA: &str = r#"
CREATE TABLE langvar (
    id integer PRIMARY KEY,
    lang_code text,
    var_code integer,
    uid text,
    meaning integer,
    name_expr integer,
    name_expr_txt text,
    region_expr integer,
    region_expr_txt text,
    script_expr integer,
    script_expr_txt text
);
CREATE TABLE source (
    id integer PRIMARY KEY,
    grp integer,
    label text,
    reg_date text,
    url text,
    isbn text,
    author text,
    title text,
    publisher text,
    year text,
    quality integer,
    note text,
    license text,
    ip_claim text,
    ip_claimant text,
    ip_claimant_email text
);
CREATE TABLE expr (
    id integer PRIMARY KEY,
    langvar integer,
    txt text
);
CREATE TABLE denotationx (
    meaning integer,
    source integer,
    grp integer,
    quality integer,
    expr integer,
    langvar integer
);
CREATE VIEW lv AS SELECT id as lv, lang_code as lc, var_code as vc, uid, meaning as mn, name_expr as ex, name_expr_txt as tt, region_expr as rg, region_expr_txt as rgtt, script_expr as sc, script_expr_txt as sctt FROM langvar
/* lv(lv,lc,vc,uid,mn,ex,tt,rg,rgtt,sc,sctt) */;
CREATE VIEW ex AS SELECT id as ex, langvar as lv, txt as tt FROM expr
/* ex(ex,lv,tt) */;
CREATE VIEW dnx AS SELECT meaning as mn, source as ap, grp as ui, quality as uq, expr as ex, langvar as lv FROM denotationx
/* dnx(mn,ap,ui,uq,ex,lv) */;
CREATE INDEX expr_langvar ON expr (langvar);
CREATE INDEX expr_txt_langvar ON expr (txt, langvar);
CREATE INDEX denotationx_meaning ON denotationx (meaning);
CREATE INDEX denotationx_expr ON denotationx (expr);
CREATE INDEX denotationx_langvar ON denotationx (langvar);
"#;
    for stmt in SCHEMA.split(';') {
        let sql = stmt.trim();
        if !sql.is_empty() {
            sqlx::query(sql).execute(pool).await?;
        }
    }
    Ok(())
}

fn scored(rows: Vec<(String, i64)>) -> Vec<ScoredText> {
    rows.into_iter().map(|(text, quality)| ScoredText { text, quality }).collect()
}

/// The renderings as the store finds them.
async fn get_translations(
    db_pool: &SqlitePool,
    query: &str,
    lang_from_iso3: &str,
    lang_to_iso3: &str,
) -> Result<Option<WordTranslations>, LexError> {
    let (uid_from, text, uid_to) = translation_binds(query, lang_from_iso3, lang_to_iso3);
    let outcome = sqlx::query_as::<_, (String, i64)>(TRANSLATIONS)
        .bind(&uid_from)
        .bind(&text)
        .bind(&uid_to)
        .fetch_all(db_pool)
        .await
        .map(scored)
        .map_err(|e| e.to_string());
    translations_from_store(outcome, query, lang_from_iso3, lang_to_iso3)
}

/// The synonyms as the store finds them.
async fn get_synonyms(
    db_pool: &SqlitePool,
    query: &str,
    lang_from_iso3: &str,
) -> Result<Option<Synonyms>, LexError> {
    let (uid_from, text) = synonym_binds(query, lang_from_iso3);
    let outcome = sqlx::query_as::<_, (String, i64)>(SYNONYMS)
        .bind(&uid_from)
        .bind(&text)
        .fetch_all(db_pool)
        .await
        .map(scored)
        .map_err(|e| e.to_string());
    synonyms_from_store(outcome, query, lang_from_iso3)
}

/// The tables of the store as a graph in memory. A quality that the store
/// does not know counts as 0.
async fn load_graph(pool: &SqlitePool) -> MeaningGraph {
    let varieties = sqlx::query_as::<_, (i64, String)>("SELECT lv, uid FROM lv ORDER BY lv")
        .fetch_all(pool)
        .await
        .expect("varieties")
        .into_iter()
        .map(|(id, uid)| LanguageVariety { id, uid })
        .collect();
    let expressions =
        sqlx::query_as::<_, (i64, i64, String)>("SELECT ex, lv, tt FROM ex ORDER BY ex")
            .fetch_all(pool)
            .await
            .expect("expressions")
            .into_iter()
            .map(|(id, variety, text)| Expression { id, variety, text })
            .collect();
    let denotations = sqlx::query_as::<_, (i64, i64, i64, i64, i64, i64)>(
        "SELECT meaning, source, grp, COALESCE(quality, 0), expr, langvar FROM denotationx ORDER BY rowid",
    )
    .fetch_all(pool)
    .await
    .expect("denotations")
    .into_iter()
    .map(|(meaning, provenance, group, quality, expression, variety)| Denotation {
        meaning,
        provenance,
        group,
        quality,
        expression,
        variety,
    })
    .collect();
    MeaningGraph { varieties, expressions, denotations }
}

#[test]
fn translations_happy_path() {
    on_runtime(async {
        let pool = new_test_pool().await;
        // Prepare
        sqlx::query(
            r#"-- noinspection SqlNoDataSourceInspectionForFile
                INSERT INTO langvar(id, lang_code, var_code, uid) VALUES
                  (100,'deu',0,'deu-000'),
                  (300,'eng',0,'eng-000');
                INSERT INTO expr(id, langvar, txt) VALUES
                  (1000,100,'Imker'),
                  (3000,300,'beekeeper'),
                  (3001,300,'apiarist');
                INSERT INTO denotationx(meaning, source, grp, quality, expr, langvar) VALUES
                  (9999, 1, 1, 7, 1000, 100),   -- DE "Imker"
                  (9999, 1, 1, 5, 3000, 300),   -- EN "beekeeper" quality 5
                  (9999, 1, 1, 3, 3000, 300),   -- duplicate lower quality -> MAX keeps 5
                  (9999, 1, 1, 12, 3001, 300);  -- EN "apiarist" -> clamp to 9
            "#,
        )
        .execute(&pool)
        .await
        .unwrap();

        let result =
            get_translations(&pool, " Imker ", "deu", "eng").await.expect("ok").expect("some");

        let source = "panlex".to_string();
        let expected = WordTranslations {
            translations_set: TranslationsSet {
                original: Sentence::new("Imker", "deu", &source),
                translations: vec![
                    Sentence::new("apiarist", "eng", &source),
                    Sentence::new("beekeeper", "eng", &source),
                ],
                translations_qualities: Some(vec![9_i8, 5_i8]),
            },
            source: source.clone(),
        };

        assert_eq!(result, expected);

        let graph = load_graph(&pool).await;
        let result = resolution::get_translations(&graph, " Imker ", "deu", "eng").expect("some");
        assert_eq!(result, expected);
    })
}

#[test]
fn translations_return_none_when_no_match() {
    on_runtime(async {
        let pool = new_test_pool().await;
        let out = get_translations(&pool, "Nope", "deu", "eng").await.expect("ok");
        assert_eq!(out, None);

        let graph = load_graph(&pool).await;
        assert_eq!(resolution::get_translations(&graph, "Nope", "deu", "eng"), None);
    })
}

#[test]
fn synonyms_happy_path_same_language() {
    on_runtime(async {
        let pool = new_test_pool().await;
        sqlx::query(
            r#"-- noinspection SqlNoDataSourceInspectionForFile
            INSERT INTO langvar(id, lang_code, var_code, uid) VALUES
              (100,'deu',0,'deu-000');
            INSERT INTO expr(id, langvar, txt) VALUES
              (1000,100,'Imker'),
              (1001,100,'Bienenhalter'),
              (1002,100,'Bienenzüchter');
            INSERT INTO denotationx(meaning, source, grp, quality, expr, langvar) VALUES
              (9999, 1, 1, 7, 1000, 100),   -- source "Imker"
              (9999, 1, 1, 12, 1001, 100),  -- "Bienenhalter" -> clamp to 9
              (9999, 1, 1, 5,  1002, 100),  -- "Bienenzüchter" quality 5
              (9999, 1, 1, 3,  1002, 100);  -- duplicate lower quality -> MAX keeps 5
        "#,
        )
        .execute(&pool)
        .await
        .unwrap();

        let result = get_synonyms(&pool, " Imker ", "deu").await.expect("ok").expect("some");

        let source = "panlex".to_string();
        let expected = Synonyms {
            translations_set: TranslationsSet {
                original: Sentence::new("Imker", "deu", &source),
                translations: vec![
                    Sentence::new("Bienenhalter", "deu", &source),
                    Sentence::new("Bienenzüchter", "deu", &source),
                ],
                translations_qualities: Some(vec![9_i8, 5_i8]),
            },
            source: source.clone(),
        };

        assert_eq!(result, expected);

        let graph = load_graph(&pool).await;
        let result = resolution::get_synonyms(&graph, " Imker ", "deu").expect("some");
        assert_eq!(result, expected);
    })
}

#[test]
fn synonyms_none_when_only_source_exists() {
    on_runtime(async {
        let pool = new_test_pool().await;
        sqlx::query(
            r#"-- noinspection SqlNoDataSourceInspectionForFile
            INSERT INTO langvar(id, lang_code, var_code, uid) VALUES
              (100,'deu',0,'deu-000');
            INSERT INTO expr(id, langvar, txt) VALUES
              (1000,100,'Imker');
            INSERT INTO denotationx(meaning, source, grp, quality, expr, langvar) VALUES
              (9999, 1, 1, 7, 1000, 100);
        "#,
        )
        .execute(&pool)
        .await
        .unwrap();

        let result = get_synonyms(&pool, "Imker", "deu").await.expect("ok");

        assert_eq!(result, None);

        let graph = load_graph(&pool).await;
        assert_eq!(resolution::get_synonyms(&graph, "Imker", "deu"), None);
    })
}

#[test]
fn failure_of_the_store_comes_back_as_store_error() {
    on_runtime(async {
        let pool = SqlitePoolOptions::new()
            .max_connections(1)
            .connect("sqlite::memory:")
            .await
            .expect("connect :memory:");
        let err = get_translations(&pool, "Imker", "deu", "eng").await.expect_err("no tables");
        assert!(matches!(err, LexError::StoreError { .. }));
        assert_eq!(err.code(), "PANLEX_SQLITE");
        assert_eq!(err.http_status(), Some(500));
        assert!(err.message().contains("no such table"));
        let err = get_synonyms(&pool, "Imker", "deu").await.expect_err("no tables");
        assert!(matches!(err, LexError::StoreError { .. }));
    })
}

#[test]
fn store_and_graph_give_the_same_records() {
    on_runtime(async {
        let pool = new_test_pool().await;
        sqlx::query(
            r#"
            INSERT INTO langvar(id, lang_code, var_code, uid) VALUES
              (100,'deu',0,'deu-000'),
              (101,'deu',1,'deu-001'),
              (300,'eng',0,'eng-000'),
              (400,'fra',0,'fra-000');
            INSERT INTO expr(id, langvar, txt) VALUES
              (1000,100,'Imker'),
              (1001,100,'Bienenhalter'),
              (1002,100,'Bienenzüchter'),
              (1003,100,'Zeidler'),
              (1004,100,'Bank'),
              (1005,101,'Imker'),
              (1006,100,'imker'),
              (3000,300,'beekeeper'),
              (3001,300,'apiarist'),
              (3002,300,'Apiarist'),
              (3003,300,'bank'),
              (3004,300,'bench'),
              (3005,300,'zoo keeper'),
              (3006,300,'éleveur'),
              (3007,300,'Imker'),
              (4000,400,'apiculteur'),
              (4001,400,'banque');
            INSERT INTO denotationx(meaning, source, grp, quality, expr, langvar) VALUES
              (1, 1, 1, 7, 1000, 100),
              (1, 1, 1, 5, 3000, 300),
              (1, 2, 1, 3, 3000, 300),
              (1, 1, 1, 12, 3001, 300),
              (1, 1, 1, -4, 3002, 300),
              (1, 1, 1, 2, 1001, 100),
              (1, 1, 1, NULL, 1002, 100),
              (1, 1, 1, 4, 4000, 400),
              (1, 1, 1, 6, 3007, 300),
              (2, 1, 1, 9, 1000, 100),
              (2, 1, 1, 1, 1003, 100),
              (2, 1, 1, 8, 3000, 300),
              (2, 1, 1, 0, 3006, 300),
              (2, 1, 1, 3, 1006, 100),
              (3, 1, 1, 5, 1004, 100),
              (3, 1, 1, 5, 3003, 300),
              (3, 1, 1, 300, 4001, 400),
              (4, 1, 1, 5, 1004, 100),
              (4, 1, 1, 1, 3004, 300),
              (5, 1, 1, 5, 1005, 101),
              (5, 1, 1, 9, 3005, 300),
              (6, 1, 1, 5, 3000, 100),
              (1, 1, 1, 9, 1001, 300);
        "#,
        )
        .execute(&pool)
        .await
        .unwrap();
        let graph = load_graph(&pool).await;
        assert_eq!(graph.denotations.len(), 23);

        let queries = [
            "Imker", " Imker ", "imker", "Bank", "bank", "beekeeper", "apiarist", "Zeidler",
            "Bienenzüchter", "Nope", "apiculteur", "zoo keeper", "éleveur", "",
        ];
        let languages = ["deu", "eng", "fra", "ita"];
        let mut found = 0;
        for query in queries {
            for from in languages {
                for to in languages {
                    let stored = get_translations(&pool, query, from, to).await.expect("ok");
                    let walked = resolution::get_translations(&graph, query, from, to);
                    assert_eq!(stored, walked, "{:?} {} {}", query, from, to);
                    if stored.is_some() {
                        found += 1;
                    }
                }
                let stored = get_synonyms(&pool, query, from).await.expect("ok");
                let walked = resolution::get_synonyms(&graph, query, from);
                assert_eq!(stored, walked, "{:?} {}", query, from);
                if stored.is_some() {
                    found += 1;
                }
                assert_eq!(
                    get(&graph, query, from, "eng"),
                    assemble(
                        get_translations(&pool, query, from, "eng").await.expect("ok"),
                        stored
                    )
                );
            }
        }
        assert!(found > 20, "{}", found);

        let imker = get_translations(&pool, "Imker", "deu", "eng").await.expect("ok").expect("some");
        let texts: Vec<&str> =
            imker.translations_set.translations.iter().map(|s| s.text.as_str()).collect();
        assert_eq!(texts, vec!["Apiarist", "Bienenhalter", "Imker", "apiarist", "beekeeper", "éleveur"]);
        assert_eq!(imker.translations_set.translations_qualities, Some(vec![0_i8, 9, 6, 9, 8, 0]));
    })
}

/// A sequence of numbers that looks random and is the same in every run.
struct Dice(u64);

impl Dice {
    fn roll(&mut self, sides: u64) -> u64 {
        self.0 = self.0.wrapping_mul(6364136223846793005).wrapping_add(1442695040888963407);
        (self.0 >> 33) % sides
    }
}

#[test]
fn store_and_graph_agree_on_generated_graphs() {
    on_runtime(async {
        let texts = ["a", "b", "ab", "B", "\u{e4}", "z", "\u{e9}", "a b", "zz", "\u{20ac}"];
        let languages = ["deu", "eng", "fra"];
        let mut dice = Dice(20240229);
        let mut records = 0;
        for _ in 0..40 {
            let pool = new_test_pool().await;
            for (i, lang) in languages.iter().enumerate() {
                sqlx::query("INSERT INTO langvar(id, lang_code, var_code, uid) VALUES (?1, ?2, 0, ?3)")
                    .bind(10 + i as i64)
                    .bind(*lang)
                    .bind(format!("{lang}-000"))
                    .execute(&pool)
                    .await
                    .unwrap();
            }
            let expressions = 3 + dice.roll(10) as i64;
            for id in 0..expressions {
                sqlx::query("INSERT INTO expr(id, langvar, txt) VALUES (?1, ?2, ?3)")
                    .bind(100 + id)
                    .bind(10 + dice.roll(4) as i64)
                    .bind(texts[dice.roll(texts.len() as u64) as usize])
                    .execute(&pool)
                    .await
                    .unwrap();
            }
            let denotations = dice.roll(25);
            for _ in 0..denotations {
                let quality = match dice.roll(20) {
                    0 => None,
                    q => Some(q as i64 - 4),
                };
                sqlx::query(
                    "INSERT INTO denotationx(meaning, source, grp, quality, expr, langvar) VALUES (?1, 1, 1, ?2, ?3, ?4)",
                )
                .bind(1 + dice.roll(4) as i64)
                .bind(quality)
                .bind(100 + dice.roll(expressions as u64 + 1) as i64)
                .bind(10 + dice.roll(4) as i64)
                .execute(&pool)
                .await
                .unwrap();
            }
            let graph = load_graph(&pool).await;
            for query in texts {
                for from in languages {
                    for to in languages {
                        let stored = get_translations(&pool, query, from, to).await.expect("ok");
                        let walked = resolution::get_translations(&graph, query, from, to);
                        assert_eq!(stored, walked, "{:?} {} {} in {:?}", query, from, to, graph);
                        if stored.is_some() {
                            records += 1;
                        }
                    }
                    let stored = get_synonyms(&pool, query, from).await.expect("ok");
                    let walked = resolution::get_synonyms(&graph, query, from);
                    assert_eq!(stored, walked, "{:?} {} in {:?}", query, from, graph);
                    if stored.is_some() {
                        records += 1;
                    }
                }
            }
        }
        assert!(records > 100, "{}", records);
    })
}

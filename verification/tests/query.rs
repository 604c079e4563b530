use lexical_items::error::{InputFault, LexError, BAD_GATEWAY, INTERNAL_SERVER_ERROR};
use lexical_items::panlex::graph::{Denotation, Expression, LanguageVariety, MeaningGraph};
use lexical_items::panlex::panlex_lexical_items::get;
use lexical_items::query::{
    validate_params, validate_with_width, Query, ISO2_WIDTH, ISO3_WIDTH, MAX_QUERY_LEN,
};

fn fault(f: InputFault) -> Result<(), LexError> {
    Err(LexError::InvalidInput(f))
}

fn graph() -> MeaningGraph {
    MeaningGraph {
        varieties: vec![
            LanguageVariety { id: 100, uid: "deu-000".to_string() },
            LanguageVariety { id: 300, uid: "eng-000".to_string() },
        ],
        expressions: vec![
            Expression { id: 1000, variety: 100, text: "Imker".to_string() },
            Expression { id: 3000, variety: 300, text: "beekeeper".to_string() },
        ],
        denotations: vec![
            Denotation { meaning: 1, provenance: 1, group: 1, quality: 7, expression: 1000, variety: 100 },
            Denotation { meaning: 1, provenance: 1, group: 1, quality: 5, expression: 3000, variety: 300 },
        ],
    }
}

#[test]
fn good_query_passes() {
    assert_eq!(validate_params("Imker", "deu", "eng"), Ok(()));
    assert_eq!(validate_params(" Imker ", "deu", "eng"), Ok(()));
    assert_eq!(validate_params("x", "abc", "xyz"), Ok(()));
}

#[test]
fn blank_query_is_refused_whatever_the_codes() {
    for query in ["", " ", "   ", "\t\n", "\u{a0}\u{2003}\u{3000}"] {
        for (from, to) in [("deu", "eng"), ("", ""), ("de", "en"), ("deutsch", "english")] {
            assert_eq!(validate_params(query, from, to), fault(InputFault::EmptyQuery));
            assert_eq!(Query.llm_prompt(query, from, to), Err(LexError::InvalidInput(InputFault::EmptyQuery)));
            assert_eq!(
                Query.panlex(&graph(), query, from, to),
                Err(LexError::InvalidInput(InputFault::EmptyQuery))
            );
        }
    }
}

#[test]
fn long_query_is_refused_whatever_the_codes() {
    let fifty = "a".repeat(50);
    let fifty_one = "a".repeat(51);
    assert_eq!(MAX_QUERY_LEN, 50);
    assert_eq!(validate_params(&fifty, "deu", "eng"), Ok(()));
    assert_eq!(validate_params(&format!("  {fifty}\n"), "deu", "eng"), Ok(()));
    for (from, to) in [("deu", "eng"), ("", ""), ("de", "en")] {
        assert_eq!(validate_params(&fifty_one, from, to), fault(InputFault::QueryTooLong));
        assert_eq!(
            validate_params(&format!(" {fifty_one} "), from, to),
            fault(InputFault::QueryTooLong)
        );
        assert_eq!(
            Query.llm_prompt(&fifty_one, from, to),
            Err(LexError::InvalidInput(InputFault::QueryTooLong))
        );
        assert_eq!(
            Query.panlex(&graph(), &fifty_one, from, to),
            Err(LexError::InvalidInput(InputFault::QueryTooLong))
        );
    }
}

#[test]
fn query_length_counts_characters() {
    let fifty = "\u{fc}".repeat(50);
    let fifty_one = "\u{fc}".repeat(51);
    assert_eq!(validate_params(&fifty, "deu", "eng"), Ok(()));
    assert_eq!(validate_params(&fifty_one, "deu", "eng"), fault(InputFault::QueryTooLong));
}

#[test]
fn language_codes_have_three_letters() {
    assert_eq!(validate_params("Imker", "de", "eng"), fault(InputFault::LanguageCode { width: 3 }));
    assert_eq!(validate_params("Imker", "deu", "en"), fault(InputFault::LanguageCode { width: 3 }));
    assert_eq!(validate_params("Imker", "", "eng"), fault(InputFault::LanguageCode { width: 3 }));
    assert_eq!(validate_params("Imker", "deu", "engl"), fault(InputFault::LanguageCode { width: 3 }));
    assert_eq!(validate_params("Imker", "deu", " en"), Ok(()));
}

#[test]
fn width_of_the_codes_can_be_two() {
    assert_eq!(ISO3_WIDTH, 3);
    assert_eq!(ISO2_WIDTH, 2);
    assert_eq!(validate_with_width("Hund", "de", "en", ISO2_WIDTH), Ok(()));
    assert_eq!(
        validate_with_width("Hund", "deu", "en", ISO2_WIDTH),
        fault(InputFault::LanguageCode { width: 2 })
    );
    assert_eq!(
        validate_with_width("Hund", "de", "eng", ISO2_WIDTH),
        fault(InputFault::LanguageCode { width: 2 })
    );
    assert_eq!(validate_with_width("Hund", "deu", "eng", ISO3_WIDTH), Ok(()));
    assert_eq!(validate_with_width(" ", "de", "en", ISO2_WIDTH), fault(InputFault::EmptyQuery));
}

#[test]
fn panlex_asks_the_graph_for_a_good_query() {
    let out = Query.panlex(&graph(), " Imker ", "deu", "eng").expect("ok");
    assert_eq!(out, get(&graph(), " Imker ", "deu", "eng"));
    assert_eq!(out.len(), 1);
    assert_eq!(Query.panlex(&graph(), "Imker", "de", "en"), Err(LexError::InvalidInput(InputFault::LanguageCode { width: 3 })));
    assert_eq!(Query.panlex(&graph(), "Nope", "deu", "eng"), Ok(vec![]));
}

#[test]
fn failures_carry_code_status_and_message() {
    let input = LexError::InvalidInput(InputFault::EmptyQuery);
    assert_eq!(input.code(), "BAD_USER_INPUT");
    assert_eq!(input.http_status(), None);
    assert_eq!(input.message(), "query must not be empty");
    assert_eq!(InputFault::QueryTooLong.message(), "query must not longer than 50");
    assert_eq!(
        InputFault::LanguageCode { width: 3 }.message(),
        "languages must be ISO-3 (3 letters)"
    );
    assert_eq!(
        InputFault::LanguageCode { width: 2 }.message(),
        "languages must be ISO-2 (2 letters)"
    );

    let transport = LexError::UpstreamTransport { message: "connection refused".to_string() };
    assert_eq!(transport.code(), "UPSTREAM_LLM");
    assert_eq!(transport.http_status(), Some(502));
    assert_eq!(transport.message(), "connection refused");

    let format = LexError::UpstreamFormat { message: "boom".to_string(), preview: None };
    assert_eq!(format.code(), "UPSTREAM_LLM");
    assert_eq!(format.http_status(), Some(BAD_GATEWAY));
    assert_eq!(format.message(), "boom");

    let store = LexError::StoreError { message: "no such table: ex".to_string() };
    assert_eq!(store.code(), "PANLEX_SQLITE");
    assert_eq!(store.http_status(), Some(INTERNAL_SERVER_ERROR));
    assert_eq!(store.http_status(), Some(500));
    assert_eq!(store.message(), "no such table: ex");
}

use lspresso_shot::json::JsonValue;
use lspresso_shot::responses::{
    DocumentSymbolResponse, GotoDefinitionResponse, Location, LocationLink, SemanticToken, SemanticTokens,
    SemanticTokensEdit, SemanticTokensFullDeltaResult, SemanticTokensResult, SymbolInformation,
    WorkspaceLocation, WorkspaceSymbol, WorkspaceSymbolResponse,
};
use lspresso_shot::types::{Position, Range, TestSetupError};

fn range(a: u32) -> Range {
    Range {
        start: Position::new(a, 0),
        end: Position::new(a, 1),
    }
}

fn loc(uri: &str) -> Location {
    Location {
        uri: uri.to_string(),
        range: range(1),
    }
}

fn token(n: u32) -> SemanticToken {
    SemanticToken {
        delta_line: n,
        delta_start: 2,
        length: 3,
        token_type: 4,
        token_modifiers_bitset: 5,
    }
}

#[test]
fn empty_locations_and_links_are_alike() {
    let a = GotoDefinitionResponse::Array(vec![]);
    let l = GotoDefinitionResponse::Link(vec![]);
    assert!(GotoDefinitionResponse::approx_eq(&a, &l));
    assert!(GotoDefinitionResponse::approx_eq(&l, &a));
    let one = GotoDefinitionResponse::Array(vec![loc("a.rs")]);
    assert!(!GotoDefinitionResponse::approx_eq(&one, &l));
    let scalar = GotoDefinitionResponse::Scalar(loc("a.rs"));
    assert!(!GotoDefinitionResponse::approx_eq(&scalar, &one));
    assert!(GotoDefinitionResponse::approx_eq(&one, &GotoDefinitionResponse::Array(vec![loc("a.rs")])));
}

#[test]
fn definition_uris_are_cleaned() {
    let resp = GotoDefinitionResponse::Link(vec![LocationLink {
        origin_selection_range: None,
        target_uri: "file:///tmp/t/src/main.rs".to_string(),
        target_range: range(2),
        target_selection_range: range(3),
    }]);
    match resp.clean_response("/tmp/t/src/") {
        Ok(GotoDefinitionResponse::Link(links)) => {
            assert_eq!("main.rs", links[0].target_uri);
            assert_eq!(range(2), links[0].target_range);
        }
        other => panic!("unexpected {other:?}"),
    }
    let bad = GotoDefinitionResponse::Array(vec![loc("file:///tmp/t/src/a.rs"), loc("bad uri"), loc("worse uri")]);
    match bad.clean_response("/tmp/t/src/") {
        Err(TestSetupError::InvalidFilePath(p)) => assert_eq!("bad uri", p),
        other => panic!("unexpected {other:?}"),
    }
}

#[test]
fn full_tokens_without_id_match_partial_results() {
    let full = SemanticTokensResult::Tokens(SemanticTokens {
        result_id: None,
        data: vec![token(1)],
    });
    let partial = SemanticTokensResult::Partial(vec![token(1)]);
    assert!(SemanticTokensResult::approx_eq(&full, &partial));
    let with_id = SemanticTokensResult::Tokens(SemanticTokens {
        result_id: Some("x".to_string()),
        data: vec![token(1)],
    });
    assert!(!SemanticTokensResult::approx_eq(&with_id, &partial));
    assert!(!SemanticTokensResult::approx_eq(&full, &SemanticTokensResult::Partial(vec![token(2)])));
}

#[test]
fn empty_delta_forms_are_alike() {
    let tokens = SemanticTokensFullDeltaResult::Tokens(SemanticTokens {
        result_id: None,
        data: vec![],
    });
    let delta = SemanticTokensFullDeltaResult::TokensDelta {
        result_id: Some("r".to_string()),
        edits: vec![],
    };
    let partial = SemanticTokensFullDeltaResult::PartialTokensDelta { edits: vec![] };
    assert!(SemanticTokensFullDeltaResult::approx_eq(&tokens, &delta));
    assert!(SemanticTokensFullDeltaResult::approx_eq(&partial, &tokens));
    assert!(!SemanticTokensFullDeltaResult::approx_eq(&delta, &partial));
    let edited = SemanticTokensFullDeltaResult::PartialTokensDelta {
        edits: vec![SemanticTokensEdit {
            start: 1,
            delete_count: 2,
            data: None,
        }],
    };
    assert!(!SemanticTokensFullDeltaResult::approx_eq(&edited, &tokens));
    assert!(SemanticTokensFullDeltaResult::approx_eq(
        &edited,
        &SemanticTokensFullDeltaResult::PartialTokensDelta {
            edits: vec![SemanticTokensEdit {
                start: 1,
                delete_count: 2,
                data: None,
            }],
        }
    ));
}

fn info(name: &str) -> SymbolInformation {
    SymbolInformation {
        name: name.to_string(),
        kind: 12,
        tags: None,
        deprecated: None,
        location: loc("a.rs"),
        container_name: None,
    }
}

fn ws(name: &str) -> WorkspaceSymbol {
    WorkspaceSymbol {
        name: name.to_string(),
        kind: 12,
        tags: None,
        container_name: None,
        location: WorkspaceLocation::Full(loc("a.rs")),
        data: None,
    }
}

#[test]
fn flat_and_nested_symbols_that_say_the_same_are_alike() {
    let flat = WorkspaceSymbolResponse::Flat(vec![info("f"), info("g")]);
    let nested = WorkspaceSymbolResponse::Nested(vec![ws("f"), ws("g")]);
    assert!(WorkspaceSymbolResponse::approx_eq(&flat, &nested));
    assert!(WorkspaceSymbolResponse::approx_eq(&nested, &flat));
    let mut with_data = ws("g");
    with_data.data = Some(JsonValue::Null);
    let nested2 = WorkspaceSymbolResponse::Nested(vec![ws("f"), with_data]);
    assert!(!WorkspaceSymbolResponse::approx_eq(&flat, &nested2));
    let mut deprecated = info("f");
    deprecated.deprecated = Some(false);
    let flat2 = WorkspaceSymbolResponse::Flat(vec![deprecated, info("g")]);
    assert!(!WorkspaceSymbolResponse::approx_eq(&flat2, &nested));
    let mut uri_only = ws("f");
    uri_only.location = WorkspaceLocation::Uri("a.rs".to_string());
    let nested3 = WorkspaceSymbolResponse::Nested(vec![uri_only, ws("g")]);
    assert!(!WorkspaceSymbolResponse::approx_eq(&flat, &nested3));
    assert!(WorkspaceSymbolResponse::approx_eq(&nested3, &WorkspaceSymbolResponse::Nested(vec![
        WorkspaceSymbol {
            location: WorkspaceLocation::Uri("a.rs".to_string()),
            ..ws("f")
        },
        ws("g")
    ])));
}

#[test]
fn workspace_symbol_uris_are_cleaned() {
    let mut s = ws("f");
    s.location = WorkspaceLocation::Uri("file:///r/src/x.rs".to_string());
    let resp = WorkspaceSymbolResponse::Nested(vec![s]);
    match resp.clean_response("/r/src/") {
        Ok(WorkspaceSymbolResponse::Nested(v)) => match &v[0].location {
            WorkspaceLocation::Uri(u) => assert_eq!("x.rs", u),
            other => panic!("unexpected {other:?}"),
        },
        other => panic!("unexpected {other:?}"),
    }
    let mut i = info("g");
    i.location = loc("file:///r/src/y.rs");
    match WorkspaceSymbolResponse::Flat(vec![i]).clean_response("/r/src/") {
        Ok(WorkspaceSymbolResponse::Flat(v)) => {
            assert_eq!("y.rs", v[0].location.uri);
            assert_eq!("g", v[0].name);
        }
        other => panic!("unexpected {other:?}"),
    }
}

#[test]
fn empty_flat_and_nested_document_symbols_are_alike() {
    let flat = DocumentSymbolResponse::Flat(vec![]);
    let nested = DocumentSymbolResponse::Nested(vec![]);
    assert!(DocumentSymbolResponse::approx_eq(&flat, &nested));
    let one = DocumentSymbolResponse::Nested(vec![JsonValue::Null]);
    assert!(!DocumentSymbolResponse::approx_eq(&flat, &one));
    assert!(DocumentSymbolResponse::approx_eq(&one, &DocumentSymbolResponse::Nested(vec![JsonValue::Null])));
    let mut i = info("s");
    i.location = loc("file:///w/src/z.rs");
    match DocumentSymbolResponse::Flat(vec![i]).clean_response("/w/src/") {
        Ok(DocumentSymbolResponse::Flat(v)) => assert_eq!("z.rs", v[0].location.uri),
        other => panic!("unexpected {other:?}"),
    }
}

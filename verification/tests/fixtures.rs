use lspresso_shot::hover::{get_hover_response, HoverContents, MarkedString, MarkupKind};
use lspresso_shot::completion::{CompletionList, CompletionResponse};
use lspresso_shot::json::{render_json, JsonValue};
use lspresso_shot::fixtures::{
    get_completion_response, get_definition_response, get_references_response, get_semantic_tokens_full_delta_response,
    get_semantic_tokens_full_response, get_semantic_tokens_range_response,
};
use lspresso_shot::responses::{GotoDefinitionResponse, SemanticTokensFullDeltaResult, SemanticTokensResult};

#[test]
fn definition_fixtures() {
    match get_definition_response(2) {
        Some(GotoDefinitionResponse::Array(v)) => {
            assert_eq!(2, v.len());
            assert_eq!("main.dummy", v[0].uri);
            assert_eq!(1, v[0].range.start.line);
            assert_eq!(4, v[0].range.end.character);
        }
        other => panic!("unexpected {other:?}"),
    }
    match get_definition_response(4) {
        Some(GotoDefinitionResponse::Link(v)) => {
            assert_eq!(1, v.len());
            assert_eq!(9, v[0].origin_selection_range.unwrap().start.line);
        }
        other => panic!("unexpected {other:?}"),
    }
    assert!(matches!(get_definition_response(6), Some(GotoDefinitionResponse::Scalar(_))));
    assert!(get_definition_response(7).is_none());
    let empty_array = get_definition_response(0).unwrap();
    let empty_link = get_definition_response(3).unwrap();
    assert!(GotoDefinitionResponse::approx_eq(&empty_array, &empty_link));
}

#[test]
fn reference_fixtures() {
    assert_eq!(Some(0), get_references_response(0).map(|v| v.len()));
    let three = get_references_response(3).unwrap();
    assert_eq!(3, three.len());
    assert_eq!(9, three[2].range.start.line);
    assert!(get_references_response(4).is_none());
}

#[test]
fn token_fixtures() {
    match get_semantic_tokens_full_response(7) {
        Some(SemanticTokensResult::Tokens(t)) => {
            assert_eq!(Some("result_id_3".to_string()), t.result_id);
            assert_eq!(2, t.data.len());
            assert_eq!(5, t.data[1].delta_line);
        }
        other => panic!("unexpected {other:?}"),
    }
    match get_semantic_tokens_full_response(150) {
        Some(SemanticTokensResult::Tokens(t)) => {
            assert_eq!(Some("some_result_type".to_string()), t.result_id)
        }
        other => panic!("unexpected {other:?}"),
    }
    assert!(get_semantic_tokens_full_response(200).is_none());
    assert!(get_semantic_tokens_full_response(12).is_none());
    let full = get_semantic_tokens_range_response(2).unwrap();
    let partial = get_semantic_tokens_range_response(6).unwrap();
    assert!(SemanticTokensResult::approx_eq(&full, &partial));
    assert!(get_semantic_tokens_range_response(9).is_none());
}

#[test]
fn delta_fixtures() {
    match get_semantic_tokens_full_delta_response(112) {
        Some(SemanticTokensFullDeltaResult::TokensDelta { result_id, edits }) => {
            assert_eq!(Some("result_id_7b".to_string()), result_id);
            assert_eq!(8, edits[0].start);
            assert_eq!(2, edits[0].data.as_ref().unwrap().len());
        }
        other => panic!("unexpected {other:?}"),
    }
    match get_semantic_tokens_full_delta_response(119) {
        Some(SemanticTokensFullDeltaResult::PartialTokensDelta { edits }) => assert_eq!(5, edits.len()),
        other => panic!("unexpected {other:?}"),
    }
    assert!(get_semantic_tokens_full_delta_response(99).is_none());
    assert!(get_semantic_tokens_full_delta_response(120).is_none());
    let tokens = get_semantic_tokens_full_delta_response(100).unwrap();
    let partial = get_semantic_tokens_full_delta_response(113).unwrap();
    assert!(SemanticTokensFullDeltaResult::approx_eq(&tokens, &partial));
}

fn protocol_item(i: &str) -> lsp_types::CompletionItem {
    lsp_types::CompletionItem {
        label: format!("label{i}"),
        label_details: Some(lsp_types::CompletionItemLabelDetails {
            detail: Some(format!("detail{i}")),
            description: Some(format!("description{i}")),
        }),
        kind: Some(lsp_types::CompletionItemKind::TEXT),
        detail: Some(format!("detail{i}")),
        documentation: Some(lsp_types::Documentation::String(format!("doc string{i}"))),
        deprecated: Some(false),
        preselect: Some(true),
        sort_text: Some(format!("sort text{i}")),
        filter_text: Some(format!("filter_text{i}")),
        insert_text: Some(format!("insert_text{i}")),
        ..Default::default()
    }
}

#[test]
fn completion_fixtures_render_as_the_protocol_items_do() {
    let expected = lsp_types::CompletionResponse::List(lsp_types::CompletionList {
        is_incomplete: true,
        items: vec![protocol_item("1"), protocol_item("2")],
    });
    let expected_text = serde_json::to_value(&expected).unwrap().to_string();
    match get_completion_response(2) {
        Some(CompletionResponse::List(l)) => {
            assert!(l.is_incomplete);
            let rendered = render_json(&JsonValue::Object(vec![
                ("isIncomplete".to_string(), JsonValue::Bool(l.is_incomplete)),
                ("items".to_string(), JsonValue::Array(l.items)),
            ]));
            assert_eq!(expected_text, rendered);
        }
        other => panic!("unexpected {other:?}"),
    }
    match get_completion_response(6) {
        Some(CompletionResponse::Array(items)) => {
            assert_eq!(
                serde_json::to_value(protocol_item("1")).unwrap().to_string(),
                render_json(&items[0])
            );
        }
        other => panic!("unexpected {other:?}"),
    }
    assert!(matches!(get_completion_response(3), Some(CompletionResponse::List(CompletionList { is_incomplete: false, .. }))));
    assert!(get_completion_response(8).is_none());
}

#[test]
fn hover_fixtures_match_the_protocol_json() {
    let h = get_hover_response(1).unwrap();
    match &h.contents {
        HoverContents::Scalar(MarkedString::LanguageString { language, value }) => {
            assert_eq!("dummy-lang", language);
            assert_eq!("dummy-val\nLine two", value);
        }
        other => panic!("unexpected {other:?}"),
    }
    assert_eq!(5, h.range.unwrap().start.line);
    match get_hover_response(3).unwrap().contents {
        HoverContents::Markup { kind, value } => {
            assert_eq!(MarkupKind::PlainText, kind);
            assert_eq!("Plain Content\nPlain Jane", value);
        }
        other => panic!("unexpected {other:?}"),
    }
    match get_hover_response(5).unwrap().contents {
        HoverContents::Array(v) => assert_eq!(3, v.len()),
        other => panic!("unexpected {other:?}"),
    }
    assert!(get_hover_response(7).is_none());
}

#[test]
fn formatting_highlight_and_diagnostic_fixtures() {
    let edits = lspresso_shot::edits::get_formatting_response(3).unwrap();
    assert_eq!(3, edits.len());
    assert_eq!("new_text 3", edits[2].new_text);
    assert_eq!(lspresso_shot::types::Position::new(9, 10), edits[2].range.start);
    assert!(lspresso_shot::edits::get_formatting_response(0).unwrap().is_empty());
    assert!(lspresso_shot::edits::get_formatting_response(4).is_none());
    let h = lspresso_shot::fixtures::get_document_highlight_response(3).unwrap();
    assert_eq!(None, h[0].kind);
    assert_eq!(Some(1), h[1].kind);
    assert!(lspresso_shot::fixtures::get_document_highlight_response(4).is_none());
    let p = lspresso_shot::diagnostics::get_publish_diagnostics_response(2, "file:///x/main.rs").unwrap();
    assert_eq!("file:///x/main.rs", p.uri);
    assert_eq!(2, p.diagnostics.len());
    assert_eq!(
        "file:///x/main.rs",
        p.diagnostics[1].related_information.as_ref().unwrap()[0].location.uri
    );
    assert_eq!(Some("main.dummy".to_string()), p.diagnostics[1].code_description);
    let w = lspresso_shot::diagnostics::get_workspace_diagnostics_response(3, "file:///x/main.rs").unwrap();
    assert_eq!(2, w.items.len());
    match &w.items[1] {
        lspresso_shot::diagnostics::WorkspaceDocumentReport::Unchanged { result_id, version, .. } => {
            assert_eq!("result_id", result_id);
            assert_eq!(Some(0), *version);
        }
        other => panic!("unexpected {other:?}"),
    }
    assert!(lspresso_shot::diagnostics::get_workspace_diagnostics_response(4, "u").is_none());
}

#[test]
fn moniker_folding_and_selection_fixtures() {
    let m = lspresso_shot::fixtures::get_moniker_response(3).unwrap();
    assert_eq!("scheme1", m[0].scheme);
    assert_eq!("identifier2", m[1].identifier);
    assert_eq!(lspresso_shot::fixtures::UniquenessLevel::Project, m[1].unique);
    assert_eq!(Some(lspresso_shot::fixtures::MonikerKind::Export), m[0].kind);
    assert!(lspresso_shot::fixtures::get_moniker_response(4).is_none());
    let f = lspresso_shot::fixtures::get_folding_range_response(4).unwrap();
    assert_eq!(3, f.len());
    assert_eq!(Some(5), f[1].end_character);
    assert_eq!(Some("collapsed text".to_string()), f[2].collapsed_text);
    assert_eq!(Some(lspresso_shot::fixtures::FoldingRangeKind::Comment), f[2].kind);
    assert!(lspresso_shot::fixtures::get_folding_range_response(5).is_none());
    let s = lspresso_shot::fixtures::get_selection_range_response(3).unwrap();
    assert!(s[0].parent.is_none());
    assert_eq!(s[0].range, s[1].parent.as_ref().unwrap().range);
    assert_eq!(lspresso_shot::types::Position::new(5, 6), s[1].range.start);
    assert!(lspresso_shot::fixtures::get_selection_range_response(4).is_none());
}

#[test]
#[allow(deprecated)]
fn document_symbol_fixture_is_the_protocol_json() {
    let symbol = lsp_types::DocumentSymbol {
        name: "symbol name 2".to_string(),
        detail: Some("detail".to_string()),
        kind: lsp_types::SymbolKind::FUNCTION,
        tags: Some(vec![lsp_types::SymbolTag::DEPRECATED]),
        deprecated: Some(true),
        range: lsp_types::Range { start: lsp_types::Position::new(4, 5), end: lsp_types::Position::new(6, 7) },
        selection_range: lsp_types::Range { start: lsp_types::Position::new(5, 6), end: lsp_types::Position::new(7, 8) },
        children: Some(vec![]),
    };
    let expected = serde_json::to_value(&symbol).unwrap().to_string();
    match lspresso_shot::fixtures::get_document_symbol_response(3).unwrap() {
        lspresso_shot::responses::DocumentSymbolResponse::Nested(v) => assert_eq!(expected, render_json(&v[0])),
        other => panic!("unexpected {other:?}"),
    }
    match lspresso_shot::fixtures::get_document_symbol_response(2).unwrap() {
        lspresso_shot::responses::DocumentSymbolResponse::Flat(v) => {
            assert_eq!("container name 1", v[0].container_name.as_ref().unwrap());
            assert_eq!("main.dummy", v[0].location.uri);
        }
        other => panic!("unexpected {other:?}"),
    }
    assert!(lspresso_shot::fixtures::get_document_symbol_response(4).is_none());
}

#[test]
fn completion_resolve_fixtures_are_the_protocol_items() {
    let j = lspresso_shot::fixtures::get_completion_resolve_response(1).unwrap();
    assert_eq!(serde_json::to_value(protocol_item("2")).unwrap().to_string(), render_json(&j));
    assert!(lspresso_shot::fixtures::get_completion_resolve_response(2).is_none());
}

#[test]
fn signature_help_fixtures() {
    use_signature_help();
}

fn use_signature_help() {
    let h = lspresso_shot::signature::get_signature_help_response(3).unwrap();
    assert_eq!(1, h.signatures.len());
    assert_eq!("label3", h.signatures[0].label);
    match &h.signatures[0].parameters.as_ref().unwrap()[0].label {
        lspresso_shot::signature::ParameterLabel::Simple(l) => assert_eq!("label", l),
        other => panic!("unexpected {other:?}"),
    }
    assert_eq!(Some(0), h.signatures[0].active_parameter);
    assert!(lspresso_shot::signature::get_signature_help_response(0).unwrap().signatures.is_empty());
    assert!(lspresso_shot::signature::get_signature_help_response(4).is_none());
}

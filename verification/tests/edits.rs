use lspresso_shot::edits::{
    get_rename_response, ChangeAnnotation, DocumentChange, DocumentChanges, ResourceOp, TextDocumentEdit, TextEdit,
    WorkspaceEdit,
};
use lspresso_shot::types::{Position, Range, TestSetupError};

const ROOT: &str = "/tmp/lspresso-shot/42/src/";

fn edit(text: &str) -> TextEdit {
    TextEdit {
        range: Range { start: Position::new(0, 1), end: Position::new(0, 2) },
        new_text: text.to_string(),
        annotation_id: None,
    }
}

fn doc(uri: &str) -> TextDocumentEdit {
    TextDocumentEdit { uri: uri.to_string(), version: Some(3), edits: vec![edit("x")] }
}

#[test]
fn cleaning_an_edit_strips_every_uri() {
    let w = WorkspaceEdit {
        changes: Some(vec![("file:///tmp/lspresso-shot/42/src/a.rs".to_string(), vec![edit("a")])]),
        document_changes: Some(DocumentChanges::Operations(vec![
            DocumentChange::Edit(doc("file:///tmp/lspresso-shot/42/src/b.rs")),
            DocumentChange::Op(ResourceOp::Rename {
                old_uri: "file:///tmp/lspresso-shot/42/src/c.rs".to_string(),
                new_uri: "file:///tmp/lspresso-shot/42/src/d.rs".to_string(),
                options: None,
                annotation_id: Some("id".to_string()),
            }),
        ])),
        change_annotations: Some(vec![(
            "id".to_string(),
            ChangeAnnotation { label: "l".to_string(), needs_confirmation: None, description: None },
        )]),
    };
    let c = w.clean_response(ROOT).unwrap();
    let changes = c.changes.unwrap();
    assert_eq!("a.rs", changes[0].0);
    assert_eq!("a", changes[0].1[0].new_text);
    match c.document_changes.unwrap() {
        DocumentChanges::Operations(ops) => {
            match &ops[0] {
                DocumentChange::Edit(d) => {
                    assert_eq!("b.rs", d.uri);
                    assert_eq!(Some(3), d.version);
                }
                other => panic!("unexpected {other:?}"),
            }
            match &ops[1] {
                DocumentChange::Op(ResourceOp::Rename { old_uri, new_uri, annotation_id, .. }) => {
                    assert_eq!("c.rs", old_uri);
                    assert_eq!("d.rs", new_uri);
                    assert_eq!(Some("id".to_string()), *annotation_id);
                }
                other => panic!("unexpected {other:?}"),
            }
        }
        other => panic!("unexpected {other:?}"),
    }
    assert_eq!("l", c.change_annotations.unwrap()[0].1.label);
}

#[test]
fn the_first_uri_that_does_not_parse_is_the_error() {
    let w = WorkspaceEdit {
        changes: None,
        document_changes: Some(DocumentChanges::Edits(vec![doc("not a uri"), doc("also not")])),
        change_annotations: None,
    };
    match w.clean_response(ROOT) {
        Err(TestSetupError::InvalidFilePath(p)) => assert_eq!("not a uri", p),
        other => panic!("unexpected {other:?}"),
    }
}

#[test]
fn rename_fixtures() {
    let w = get_rename_response(1).unwrap();
    let changes = w.changes.unwrap();
    assert_eq!("main.dummy", changes[0].0);
    assert_eq!("new_text", changes[0].1[0].new_text);
    assert_eq!(Position::new(3, 4), changes[0].1[0].range.end);
    match get_rename_response(2).unwrap().document_changes.unwrap() {
        DocumentChanges::Edits(v) => {
            assert_eq!("main.dummy", v[0].uri);
            assert_eq!(None, v[0].version);
            assert!(v[0].edits.is_empty());
        }
        other => panic!("unexpected {other:?}"),
    }
    assert_eq!("label", get_rename_response(4).unwrap().change_annotations.unwrap()[0].1.label);
    assert!(get_rename_response(5).unwrap().change_annotations.unwrap().is_empty());
    assert!(get_rename_response(6).is_none());
}

#[test]
fn cleaning_diagnostics_strips_related_locations() {
    let d = lspresso_shot::diagnostics::get_diagnostic_response(4, "file:///tmp/lspresso-shot/42/src/main.rs").unwrap();
    match d {
        lspresso_shot::diagnostics::DocumentDiagnosticReport::Full { items, related_documents, result_id } => {
            assert_eq!(2, items.len());
            assert!(related_documents.is_none());
            assert!(result_id.is_none());
            assert_eq!("main.dummy", items[0].related_information.as_ref().unwrap()[0].location.uri);
        }
        other => panic!("unexpected {other:?}"),
    }
    let mut items = match lspresso_shot::diagnostics::get_diagnostic_response(2, "x").unwrap() {
        lspresso_shot::diagnostics::DocumentDiagnosticReport::Full { items, .. } => items,
        other => panic!("unexpected {other:?}"),
    };
    items[0].related_information.as_mut().unwrap()[0].location.uri =
        "file:///tmp/lspresso-shot/42/src/lib.rs".to_string();
    let cleaned = lspresso_shot::diagnostics::clean_diagnostics(items, ROOT).unwrap();
    assert_eq!("lib.rs", cleaned[0].related_information.as_ref().unwrap()[0].location.uri);
    assert_eq!("message", cleaned[0].message);
}

#[test]
fn cleaning_a_report_strips_related_document_uris() {
    let r = lspresso_shot::diagnostics::get_diagnostic_response(1, "file:///tmp/lspresso-shot/42/src/main.rs").unwrap();
    match r.clean_response(ROOT).unwrap() {
        lspresso_shot::diagnostics::DocumentDiagnosticReport::Full { related_documents, .. } => {
            let docs = related_documents.unwrap();
            assert_eq!("main.rs", docs[0].0);
        }
        other => panic!("unexpected {other:?}"),
    }
    assert!(lspresso_shot::diagnostics::get_diagnostic_response(5, "x").is_none());
}

#[test]
fn cleaning_a_workspace_report_strips_document_and_related_uris() {
    use_workspace_report();
}

fn use_workspace_report() {
    let items = match lspresso_shot::diagnostics::get_diagnostic_response(2, "x").unwrap() {
        lspresso_shot::diagnostics::DocumentDiagnosticReport::Full { items, .. } => items,
        other => panic!("unexpected {other:?}"),
    };
    let report = lspresso_shot::diagnostics::WorkspaceDiagnosticReport {
        items: vec![
            lspresso_shot::diagnostics::WorkspaceDocumentReport::Unchanged {
                uri: "file:///tmp/lspresso-shot/42/src/a.rs".to_string(),
                version: Some(2),
                result_id: "r".to_string(),
            },
            lspresso_shot::diagnostics::WorkspaceDocumentReport::Full {
                uri: "file:///tmp/lspresso-shot/42/src/b.rs".to_string(),
                version: None,
                result_id: None,
                items,
            },
        ],
    };
    let cleaned = report.clean_response(ROOT).unwrap();
    match &cleaned.items[0] {
        lspresso_shot::diagnostics::WorkspaceDocumentReport::Unchanged { uri, version, .. } => {
            assert_eq!("a.rs", uri);
            assert_eq!(Some(2), *version);
        }
        other => panic!("unexpected {other:?}"),
    }
    match &cleaned.items[1] {
        lspresso_shot::diagnostics::WorkspaceDocumentReport::Full { uri, items, .. } => {
            assert_eq!("b.rs", uri);
            assert_eq!(1, items.len());
        }
        other => panic!("unexpected {other:?}"),
    }
}

#[test]
fn cleaning_a_report_strips_uris_in_its_diagnostics() {
    let mut r = lspresso_shot::diagnostics::get_diagnostic_response(1, "file:///tmp/lspresso-shot/42/src/main.rs").unwrap();
    if let lspresso_shot::diagnostics::DocumentDiagnosticReport::Full { items, related_documents, .. } = &mut r {
        *items = match lspresso_shot::diagnostics::get_diagnostic_response(2, "x").unwrap() {
            lspresso_shot::diagnostics::DocumentDiagnosticReport::Full { items, .. } => items,
            other => panic!("unexpected {other:?}"),
        };
        items[0].related_information.as_mut().unwrap()[0].location.uri =
            "file:///tmp/lspresso-shot/42/src/lib.rs".to_string();
        if let lspresso_shot::diagnostics::ReportKind::Full { items, .. } = &mut related_documents.as_mut().unwrap()[0].1 {
            items[0].related_information.as_mut().unwrap()[0].location.uri =
                "file:///tmp/lspresso-shot/42/src/other.rs".to_string();
        }
    }
    match r.clean_response(ROOT).unwrap() {
        lspresso_shot::diagnostics::DocumentDiagnosticReport::Full { items, related_documents, .. } => {
            assert_eq!("lib.rs", items[0].related_information.as_ref().unwrap()[0].location.uri);
            let docs = related_documents.unwrap();
            assert_eq!("main.rs", docs[0].0);
            match &docs[0].1 {
                lspresso_shot::diagnostics::ReportKind::Full { items, .. } => {
                    assert_eq!("other.rs", items[0].related_information.as_ref().unwrap()[0].location.uri)
                }
                other => panic!("unexpected {other:?}"),
            }
        }
        other => panic!("unexpected {other:?}"),
    }
}

#[test]
fn link_and_lens_fixtures_and_link_cleaning() {
    let links = lspresso_shot::links::get_document_link_response(4).unwrap();
    assert_eq!(3, links.len());
    assert!(links[0].target.is_none());
    assert_eq!(Some("main.dummy".to_string()), links[1].target);
    assert_eq!(Some("tooltip".to_string()), links[2].tooltip);
    let mut l = lspresso_shot::links::get_document_link_resolve_response(1).unwrap();
    l.target = Some("file:///tmp/lspresso-shot/42/src/x.rs".to_string());
    let cleaned = lspresso_shot::links::clean_links(vec![l], ROOT).unwrap();
    assert_eq!(Some("x.rs".to_string()), cleaned[0].target);
    let mut bad = lspresso_shot::links::get_document_link_resolve_response(1).unwrap();
    bad.target = Some("not a uri".to_string());
    match lspresso_shot::links::clean_links(vec![bad], ROOT) {
        Err(TestSetupError::InvalidFilePath(p)) => assert_eq!("not a uri", p),
        other => panic!("unexpected {other:?}"),
    }
    assert!(lspresso_shot::links::get_document_link_resolve_response(3).is_none());
    let lenses = lspresso_shot::links::get_code_lens_response(3).unwrap();
    assert!(lenses[0].command.is_none());
    assert_eq!("title", lenses[1].command.as_ref().unwrap().title);
    assert!(lspresso_shot::links::get_code_lens_resolve_response(2).is_none());
}

#[test]
fn call_fixtures_and_cleaning() {
    let items = lspresso_shot::calls::get_prepare_call_hierachy_response(3).unwrap();
    assert_eq!("detail2\nmore details", items[1].detail.as_ref().unwrap());
    assert_eq!(lspresso_shot::types::Position::new(13, 14), items[1].selection_range.start);
    let calls = lspresso_shot::calls::get_incoming_calls_response(3).unwrap();
    assert_eq!("name2", calls[1].item.name);
    assert_eq!(1, calls[1].from_ranges.len());
    assert!(lspresso_shot::calls::get_outgoing_calls_response(4).is_none());
    let mut calls = lspresso_shot::calls::get_outgoing_calls_response(1).unwrap();
    calls[0].item.uri = "file:///tmp/lspresso-shot/42/src/m.rs".to_string();
    let cleaned = lspresso_shot::calls::clean_hierarchy_calls(calls, ROOT).unwrap();
    assert_eq!("m.rs", cleaned[0].item.uri);
    let mut items = lspresso_shot::calls::get_prepare_call_hierachy_response(1).unwrap();
    items[0].uri = "nope nope".to_string();
    match lspresso_shot::calls::clean_hierarchy_items(items, ROOT) {
        Err(TestSetupError::InvalidFilePath(p)) => assert_eq!("nope nope", p),
        other => panic!("unexpected {other:?}"),
    }
}

use lspresso_shot::lua::{LuaDocumentReplacement, LuaReplacement};
use lspresso_shot::requests::Request;
use lspresso_shot::test_type::TestType;
use lspresso_shot::types::{Position, Range};

fn params_of(r: &Request) -> (String, Vec<(String, String)>) {
    let d = LuaDocumentReplacement::new(&r.replacements());
    (d.params, d.raw)
}

#[test]
fn hover_sends_document_and_position() {
    let r = Request::Hover { pos: Position::new(1, 2) };
    assert_eq!(TestType::Hover, r.test_type());
    let repls = r.replacements();
    assert_eq!(2, repls.len());
    assert!(matches!(repls[0], LuaReplacement::ParamTextDocument));
    assert!(matches!(
        repls[1],
        LuaReplacement::ParamPosition { pos: Position { line: 1, character: 2 }, name: None }
    ));
}

#[test]
fn rename_quotes_the_new_name() {
    let r = Request::Rename {
        pos: Position::new(0, 0),
        new_name: "ba\"r".to_string(),
    };
    match &r.replacements()[2] {
        LuaReplacement::ParamDirect { name, json } => {
            assert_eq!("newName", name);
            assert_eq!("\"ba\\\"r\"", json);
        }
        other => panic!("unexpected {other:?}"),
    }
}

#[test]
fn diagnostic_uses_null_for_missing_ids() {
    let r = Request::Diagnostic {
        identifier: None,
        previous_result_id: Some("id1".to_string()),
    };
    let (params, raw) = params_of(&r);
    assert!(raw.is_empty());
    assert!(params.contains("local identifier_json = [[\nnull\n]]"));
    assert!(params.contains("local previousResultId_json = [[\n\"id1\"\n]]"));
}

#[test]
fn references_nest_include_declaration() {
    let r = Request::References {
        pos: Position::new(3, 4),
        include_declaration: true,
    };
    let (params, _) = params_of(&r);
    assert!(params.contains("\tlocal context = {}\n"));
    assert!(params.contains("local includeDeclaration_json = [[\ntrue\n]]"));
}

#[test]
fn formatting_state_invokes_the_formatter() {
    let r = Request::FormattingState {
        options_json: "{}".to_string(),
    };
    assert_eq!(TestType::Formatting, r.test_type());
    let (_, raw) = params_of(&r);
    assert_eq!(
        vec![
            ("INVOKE_ACTION".to_string(), "true".to_string()),
            ("INVOKE_FN".to_string(), "vim.lsp.buf.format".to_string()),
        ],
        raw
    );
}

#[test]
fn code_lens_advertises_commands() {
    let r = Request::CodeLens {
        commands: Some(vec!["rust-analyzer.runSingle".to_string()]),
    };
    let (_, raw) = params_of(&r);
    assert_eq!(
        vec![("COMMANDS".to_string(), "\"rust-analyzer.runSingle\",\n".to_string())],
        raw
    );
}

#[test]
fn completion_resolve_destructures_every_item_field() {
    let r = Request::CompletionResolve {
        completion_item_json: "{\"label\":\"x\"}".to_string(),
    };
    match &r.replacements()[0] {
        LuaReplacement::ParamDestructure { name, fields, .. } => {
            assert_eq!("completion_item", name);
            assert_eq!(19, fields.len());
            assert_eq!("label", fields[0]);
            assert_eq!("data", fields[18]);
        }
        other => panic!("unexpected {other:?}"),
    }
}

#[test]
fn publish_diagnostics_has_no_parameters() {
    assert!(Request::PublishDiagnostics.replacements().is_empty());
    let r = Request::SemanticTokensRange {
        range: Range {
            start: Position::new(0, 0),
            end: Position::new(1, 0),
        },
    };
    assert_eq!(TestType::SemanticTokensRange, r.test_type());
}

#[test]
fn execute_command_ends_with_no_action() {
    let r = Request::WorkspaceExecuteCommand {
        commands: None,
        command: "run".to_string(),
        arguments_json: None,
    };
    let (params, raw) = params_of(&r);
    assert_eq!(
        vec![
            ("COMMANDS".to_string(), String::new()),
            ("INVOKE_ACTION".to_string(), "false".to_string()),
        ],
        raw
    );
    assert!(params.contains("local command_json = [[\n\"run\"\n]]"));
    assert!(params.contains("local arguments_json = [[\nnull\n]]"));
}

#[test]
fn no_parameter_is_assigned_twice() {
    let requests = vec![
        Request::CompletionResolve { completion_item_json: "{}".to_string() },
        Request::CodeActionResolve { code_action_json: "{}".to_string() },
        Request::OnTypeFormatting {
            pos: Position::new(1, 1),
            character: "}".to_string(),
            options_json: "{}".to_string(),
        },
        Request::References { pos: Position::new(0, 0), include_declaration: false },
        Request::WorkspaceSymbolResolve { symbol_json: "{}".to_string() },
    ];
    for r in &requests {
        let (params, _) = params_of(r);
        let mut names: Vec<&str> = params
            .lines()
            .filter_map(|l| l.strip_prefix("\tassert(not params['"))
            .map(|rest| rest.split('\'').next().unwrap())
            .collect();
        let total = names.len();
        names.sort_unstable();
        names.dedup();
        assert_eq!(total, names.len());
        assert!(total > 0);
    }
}

use lspresso_shot::lua::{LuaDocumentReplacement, LuaReplacement};
use lspresso_shot::types::{Position, Range};

#[test]
fn text_document_param() {
    let replacements = vec![LuaReplacement::ParamTextDocument];
    let doc_repl = LuaDocumentReplacement::new(&replacements);
    let expected = "\tassert(not params['textDocument'], \"params['textDocument'] already set\")
\tparams['textDocument'] = vim.lsp.util.make_text_document_params(0)\n";
    assert_eq!(expected, doc_repl.params);
    assert!(doc_repl.raw.is_empty());
}

#[test]
fn position_param() {
    let replacements = vec![LuaReplacement::ParamPosition {
        pos: Position {
            line: 1,
            character: 2,
        },
        name: None,
    }];
    let doc_repl = LuaDocumentReplacement::new(&replacements);
    let expected = "\tassert(not params['position'], \"params['position'] already set\")
\tparams['position'] = { line = 1, character = 2 }\n";
    assert_eq!(expected, doc_repl.params);
    assert!(doc_repl.raw.is_empty());
}

#[test]
fn range_param() {
    let replacements = vec![LuaReplacement::ParamRange(Range {
        start: Position::new(1, 2),
        end: Position::new(3, 4),
    })];
    let doc_repl = LuaDocumentReplacement::new(&replacements);
    let expected = "\tassert(not params['range'], \"params['range'] already set\")
\tlocal range = {}\n\tassert(not range['start'], \"range['start'] already set\")
\trange['start'] = { line = 1, character = 2 }
\tassert(not range['end'], \"range['end'] already set\")
\trange['end'] = { line = 3, character = 4 }
\tparams['range'] = range\n";
    assert_eq!(expected, doc_repl.params);
    assert!(doc_repl.raw.is_empty());
}

#[test]
fn param_direct() {
    let position = lsp_types::Position::new(1, 2);
    let position_json = serde_json::to_string(&position).expect("Failed to serialize position");
    let replacements = vec![LuaReplacement::ParamDirect {
        name: "position".to_string(),
        json: position_json.clone(),
    }];
    let doc_repl = LuaDocumentReplacement::new(&replacements);
    let expected = format!(
        "\tlocal position_json = [[\n{position_json}\n]]
\tassert(not params['position'], \"params['position'] already set\")
\tparams['position'] = vim.json.decode(position_json)\n"
    );
    assert_eq!(expected, doc_repl.params);
    assert!(doc_repl.raw.is_empty());
}

#[test]
fn param_destructure() {
    let code_lens = lsp_types::CodeLens {
        range: lsp_types::Range::default(),
        command: None,
        data: None,
    };
    let code_lens_json = serde_json::to_string(&code_lens).expect("Failed to serialize code lens");
    let replacements = vec![LuaReplacement::ParamDestructure {
        name: "code_lens".to_string(),
        fields: vec!["range".to_string(), "data".to_string(), "command".to_string()],
        json: code_lens_json.clone(),
    }];
    let doc_repl = LuaDocumentReplacement::new(&replacements);
    let expected = format!(
        "\tlocal code_lens_json = [[\n{code_lens_json}\n]]
\tlocal code_lens = vim.json.decode(code_lens_json)
\tassert(not params['range'], \"params['range'] already set\")
\tparams['range'] = code_lens['range']
\tassert(not params['data'], \"params['data'] already set\")
\tparams['data'] = code_lens['data']
\tassert(not params['command'], \"params['command'] already set\")
\tparams['command'] = code_lens['command']\n"
    );
    assert_eq!(expected, doc_repl.params);
    assert!(doc_repl.raw.is_empty());
}

#[test]
fn param_nested() {
    let include_decl_json = serde_json::to_string_pretty(&true)
        .expect("JSON deserialzation of include declaration failed");
    let replacements = vec![LuaReplacement::ParamNested {
        name: "context".to_string(),
        fields: vec![LuaReplacement::ParamDirect {
            name: "includeDeclaration".to_string(),
            json: include_decl_json.clone(),
        }],
    }];
    let doc_repl = LuaDocumentReplacement::new(&replacements);
    let expected = format!(
        "\tassert(not params['context'], \"params['context'] already set\")
\tlocal context = {{}}
\tlocal includeDeclaration_json = [[\n{include_decl_json}\n]]
\tassert(not context['includeDeclaration'], \"context['includeDeclaration'] already set\")
\tcontext['includeDeclaration'] = vim.json.decode(includeDeclaration_json)
\tparams['context'] = context\n"
    );
    assert_eq!(expected, doc_repl.params);
    assert!(doc_repl.raw.is_empty());
}

#[test]
fn other() {
    let command_str = "\"rust-analyzer.runSingle\",
\"rust-analyzer.debugSingle\",
\"rust-analyzer.showReferences\",
\"rust-analyzer.gotoLocation\",
";
    let replacements = vec![LuaReplacement::Other {
        from: "commands".to_string(),
        to: command_str.to_string(),
    }];
    let doc_repl = LuaDocumentReplacement::new(&replacements);
    assert!(doc_repl.params.is_empty());
    assert_eq!(1, doc_repl.raw.len());
    let raw = doc_repl.raw.first().unwrap();
    assert_eq!("commands", raw.0);
    assert_eq!(command_str, raw.1);
}

#[test]
fn fill_document_applies_raw_then_params() {
    let replacements = vec![
        LuaReplacement::ParamTextDocument,
        LuaReplacement::Other {
            from: "NAME".to_string(),
            to: "x".to_string(),
        },
    ];
    let doc_repl = LuaDocumentReplacement::new(&replacements);
    let filled = doc_repl.fill_document("-- NAME NAME\nPARAM_ASSIGN".to_string());
    assert_eq!(
        "-- x x\n\tassert(not params['textDocument'], \"params['textDocument'] already set\")\n\tparams['textDocument'] = vim.lsp.util.make_text_document_params(0)\n",
        filled
    );
}

#[test]
fn named_position_param() {
    let replacements = vec![LuaReplacement::ParamPosition {
        pos: Position::new(7, 0),
        name: Some("cursor".to_string()),
    }];
    let doc_repl = LuaDocumentReplacement::new(&replacements);
    assert_eq!(
        "\tassert(not params['cursor'], \"params['cursor'] already set\")\n\tparams['cursor'] = { line = 7, character = 0 }\n",
        doc_repl.params
    );
}

#[test]
fn progress_action_ignores_the_threshold() {
    let a = lspresso_shot::lua::invoke_lsp_action(&lspresso_shot::types::ServerStartType::Progress(1, "rustAnalyzer/Indexing".to_string()));
    let b = lspresso_shot::lua::invoke_lsp_action(&lspresso_shot::types::ServerStartType::Progress(7, "rustAnalyzer/Indexing".to_string()));
    assert_eq!(a, b);
    assert!(a.contains("result.token == \"rustAnalyzer/Indexing\""));
    assert!(a.contains("result.value.kind == \"end\""));
    assert!(!a.contains("qa!"));
}

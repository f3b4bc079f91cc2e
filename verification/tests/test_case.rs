use lspresso_shot::lua::{
    commands_string, get_init_dot_lua, get_standard_replacements, invoke_lsp_action, progress_threshold,
    LuaReplacement, LuaTemplates, TestPaths,
};
use lspresso_shot::test_case::TestCase;
use lspresso_shot::test_type::TestType;
use lspresso_shot::types::{Position, ServerStartType, TestFile, TestSetupError};

fn case() -> TestCase {
    TestCase::new("rust-analyzer", TestFile::new("src/main.rs", "fn main() {}"), None).unwrap()
}

#[test]
fn new_test_case_defaults() {
    let tc = case();
    assert_eq!("rust-analyzer", tc.executable_path);
    assert_eq!("nvim", tc.nvim_path);
    assert_eq!(None, tc.cursor_pos);
    assert!(tc.other_files.is_empty());
    assert_eq!(ServerStartType::Simple, tc.start_type);
    assert_eq!(1_000_000_000, tc.timeout_ns);
    assert!(!tc.cleanup);
    assert!(!tc.test_id.is_empty());
    assert!(tc.test_id.chars().all(|c| c.is_ascii_digit()));
}

#[test]
fn nvim_setting_overrides_default() {
    let tc = TestCase::new(
        "srv",
        TestFile::new("main.rs", ""),
        Some("/opt/nvim/bin/nvim".to_string()),
    )
    .unwrap();
    assert_eq!("/opt/nvim/bin/nvim", tc.nvim_path);
}

#[test]
fn test_ids_are_fresh() {
    let a = case();
    let b = case();
    let c = case();
    assert!(a.test_id != b.test_id || b.test_id != c.test_id);
}

#[test]
fn builders_set_one_field() {
    let tc = case()
        .cursor_pos(Some(Position::new(3, 4)))
        .timeout(20_000_000_500)
        .cleanup(true)
        .nvim_path("/usr/bin/nvim")
        .exeutable_path("/usr/bin/srv")
        .start_type(ServerStartType::Progress(1, "tok".to_string()))
        .other_file(TestFile::new("Cargo.toml", "[package]"))
        .source_file(TestFile::new("src/lib.rs", "pub fn f() {}"));
    assert_eq!(Some(Position::new(3, 4)), tc.cursor_pos);
    assert_eq!(20_000_000_500, tc.timeout_ns);
    assert!(tc.cleanup);
    assert_eq!("/usr/bin/nvim", tc.nvim_path);
    assert_eq!("/usr/bin/srv", tc.executable_path);
    assert_eq!(ServerStartType::Progress(1, "tok".to_string()), tc.start_type);
    assert_eq!(1, tc.other_files.len());
    assert_eq!("Cargo.toml", tc.other_files[0].path);
    assert_eq!("src/lib.rs", tc.source_file.path);
}

#[test]
fn validate_reports_the_first_problem() {
    let tc = case();
    assert_eq!(
        Err(TestSetupError::InvalidNeovim("nvim".to_string())),
        tc.validate(false, false, "/tmp/x/src/")
    );
    assert_eq!(
        Err(TestSetupError::InvalidServerCommand("rust-analyzer".to_string())),
        tc.validate(true, false, "/tmp/x/src/")
    );
    assert_eq!(Ok(()), tc.validate(true, true, "/tmp/x/src/"));
    let bad = case().source_file(TestFile::new("/etc/passwd", ""));
    assert_eq!(
        Err(TestSetupError::InvalidFilePath("/etc/passwd".to_string())),
        bad.validate(true, true, "/tmp/x/src/")
    );
    let bad_other = case()
        .other_file(TestFile::new("ok.txt", ""))
        .other_file(TestFile::new("/abs.txt", ""))
        .other_file(TestFile::new("/abs2.txt", ""));
    assert_eq!(
        Err(TestSetupError::InvalidFilePath("/abs.txt".to_string())),
        bad_other.validate(true, true, "/tmp/x/src/")
    );
}

#[test]
fn test_paths_lie_in_the_test_directory() {
    let p = TestPaths::new("/tmp", "123");
    assert_eq!("/tmp/lspresso-shot/123", p.root);
    assert_eq!("/tmp/lspresso-shot/123/results.json", p.results);
    assert_eq!("/tmp/lspresso-shot/123/error.txt", p.error);
    assert_eq!("/tmp/lspresso-shot/123/log.txt", p.log);
    assert_eq!("/tmp/lspresso-shot/123/empty", p.empty);
    assert_eq!("/tmp/lspresso-shot/123/benchmark.txt", p.benchmark);
    assert_eq!("/tmp/lspresso-shot/123/src/", p.source_root);
    assert_eq!("/tmp/lspresso-shot/123/timeout.txt", p.timeout);
    assert_eq!("/tmp/lspresso-shot/123/init.lua", p.init_lua);
    assert_eq!("/tmp/lspresso-shot/123/src/src/main.rs", p.source_file("src/main.rs"));
}

#[test]
fn progress_threshold_and_action() {
    assert_eq!("1", progress_threshold(&ServerStartType::Simple));
    assert_eq!(
        "3",
        progress_threshold(&ServerStartType::Progress(3, "t".to_string()))
    );
    assert_eq!(
        "check_progress_result()\n                vim.cmd('qa!')",
        invoke_lsp_action(&ServerStartType::Simple)
    );
    let a = invoke_lsp_action(&ServerStartType::Progress(1, "rustAnalyzer/Indexing".to_string()));
    assert!(a.contains("result.token == \"rustAnalyzer/Indexing\""));
    assert!(a.starts_with("vim.lsp.handlers[\"$/progress\"]"));
}

#[test]
fn commands_are_quoted_one_per_line() {
    let cmds = vec!["a.run".to_string(), "b.debug".to_string()];
    assert_eq!("\"a.run\",\n\"b.debug\",\n", commands_string(Some(&cmds)));
    assert_eq!("", commands_string(None));
}

#[test]
fn standard_replacements_need_an_extension() {
    let paths = TestPaths::new("/tmp", "9");
    let tc = case().source_file(TestFile::new("Makefile", ""));
    match get_standard_replacements(&tc, TestType::Hover, &paths) {
        Err(TestSetupError::MissingFileExtension(p)) => assert_eq!("Makefile", p),
        other => panic!("unexpected {other:?}"),
    }
    let tc = case().timeout(2_500_999_999);
    let v = get_standard_replacements(&tc, TestType::Hover, &paths).unwrap();
    assert_eq!(14, v.len());
    let pairs: Vec<(String, String)> = v
        .iter()
        .map(|r| match r {
            LuaReplacement::Other { from, to } => (from.clone(), to.clone()),
            other => panic!("unexpected {other:?}"),
        })
        .collect();
    assert_eq!(("REQUEST_METHOD".to_string(), "textDocument/hover".to_string()), pairs[0]);
    assert_eq!(("FILE_EXTENSION".to_string(), "rs".to_string()), pairs[8]);
    assert_eq!(("TIMEOUT_MS".to_string(), "2500".to_string()), pairs[13]);
}

#[test]
fn init_dot_lua_fills_the_template() {
    let paths = TestPaths::new("/tmp", "5");
    let templates = LuaTemplates {
        helpers: "-- REQUEST_METHOD\n".to_string(),
        diagnostic_autocmd: "-- diag LSP_ACTION\n".to_string(),
        state_or_response_action: "-- state\n".to_string(),
        semantic_tokens_full_delta_action: "-- delta\n".to_string(),
        request_action: "PARAM_ASSIGN-- go LSP_ACTION\n".to_string(),
        attach: "-- FILE_EXTENSION TIMEOUT_MS\n".to_string(),
    };
    let tc = case();
    let mut repls = vec![LuaReplacement::ParamTextDocument];
    let doc = get_init_dot_lua(&tc, TestType::Hover, &mut repls, &paths, &templates).unwrap();
    assert_eq!(15, repls.len());
    assert_eq!(
        "-- textDocument/hover\n\tassert(not params['textDocument'], \"params['textDocument'] already set\")\n\tparams['textDocument'] = vim.lsp.util.make_text_document_params(0)\n-- go check_progress_result()\n                vim.cmd('qa!')\n-- rs 1000\n",
        doc
    );
    let mut none = Vec::new();
    let diag = get_init_dot_lua(&tc, TestType::PublishDiagnostics, &mut none, &paths, &templates).unwrap();
    assert_eq!("-- textDocument/publishDiagnostics\n-- diag \n-- rs 1000\n", diag);
}

#[test]
fn paths_that_climb_out_of_the_source_directory_are_rejected() {
    for bad in ["../escape.rs", "a/../../b.rs", "..", "./../x", "a/b/../../../c"] {
        let tc = case().source_file(TestFile::new(bad, ""));
        assert_eq!(
            Err(TestSetupError::InvalidFilePath(bad.to_string())),
            tc.validate(true, true, "/tmp/x/src/"),
            "{bad}"
        );
    }
    for good in ["a/../b.rs", "./x.rs", "a//b.rs", "a/b/../c.rs", "..x/y.rs"] {
        let tc = case().source_file(TestFile::new(good, ""));
        assert_eq!(Ok(()), tc.validate(true, true, "/tmp/x/src/"), "{good}");
    }
    let tc = case().other_file(TestFile::new("../../Cargo.toml", ""));
    assert_eq!(
        Err(TestSetupError::InvalidFilePath("../../Cargo.toml".to_string())),
        tc.validate(true, true, "/tmp/x/src/")
    );
}

#[test]
fn test_case_from_bits_reduces_the_bits_below_usize_max() {
    let tc = lspresso_shot::test_case::test_case_from_bits(12345, "srv", TestFile::new("main.rs", ""), None);
    assert_eq!("12345", tc.test_id);
    assert_eq!("srv", tc.executable_path);
    assert_eq!("nvim", tc.nvim_path);
    assert_eq!(1_000_000_000, tc.timeout_ns);
    let top = lspresso_shot::test_case::test_case_from_bits(u64::MAX, "srv", TestFile::new("main.rs", ""), Some("nv".to_string()));
    assert_eq!((u64::MAX % (usize::MAX as u64)).to_string(), top.test_id);
    assert_eq!("nv", top.nvim_path);
}

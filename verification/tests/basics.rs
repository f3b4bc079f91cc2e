use lspresso_shot::path::{executable_candidates, join_path, path_extension, path_file_name, split_paths};
use lspresso_shot::test_type::TestType;
use lspresso_shot::text::{decimal_string, repeat_str, replace_all, strip_prefix_str};
use lspresso_shot::types::{ServerStartType, TestExecutionError, TestFile, TestSetupError, TimeoutError};

#[test]
fn method_names_round_trip() {
    let all = [
        TestType::CodeAction,
        TestType::Completion,
        TestType::Hover,
        TestType::PublishDiagnostics,
        TestType::SemanticTokensFullDelta,
        TestType::WorkspaceWillRenameFiles,
    ];
    for t in all {
        assert_eq!(Some(t), TestType::from_method(t.method()));
    }
    assert_eq!("textDocument/hover", TestType::Hover.to_string());
    assert_eq!(
        "textDocument/semanticTokens/full/delta",
        TestType::SemanticTokensFullDelta.method()
    );
}

#[test]
fn unknown_method_has_no_test_type() {
    assert_eq!(None, TestType::from_method("textDocument/unknown"));
    assert_eq!(None, TestType::from_method(""));
}

#[test]
fn test_file_new_keeps_path_and_contents() {
    let f = TestFile::new("src/main.rs", "fn main() {}");
    assert_eq!("src/main.rs", f.path);
    assert_eq!("fn main() {}", f.contents);
}

#[test]
fn setup_error_messages() {
    assert_eq!(
        "Source file \"main\" must have an extension",
        TestSetupError::MissingFileExtension("main".to_string()).message()
    );
    assert_eq!(
        "The server command/path \"srv\" is not executable",
        TestSetupError::InvalidServerCommand("srv".to_string()).message()
    );
    assert_eq!(
        "The neovim command \"nvim\" is not executable",
        TestSetupError::InvalidNeovim("nvim".to_string()).message()
    );
    assert_eq!(
        "The extension of source file \"a.x\" is invalid",
        TestSetupError::InvalidFileExtension("a.x".to_string()).message()
    );
    assert_eq!(
        "Source file path \"/abs\" is invalid",
        TestSetupError::InvalidFilePath("/abs".to_string()).message()
    );
    assert_eq!(
        "Cursor position must be specified for textDocument/hover tests",
        TestSetupError::InvalidCursorPosition(TestType::Hover).message()
    );
    assert_eq!("disk full", TestSetupError::IO("disk full".to_string()).message());
}

#[test]
fn timeout_message_has_three_decimals() {
    let t = TimeoutError {
        test_id: "42".to_string(),
        timeout_ns: 1_500_000_000,
    };
    assert_eq!("Test 42: Test timout of 1.500s exceeded", t.message());
    let t = TimeoutError {
        test_id: "7".to_string(),
        timeout_ns: 20_005_000_000,
    };
    assert_eq!("Test 7: Test timout of 20.005s exceeded", t.message());
    let t = TimeoutError {
        test_id: "7".to_string(),
        timeout_ns: 30_000_000,
    };
    assert_eq!("Test 7: Test timout of 0.030s exceeded", t.message());
    let t = TimeoutError {
        test_id: "7".to_string(),
        timeout_ns: 1_500_400,
    };
    assert_eq!("Test 7: Test timout of 0.002s exceeded", t.message());
    assert_eq!(
        format!("Test 7: Test timout of {:.3}s exceeded", std::time::Duration::from_nanos(1_500_400).as_secs_f64()),
        t.message()
    );
    let t = TimeoutError {
        test_id: "7".to_string(),
        timeout_ns: 999_499_999,
    };
    assert_eq!("Test 7: Test timout of 0.999s exceeded", t.message());
}

#[test]
fn execution_error_messages() {
    assert_eq!(
        "Test 1: No results were written",
        TestExecutionError::NoResults("1".to_string()).message()
    );
    assert_eq!(
        "Test 1: Neovim Error\nboom",
        TestExecutionError::Neovim("1".to_string(), "boom".to_string()).message()
    );
    assert_eq!(
        "Test 1: IO Error\nx",
        TestExecutionError::IO("1".to_string(), "x".to_string()).message()
    );
    assert_eq!(
        "Test 1: UTF8 Error\nx",
        TestExecutionError::Utf8("1".to_string(), "x".to_string()).message()
    );
    assert_eq!(
        "Test 1: Serialization Error\nx",
        TestExecutionError::Serialization("1".to_string(), "x".to_string()).message()
    );
    let t = TimeoutError {
        test_id: "1".to_string(),
        timeout_ns: 2_000_000_000,
    };
    assert_eq!(
        "Test 1: Test timout of 2.000s exceeded",
        TestExecutionError::TimeoutExceeded(t).message()
    );
}

#[test]
fn text_helpers() {
    assert_eq!("a-b-c", replace_all("a b c", " ", "-"));
    assert_eq!("xaxbx", replace_all("ab", "", "x"));
    assert_eq!("18446744073709551615", decimal_string(u64::MAX));
    assert_eq!("0", decimal_string(0));
    assert_eq!("    ", repeat_str("  ", 2));
    assert_eq!(Some("bar".to_string()), strip_prefix_str("foobar", "foo"));
    assert_eq!(None, strip_prefix_str("foobar", "bar"));
}

#[test]
fn path_joining_follows_pathbuf_push() {
    assert_eq!("/tmp/x", join_path("/tmp", "x"));
    assert_eq!("/tmp/x", join_path("/tmp/", "x"));
    assert_eq!("/etc", join_path("/tmp", "/etc"));
    assert_eq!("x", join_path("", "x"));
    assert_eq!("/tmp/src/", join_path("/tmp/src", ""));
}

#[test]
fn path_names_and_extensions() {
    assert_eq!(Some("rs".to_string()), path_extension("src/main.rs"));
    assert_eq!(Some("gz".to_string()), path_extension("a.tar.gz"));
    assert_eq!(None, path_extension("Makefile"));
    assert_eq!(None, path_extension(".bashrc"));
    assert_eq!(Some("main.rs".to_string()), path_file_name("src/main.rs/"));
    assert_eq!(None, path_file_name("/"));
    assert_eq!(None, path_file_name("a/.."));
}

#[test]
fn path_lists_split_on_colons() {
    assert_eq!(vec!["/bin", "/usr/bin"], split_paths("/bin:/usr/bin"));
    assert_eq!(vec!["", "/bin", ""], split_paths(":/bin:"));
    assert_eq!(vec![""], split_paths(""));
}

#[test]
fn executable_candidates_try_the_command_then_each_path_entry() {
    assert_eq!(
        vec!["nvim", "/bin/nvim", "/usr/bin/nvim"],
        executable_candidates("nvim", "/bin:/usr/bin")
    );
    assert_eq!(
        vec!["/opt/srv", "/opt/srv"],
        executable_candidates("/opt/srv", "/bin")
    );
}

#[test]
fn progress_start_type_keeps_token() {
    let s = ServerStartType::Progress(2, "rustAnalyzer/Indexing".to_string());
    assert_eq!(
        ServerStartType::Progress(2, "rustAnalyzer/Indexing".to_string()),
        s.clone()
    );
}

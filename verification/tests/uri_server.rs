use lspresso_shot::server::{
    get_dummy_server_path, project_root_candidates, get_source_path, parse_response_num, response_num_text, ParseNumError,
};
use lspresso_shot::types::TestSetupError;
use lspresso_shot::uri::{clean_uri, get_root_test_path, root_test_path_of};

#[test]
fn clean_uri_strips_the_source_root() {
    assert_eq!(
        Ok("foo.rs".to_string()),
        clean_uri("file:///tmp/lspresso-shot/12/src/foo.rs", "/tmp/lspresso-shot/12/src/")
    );
    assert_eq!(
        Ok("/elsewhere/foo.rs".to_string()),
        clean_uri("file:///elsewhere/foo.rs", "/tmp/lspresso-shot/12/src/")
    );
}

#[test]
fn clean_uri_rejects_text_that_is_no_uri() {
    assert_eq!(
        Err(TestSetupError::InvalidFilePath("not a uri".to_string())),
        clean_uri("not a uri", "/tmp/")
    );
}

#[test]
fn root_test_path_of_a_uri() {
    assert_eq!(
        Some("/tmp/lspresso-shot/5382805252853875543".to_string()),
        get_root_test_path("file:///tmp/lspresso-shot/5382805252853875543/src/main.dummy")
    );
    assert_eq!(None, get_root_test_path("file:///tmp/other/1/src/main.dummy"));
    assert_eq!(None, root_test_path_of("/tmp/lspresso-shot/123"));
    assert_eq!(
        Some("/x/lspresso-shot/".to_string()),
        root_test_path_of("/x/lspresso-shot/a/b")
    );
}

#[test]
fn dummy_server_paths() {
    assert_eq!("main.dummy", get_source_path());
    assert_eq!(
        "/home/u/lspresso/target/debug/test-server",
        get_dummy_server_path("/home/u/lspresso")
    );
}

#[test]
fn response_numbers_parse_like_u32_from_str() {
    assert_eq!(Ok(0), parse_response_num("0"));
    assert_eq!(Ok(119), parse_response_num("119"));
    assert_eq!(Ok(7), parse_response_num("+7"));
    assert_eq!(Ok(u32::MAX), parse_response_num("4294967295"));
    assert_eq!(Err(ParseNumError::PosOverflow), parse_response_num("4294967296"));
    assert_eq!(Err(ParseNumError::Empty), parse_response_num(""));
    assert_eq!(Err(ParseNumError::InvalidDigit), parse_response_num("+"));
    assert_eq!(Err(ParseNumError::InvalidDigit), parse_response_num("-1"));
    assert_eq!(Err(ParseNumError::InvalidDigit), parse_response_num("12 "));
    assert_eq!(Err(ParseNumError::PosOverflow), parse_response_num("99999999999x"));
    for s in ["", "+", "-1", "12 ", "4294967296", "0", "+7", "00012"] {
        assert_eq!(s.parse::<u32>().ok(), parse_response_num(s).ok());
    }
}

#[test]
fn parse_error_messages_match_std() {
    assert_eq!("".parse::<u32>().unwrap_err().to_string(), ParseNumError::Empty.message());
    assert_eq!("x".parse::<u32>().unwrap_err().to_string(), ParseNumError::InvalidDigit.message());
    assert_eq!(
        "4294967296".parse::<u32>().unwrap_err().to_string(),
        ParseNumError::PosOverflow.message()
    );
}

#[test]
fn response_number_round_trip() {
    for n in [0u32, 1, 9, 10, 119, 4_000_000_000, u32::MAX] {
        let text = response_num_text(n);
        assert_eq!(n.to_string(), text);
        assert_eq!(Ok(n), parse_response_num(&text));
    }
}

#[test]
fn project_root_candidates_in_order() {
    let folders = vec!["file:///a/src".to_string(), "not a uri".to_string(), "file:///b".to_string()];
    assert_eq!(
        vec!["/a/src", "/b", "/c", "/d"],
        project_root_candidates(&folders, Some("file:///c"), Some("/d"))
    );
    assert!(project_root_candidates(&vec![], None, None).is_empty());
}

#[test]
fn the_root_found_from_a_source_file_uri_is_the_test_directory() {
    let paths = lspresso_shot::lua::TestPaths::new("/tmp", "5382805252853875543");
    let file = paths.source_file("nested/main.rs");
    let uri = format!("file://{file}");
    assert_eq!(Some(paths.root.clone()), lspresso_shot::uri::get_root_test_path(&uri));
}

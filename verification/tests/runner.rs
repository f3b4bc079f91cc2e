use lspresso_shot::json::JsonValue;
use lspresso_shot::runner::{
    after_deadline, benchmark_check, benchmark_continues, collect_verdict, default_match,
    on_child_status, within_deadline, BenchmarkError, ChildStatus, EndCondition, ResponseMismatchError,
    TestError,
};
use lspresso_shot::types::{TestExecutionError, TestSetupError, TimeoutError};

fn n(s: &str) -> JsonValue {
    JsonValue::Number(s.to_string())
}

#[test]
fn nothing_expected_and_nothing_answered_passes() {
    assert!(collect_verdict("1".to_string(), None, true, None, false).is_ok());
}

#[test]
fn missing_files_are_no_results() {
    match collect_verdict("7".to_string(), Some(n("1")), false, None, false) {
        Err(TestError::TestExecution(TestExecutionError::NoResults(id))) => assert_eq!("7", id),
        other => panic!("unexpected {other:?}"),
    }
}

#[test]
fn expected_something_but_got_nothing() {
    match collect_verdict("2".to_string(), Some(n("1")), true, None, true) {
        Err(TestError::ResponseMismatch(m)) => {
            assert_eq!("2", m.test_id);
            assert!(m.expected.is_some());
            assert!(m.actual.is_none());
            assert_eq!("Test 2: Expected valid results, got `None`", m.message());
        }
        other => panic!("unexpected {other:?}"),
    }
}

#[test]
fn expected_nothing_but_got_something() {
    match collect_verdict("3".to_string(), None, false, Some(Ok(n("5"))), true) {
        Err(TestError::ResponseMismatch(m)) => {
            assert!(m.expected.is_none());
            assert_eq!("Test 3: Expected `None`, got:\n5", m.message());
        }
        other => panic!("unexpected {other:?}"),
    }
}

#[test]
fn read_errors_are_passed_on() {
    let e = TestExecutionError::Serialization("4".to_string(), "bad json".to_string());
    match collect_verdict("4".to_string(), Some(n("1")), false, Some(Err(e.clone())), true) {
        Err(TestError::TestExecution(x)) => assert_eq!(e, x),
        other => panic!("unexpected {other:?}"),
    }
}

#[test]
fn matching_responses_pass_and_others_mismatch() {
    let e = n("1");
    let a = n("1");
    let same = default_match(&e, &a);
    assert!(same);
    assert!(collect_verdict("5".to_string(), Some(e), false, Some(Ok(a)), same).is_ok());
    let e = n("1");
    let a = n("2");
    let same = default_match(&e, &a);
    assert!(!same);
    match collect_verdict("5".to_string(), Some(e), false, Some(Ok(a)), same) {
        Err(TestError::ResponseMismatch(m)) => assert_eq!(
            "Test 5: Incorrect response:\n\u{1b}[31m  Response: \n    Expected: 1\n    Actual: 2\u{1b}[0m\n",
            m.message()
        ),
        other => panic!("unexpected {other:?}"),
    }
}

#[test]
fn test_error_messages_delegate() {
    let e = TestError::TestSetup(TestSetupError::IO("oops".to_string()));
    assert_eq!("oops", e.message());
    let m = TestError::ResponseMismatch(ResponseMismatchError {
        test_id: "9".to_string(),
        expected: None,
        actual: Some(JsonValue::Null),
    });
    assert_eq!("Test 9: Expected `None`, got:\nnull", m.message());
}

#[test]
fn deadline_includes_the_cushion() {
    assert!(within_deadline(1_000_000_000, 1_499_999_999));
    assert!(!within_deadline(1_000_000_000, 1_500_000_000));
    assert!(within_deadline(u128::MAX, u128::MAX - 1));
}

#[test]
fn child_status_decisions() {
    assert_eq!(None, on_child_status("1".to_string(), 1000, ChildStatus::Running, false));
    assert_eq!(Some(Ok(())), on_child_status("1".to_string(), 1000, ChildStatus::Exited, false));
    assert_eq!(
        Some(Err(TestExecutionError::TimeoutExceeded(TimeoutError {
            test_id: "1".to_string(),
            timeout_ns: 1000
        }))),
        on_child_status("1".to_string(), 1000, ChildStatus::Exited, true)
    );
    assert_eq!(
        Some(Err(TestExecutionError::Neovim("1".to_string(), "gone".to_string()))),
        on_child_status("1".to_string(), 1000, ChildStatus::Failed("gone".to_string()), false)
    );
}

#[test]
fn after_deadline_prefers_recorded_errors() {
    assert_eq!(
        TestExecutionError::Neovim("1".to_string(), "lua error".to_string()),
        after_deadline("1".to_string(), 50, Some("lua error".to_string()))
    );
    assert_eq!(
        TestExecutionError::TimeoutExceeded(TimeoutError {
            test_id: "1".to_string(),
            timeout_ns: 50
        }),
        after_deadline("1".to_string(), 50, None)
    );
}

#[test]
fn benchmarks_stop_early_only_when_failing_fast() {
    let setup = || Err(TestError::TestSetup(TestSetupError::IO("x".to_string())));
    assert_eq!(Ok(()), benchmark_check(setup(), false));
    assert_eq!(
        Err(BenchmarkError::TestSetup(TestSetupError::IO("x".to_string()))),
        benchmark_check(setup(), true)
    );
    let exec = Err(TestError::TestExecution(TestExecutionError::NoResults("1".to_string())));
    assert_eq!(
        Err(BenchmarkError::TestExecution(TestExecutionError::NoResults("1".to_string()))),
        benchmark_check(exec, true)
    );
    let mismatch = Err(TestError::ResponseMismatch(ResponseMismatchError {
        test_id: "1".to_string(),
        expected: None,
        actual: None,
    }));
    assert_eq!(Ok(()), benchmark_check(mismatch, true));
    assert_eq!(Ok(()), benchmark_check(Ok(()), true));
}

#[test]
fn benchmark_end_conditions() {
    assert!(benchmark_continues(EndCondition::Count(3), 0, 2));
    assert!(!benchmark_continues(EndCondition::Count(3), 0, 3));
    assert!(benchmark_continues(EndCondition::Time(100), 99, 1000));
    assert!(!benchmark_continues(EndCondition::Time(100), 100, 0));
}

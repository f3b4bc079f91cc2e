//! The decisions of a test run: what the files a run leaves mean, when the Neovim
//! process has had its time, and whether a benchmark goes on. The caller does the
//! work (runs Neovim, reads files, keeps the clock) and hands the facts in.
use vstd::prelude::*;

use crate::compare::{comparison, write_fields_comparison};
use crate::json::{clone_json, json_eq, json_same, json_view, keys_sorted, render, render_json, Json, JsonValue};
use crate::types::{
    concat3, execution_error_message, setup_error_message, TestExecutionError, TestSetupError,
    TimeoutError,
};

verus! {

/// The server's response differed from the expected one. Responses are held in their
/// JSON form; `None` stands for no response.
#[derive(Debug)]
pub struct ResponseMismatchError {
    pub test_id: String,
    pub expected: Option<JsonValue>,
    pub actual: Option<JsonValue>,
}

/// How a test can fail.
#[derive(Debug)]
pub enum TestError {
    ResponseMismatch(ResponseMismatchError),
    TestExecution(TestExecutionError),
    TestSetup(TestSetupError),
}

/// The JSON form of an optional response (`null` for none).
pub open spec fn json_or_null(v: Option<JsonValue>) -> Json {
    match v {
        Some(j) => json_view(j),
        None => Json::Null,
    }
}

/// Whether the responses of a mismatch hold their object members in sorted key order
/// (as serde_json's default map does; see `keys_sorted`).
pub open spec fn mismatch_sorted(e: ResponseMismatchError) -> bool {
    keys_sorted(json_or_null(e.expected)) && keys_sorted(json_or_null(e.actual))
}

/// Whether a test error's responses, where it holds any, have sorted keys.
pub open spec fn error_sorted(e: TestError) -> bool {
    match e {
        TestError::ResponseMismatch(m) => mismatch_sorted(m),
        _ => true,
    }
}

/// The message of a response mismatch.
pub open spec fn mismatch_message(e: ResponseMismatchError) -> Seq<char> {
    match (e.expected, e.actual) {
        (None, Some(a)) => "Test "@ + e.test_id@ + ": Expected `None`, got:\n"@ + render(json_view(a)),
        (Some(_), None) => "Test "@ + e.test_id@ + ": Expected valid results, got `None`"@,
        _ => "Test "@ + e.test_id@ + ": Incorrect response:\n"@ + comparison(
            "Response"@,
            json_or_null(e.expected),
            json_or_null(e.actual),
            0,
        ),
    }
}

/// The message of a test error.
pub open spec fn test_error_message(e: TestError) -> Seq<char> {
    match e {
        TestError::ResponseMismatch(m) => mismatch_message(m),
        TestError::TestExecution(x) => execution_error_message(x),
        TestError::TestSetup(s) => setup_error_message(s),
    }
}

fn clone_opt(v: &Option<JsonValue>) -> (r: Option<JsonValue>)
    ensures
        json_or_null(r) == json_or_null(*v),
        r is Some <==> v is Some,
{
    match v {
        Some(j) => Some(clone_json(j)),
        None => None,
    }
}

impl ResponseMismatchError {
    /// The human-readable message of this error: a missing or unexpected response
    /// is named as such; otherwise the two responses are compared field by field.
    pub fn message(&self) -> (r: String)
        requires
            mismatch_sorted(*self),
        ensures
            r@ == mismatch_message(*self),
    {
        match (&self.expected, &self.actual) {
            (None, Some(a)) => {
                let mut r = concat3("Test ", self.test_id.as_str(), ": Expected `None`, got:\n");
                let t = render_json(a);
                r.append(t.as_str());
                r
            },
            (Some(_), None) => concat3("Test ", self.test_id.as_str(), ": Expected valid results, got `None`"),
            _ => {
                let e = match clone_opt(&self.expected) {
                    Some(j) => j,
                    None => JsonValue::Null,
                };
                let a = match clone_opt(&self.actual) {
                    Some(j) => j,
                    None => JsonValue::Null,
                };
                let mut r = concat3("Test ", self.test_id.as_str(), ": Incorrect response:\n");
                let c = write_fields_comparison("Response", &e, &a, 0);
                r.append(c.as_str());
                r
            },
        }
    }
}

impl TestError {
    /// The human-readable message of this error.
    pub fn message(&self) -> (r: String)
        requires
            error_sorted(*self),
        ensures
            r@ == test_error_message(*self),
    {
        match self {
            TestError::ResponseMismatch(m) => m.message(),
            TestError::TestExecution(x) => x.message(),
            TestError::TestSetup(s) => s.message(),
        }
    }
}

/// What a run comes to.
pub enum Verdict {
    /// The test passes.
    Pass,
    /// The responses differ: the expected and the actual one, `None` for no response.
    Mismatch(Option<Json>, Option<Json>),
    /// The run failed with this error.
    Failed(TestExecutionError),
}

/// The outcome of a run, from what it left behind: whether a marker for an empty
/// response exists, and the response read from the results file where that file
/// exists (`Err` where reading or parsing it failed). `matches` is the comparator's
/// judgement of the expected against the actual response, where both exist.
pub open spec fn verdict(
    test_id: String,
    expected: Option<Json>,
    empty_exists: bool,
    results: Option<Result<Json, TestExecutionError>>,
    matches: bool,
) -> Verdict {
    match (expected, empty_exists, results) {
        (None, true, None) => Verdict::Pass,
        (Some(e), true, None) => Verdict::Mismatch(Some(e), None),
        (_, false, None) => Verdict::Failed(TestExecutionError::NoResults(test_id)),
        (_, _, Some(Err(x))) => Verdict::Failed(x),
        (None, _, Some(Ok(a))) => Verdict::Mismatch(None, Some(a)),
        (Some(e), _, Some(Ok(a))) => if matches {
            Verdict::Pass
        } else {
            Verdict::Mismatch(Some(e), Some(a))
        },
    }
}

/// The JSON view of an optional response.
pub open spec fn opt_view(v: Option<JsonValue>) -> Option<Json> {
    match v {
        Some(j) => Some(json_view(j)),
        None => None,
    }
}

/// Whether `r` is the result that verdict `v` stands for, in test `test_id`.
pub open spec fn is_verdict(r: Result<(), TestError>, test_id: String, v: Verdict) -> bool {
    match v {
        Verdict::Pass => r is Ok,
        Verdict::Failed(x) => r == Err::<(), TestError>(TestError::TestExecution(x)),
        Verdict::Mismatch(e, a) => match r {
            Err(TestError::ResponseMismatch(m)) => m.test_id == test_id && opt_view(m.expected) == e
                && opt_view(m.actual) == a,
            _ => false,
        },
    }
}

/// The view of a read result.
pub open spec fn read_view(r: Option<Result<JsonValue, TestExecutionError>>) -> Option<Result<Json, TestExecutionError>> {
    match r {
        Some(Ok(j)) => Some(Ok(json_view(j))),
        Some(Err(x)) => Some(Err(x)),
        None => None,
    }
}

/// Concludes a test from what its run left: `empty_exists` says whether the server
/// answered with an empty response, `results` holds what was read from the results
/// file where one was written, and `matches` is the comparison of the expected with
/// the actual response (used only where both exist). Nothing expected and nothing
/// answered passes; an answer where none was expected, or none where one was, is a
/// mismatch; no file at all is `NoResults`; a failed read is that error; two
/// responses pass exactly when they match. The two files never both exist.
pub fn collect_verdict(
    test_id: String,
    expected: Option<JsonValue>,
    empty_exists: bool,
    results: Option<Result<JsonValue, TestExecutionError>>,
    matches: bool,
) -> (r: Result<(), TestError>)
    requires
        !(empty_exists && results is Some),
    ensures
        is_verdict(r, test_id, verdict(test_id, opt_view(expected), empty_exists, read_view(results), matches)),
{
    match results {
        None => {
            if !empty_exists {
                return Err(TestError::TestExecution(TestExecutionError::NoResults(test_id)));
            }
            match expected {
                None => Ok(()),
                Some(e) => Err(
                    TestError::ResponseMismatch(ResponseMismatchError { test_id, expected: Some(e), actual: None }),
                ),
            }
        },
        Some(Err(x)) => Err(TestError::TestExecution(x)),
        Some(Ok(a)) => match expected {
            None => Err(
                TestError::ResponseMismatch(ResponseMismatchError { test_id, expected: None, actual: Some(a) }),
            ),
            Some(e) => if matches {
                Ok(())
            } else {
                Err(
                    TestError::ResponseMismatch(
                        ResponseMismatchError { test_id, expected: Some(e), actual: Some(a) },
                    ),
                )
            },
        },
    }
}

/// The comparison used where a test gives no comparator of its own: the two
/// responses are equal as JSON.
pub fn default_match(expected: &JsonValue, actual: &JsonValue) -> (r: bool)
    ensures
        r == json_same(json_view(*expected), json_view(*actual)),
{
    json_eq(expected, actual)
}

/// With the default comparison, a run that answered `actual` where `expected` was
/// expected passes exactly when the two are equal as JSON, and otherwise fails with
/// a mismatch that holds both.
pub proof fn lemma_default_verdict(test_id: String, expected: JsonValue, actual: JsonValue)
    ensures
        verdict(
            test_id,
            Some(json_view(expected)),
            false,
            Some(Ok(json_view(actual))),
            json_same(json_view(expected), json_view(actual)),
        ) == if json_same(json_view(expected), json_view(actual)) {
            Verdict::Pass
        } else {
            Verdict::Mismatch(Some(json_view(expected)), Some(json_view(actual)))
        },
{
}

/// How long past its timeout a test's Neovim process is waited for, in nanoseconds
/// (half a second).
pub const TIMEOUT_CUSHION_NS: u128 = 500_000_000;

/// Whether a run that started `elapsed_ns` nanoseconds ago is still within its
/// timeout and the cushion.
pub fn within_deadline(timeout_ns: u128, elapsed_ns: u128) -> (r: bool)
    ensures
        r == (elapsed_ns < timeout_ns + TIMEOUT_CUSHION_NS),
{
    if timeout_ns > u128::MAX - TIMEOUT_CUSHION_NS {
        true
    } else {
        elapsed_ns < timeout_ns + TIMEOUT_CUSHION_NS
    }
}

/// What polling the Neovim process found.
#[derive(Debug, Clone, PartialEq, Eq)]
pub enum ChildStatus {
    /// The process has exited.
    Exited,
    /// The process is still running.
    Running,
    /// The process could not be polled; the text says why.
    Failed(String),
}

/// What a poll within the deadline means: `None` to keep waiting, or the end of the
/// run. An exited process ends it, with a timeout error where the script recorded
/// that the timeout was exceeded.
pub fn on_child_status(test_id: String, timeout_ns: u128, status: ChildStatus, exceeded: bool) -> (r: Option<
    Result<(), TestExecutionError>,
>)
    ensures
        r == match status {
            ChildStatus::Exited => if exceeded {
                Some(
                    Err(
                        TestExecutionError::TimeoutExceeded(
                            TimeoutError { test_id, timeout_ns },
                        ),
                    ),
                )
            } else {
                Some(Ok(()))
            },
            ChildStatus::Running => None,
            ChildStatus::Failed(m) => Some(Err(TestExecutionError::Neovim(test_id, m))),
        },
{
    match status {
        ChildStatus::Exited => if exceeded {
            Some(Err(TestExecutionError::TimeoutExceeded(TimeoutError { test_id, timeout_ns })))
        } else {
            Some(Ok(()))
        },
        ChildStatus::Running => None,
        ChildStatus::Failed(m) => Some(Err(TestExecutionError::Neovim(test_id, m))),
    }
}

/// The error of a run that outlived its deadline: the error the script recorded,
/// where it recorded one, else the timeout.
pub fn after_deadline(test_id: String, timeout_ns: u128, recorded_error: Option<String>) -> (r: TestExecutionError)
    ensures
        r == match recorded_error {
            Some(m) => TestExecutionError::Neovim(test_id, m),
            None => TestExecutionError::TimeoutExceeded(TimeoutError { test_id, timeout_ns }),
        },
{
    match recorded_error {
        Some(m) => TestExecutionError::Neovim(test_id, m),
        None => TestExecutionError::TimeoutExceeded(TimeoutError { test_id, timeout_ns }),
    }
}

/// When a benchmark stops.
#[derive(Debug, Clone, Copy, PartialEq, Eq)]
pub enum EndCondition {
    /// Run until this many milliseconds have passed.
    Time(u64),
    /// Run this many times.
    Count(u64),
}

/// How a benchmark runs.
#[derive(Debug, Clone, Copy, PartialEq, Eq)]
pub struct BenchmarkConfig {
    pub end_condition: EndCondition,
    /// Stop at the first run that fails to set up or to execute.
    pub fail_fast: bool,
}

/// Why a benchmark stopped early.
#[derive(Debug, Clone, PartialEq, Eq)]
pub enum BenchmarkError {
    TestSetup(TestSetupError),
    TestExecution(TestExecutionError),
}

/// Whether a benchmark makes another run after `runs` runs and `elapsed_ms`
/// milliseconds.
pub fn benchmark_continues(end: EndCondition, elapsed_ms: u64, runs: u64) -> (r: bool)
    ensures
        r == match end {
            EndCondition::Time(limit) => elapsed_ms < limit,
            EndCondition::Count(n) => runs < n,
        },
{
    match end {
        EndCondition::Time(limit) => elapsed_ms < limit,
        EndCondition::Count(n) => runs < n,
    }
}

/// What one run's result means for a benchmark: with `fail_fast`, a setup or
/// execution error stops it with that error; a mismatched response never does, and
/// without `fail_fast` nothing does.
pub fn benchmark_check(result: Result<(), TestError>, fail_fast: bool) -> (r: Result<(), BenchmarkError>)
    ensures
        r == match (fail_fast, result) {
            (true, Err(TestError::TestSetup(s))) => Err(BenchmarkError::TestSetup(s)),
            (true, Err(TestError::TestExecution(x))) => Err(BenchmarkError::TestExecution(x)),
            _ => Ok::<(), BenchmarkError>(()),
        },
{
    if !fail_fast {
        return Ok(());
    }
    match result {
        Err(TestError::TestSetup(s)) => Err(BenchmarkError::TestSetup(s)),
        Err(TestError::TestExecution(x)) => Err(BenchmarkError::TestExecution(x)),
        _ => Ok(()),
    }
}

} // verus!

//! The description of a test case, how a server announces readiness, and the
//! errors a test can end in.
use vstd::prelude::*;

use crate::test_type::{method_name, TestType};
use crate::text::{decimal, decimal_string, decimal_string_wide};

verus! {

/// A position in a text document, as zero-based line and character offsets.
#[derive(Debug, Copy, Clone, PartialEq, Eq, Structural)]
pub struct Position {
    pub line: u32,
    pub character: u32,
}

impl Position {
    /// The position at `line` and `character`.
    pub fn new(line: u32, character: u32) -> (r: Position)
        ensures
            r == (Position { line, character }),
    {
        Position { line, character }
    }
}

/// A span of a text document between two positions.
#[derive(Debug, Copy, Clone, PartialEq, Eq, Structural)]
pub struct Range {
    pub start: Position,
    pub end: Position,
}

/// Represents a file to be used in the test case.
#[derive(Debug, Clone)]
pub struct TestFile {
    /// Path to this file relative to the test case source root.
    pub path: String,
    /// The contents of the source file.
    pub contents: String,
}

impl TestFile {
    /// A test file at `path` (relative to the source root) holding `contents`.
    pub fn new(path: &str, contents: &str) -> (r: TestFile)
        ensures
            r.path@ == path@,
            r.contents@ == contents@,
    {
        TestFile { path: String::from_str(path), contents: String::from_str(contents) }
    }
}

/// Indicates how the server initializes itself before it is ready to service
/// requests
#[derive(Debug, Clone, PartialEq, Eq, Hash)]
pub enum ServerStartType {
    /// The server is ready to serve requests immediately after attaching
    Simple,
    /// The server needs to undergo some indexing-like process reported via `$/progress`
    /// before properly servicing requests. The number says on which `end` `$/progress`
    /// message (counting from one) the server is ready; the string is the progress token
    /// (i.e. "rustAnalyzer/indexing").
    Progress(u32, String),
}

/// Errors found while preparing a test case, before Neovim runs.
#[derive(Debug, Clone, PartialEq, Eq)]
pub enum TestSetupError {
    MissingFileExtension(String),
    InvalidServerCommand(String),
    InvalidNeovim(String),
    InvalidFileExtension(String),
    InvalidFilePath(String),
    InvalidCursorPosition(TestType),
    IO(String),
}

/// The message of a setup error.
pub open spec fn setup_error_message(e: TestSetupError) -> Seq<char> {
    match e {
        TestSetupError::MissingFileExtension(p) =>
            "Source file \""@ + p@ + "\" must have an extension"@,
        TestSetupError::InvalidServerCommand(p) =>
            "The server command/path \""@ + p@ + "\" is not executable"@,
        TestSetupError::InvalidNeovim(p) =>
            "The neovim command \""@ + p@ + "\" is not executable"@,
        TestSetupError::InvalidFileExtension(p) =>
            "The extension of source file \""@ + p@ + "\" is invalid"@,
        TestSetupError::InvalidFilePath(p) => "Source file path \""@ + p@ + "\" is invalid"@,
        TestSetupError::InvalidCursorPosition(t) =>
            "Cursor position must be specified for "@ + method_name(t) + " tests"@,
        TestSetupError::IO(m) => m@,
    }
}

/// `a`, `b` and `c` joined into one string.
pub(crate) fn concat3(a: &str, b: &str, c: &str) -> (r: String)
    ensures
        r@ == a@ + b@ + c@,
{
    let mut r = String::from_str(a);
    r.append(b);
    r.append(c);
    r
}

impl TestSetupError {
    /// The human-readable message of this error.
    pub fn message(&self) -> (r: String)
        ensures
            r@ == setup_error_message(*self),
    {
        match self {
            TestSetupError::MissingFileExtension(p) =>
                concat3("Source file \"", p.as_str(), "\" must have an extension"),
            TestSetupError::InvalidServerCommand(p) =>
                concat3("The server command/path \"", p.as_str(), "\" is not executable"),
            TestSetupError::InvalidNeovim(p) =>
                concat3("The neovim command \"", p.as_str(), "\" is not executable"),
            TestSetupError::InvalidFileExtension(p) =>
                concat3("The extension of source file \"", p.as_str(), "\" is invalid"),
            TestSetupError::InvalidFilePath(p) =>
                concat3("Source file path \"", p.as_str(), "\" is invalid"),
            TestSetupError::InvalidCursorPosition(t) =>
                concat3("Cursor position must be specified for ", t.method(), " tests"),
            TestSetupError::IO(m) => m.clone(),
        }
    }
}

/// The digits of `n` padded with leading zeros to at least three characters.
pub open spec fn padded3(n: nat) -> Seq<char> {
    if n < 10 {
        "00"@ + decimal(n)
    } else if n < 100 {
        "0"@ + decimal(n)
    } else {
        decimal(n)
    }
}

/// A test ran longer than its timeout allowed.
#[derive(Debug, Clone, PartialEq, Eq)]
pub struct TimeoutError {
    pub test_id: String,
    /// The timeout that was exceeded, in nanoseconds.
    pub timeout_ns: u128,
}

/// A duration of `ns` nanoseconds in whole milliseconds, rounded to the nearest
/// (halves up).
pub open spec fn rounded_ms(ns: nat) -> nat {
    (ns + 500_000) / 1_000_000
}

/// The message of a timeout error: the timeout in seconds with three decimals.
pub open spec fn timeout_message(test_id: Seq<char>, timeout_ns: nat) -> Seq<char> {
    "Test "@ + test_id + ": Test timout of "@ + decimal(rounded_ms(timeout_ns) / 1000) + "."@ + padded3(
        rounded_ms(timeout_ns) % 1000,
    ) + "s exceeded"@
}

proof fn lemma_rounded_ms(ns: nat)
    ensures
        rounded_ms(ns) == ns / 1_000_000 + if ns % 1_000_000 >= 500_000 { 1int } else { 0int },
{
    let q = ns / 1_000_000;
    let r = ns % 1_000_000;
    assert(ns == q * 1_000_000 + r);
    assert(0 <= r < 1_000_000);
    if r >= 500_000 {
        assert((ns + 500_000) / 1_000_000 == q + 1) by (nonlinear_arith)
            requires ns == q * 1_000_000 + r, 500_000 <= r < 1_000_000;
    } else {
        assert((ns + 500_000) / 1_000_000 == q) by (nonlinear_arith)
            requires ns == q * 1_000_000 + r, 0 <= r < 500_000;
    }
}

impl TimeoutError {
    /// The human-readable message of this error.
    pub fn message(&self) -> (r: String)
        ensures
            r@ == timeout_message(self.test_id@, self.timeout_ns as nat),
    {
        let mut r = concat3("Test ", self.test_id.as_str(), ": Test timout of ");
        let q: u128 = self.timeout_ns / 1_000_000;
        let rem: u128 = self.timeout_ns % 1_000_000;
        let total_ms: u128 = if rem >= 500_000 { q + 1 } else { q };
        proof { lemma_rounded_ms(self.timeout_ns as nat); }
        let secs = decimal_string_wide(total_ms / 1000);
        r.append(secs.as_str());
        r.append(".");
        let ms = total_ms % 1000;
        if ms < 10 {
            r.append("00");
        } else if ms < 100 {
            r.append("0");
        }
        let msd = decimal_string_wide(ms);
        r.append(msd.as_str());
        r.append("s exceeded");
        r
    }
}

/// Errors found while running a test in Neovim or while reading its results.
#[derive(Debug, Clone, PartialEq, Eq)]
pub enum TestExecutionError {
    NoResults(String),
    Neovim(String, String),
    IO(String, String),
    Utf8(String, String),
    Serialization(String, String),
    TimeoutExceeded(TimeoutError),
}

/// The message of an execution error.
pub open spec fn execution_error_message(e: TestExecutionError) -> Seq<char> {
    match e {
        TestExecutionError::NoResults(id) => "Test "@ + id@ + ": No results were written"@,
        TestExecutionError::Neovim(id, m) => "Test "@ + id@ + ": Neovim Error\n"@ + m@,
        TestExecutionError::IO(id, m) => "Test "@ + id@ + ": IO Error\n"@ + m@,
        TestExecutionError::Utf8(id, m) => "Test "@ + id@ + ": UTF8 Error\n"@ + m@,
        TestExecutionError::Serialization(id, m) =>
            "Test "@ + id@ + ": Serialization Error\n"@ + m@,
        TestExecutionError::TimeoutExceeded(t) => timeout_message(t.test_id@, t.timeout_ns as nat),
    }
}

impl TestExecutionError {
    /// The human-readable message of this error.
    pub fn message(&self) -> (r: String)
        ensures
            r@ == execution_error_message(*self),
    {
        match self {
            TestExecutionError::NoResults(id) => concat3("Test ", id.as_str(), ": No results were written"),
            TestExecutionError::Neovim(id, m) => {
                let mut r = concat3("Test ", id.as_str(), ": Neovim Error\n");
                r.append(m.as_str());
                r
            },
            TestExecutionError::IO(id, m) => {
                let mut r = concat3("Test ", id.as_str(), ": IO Error\n");
                r.append(m.as_str());
                r
            },
            TestExecutionError::Utf8(id, m) => {
                let mut r = concat3("Test ", id.as_str(), ": UTF8 Error\n");
                r.append(m.as_str());
                r
            },
            TestExecutionError::Serialization(id, m) => {
                let mut r = concat3("Test ", id.as_str(), ": Serialization Error\n");
                r.append(m.as_str());
                r
            },
            TestExecutionError::TimeoutExceeded(t) => t.message(),
        }
    }
}

} // verus!

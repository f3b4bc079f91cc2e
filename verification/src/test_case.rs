//! A test case: the server to run, the files to place in the test directory,
//! and how the test is run.
use vstd::prelude::*;

use crate::test_type::TestType;
use crate::text::{decimal, decimal_string};
use crate::path::{climbs_out, is_absolute, join_path, joined, path_climbs_out, path_is_absolute};
use crate::types::{Position, ServerStartType, TestFile, TestSetupError};

verus! {

/// Sixty-four bits from the operating system's random source, through rand's `OsRng`
/// (`rand::TryRngCore::try_next_u64`), or `None` where the source reports an error.
/// Nothing is claimed of the bits: they may be any value.
#[verifier::external_body]
fn os_random_u64() -> (r: Option<u64>) {
    rand::TryRngCore::try_next_u64(&mut rand::rngs::OsRng).ok()
}

/// The message of the setup error given when no random test id can be drawn.
pub open spec fn random_source_message() -> Seq<char> {
    "The system's random source failed while drawing a test id"@
}

/// Describes a test case to be used in an lspresso-shot test.
///
/// - `test_id`: internal identifier for a single run of a test case.
/// - `test_type`: internal marker for the test type to be run.
/// - `executable_path`: path to the language server's executable.
/// - `nvim_path`: path to/command for the Neovim executable.
/// - `source_file`: the source file to be opened by Neovim.
/// - `cursor_pos`: the position of the cursor within the source file.
/// - `other_files`: other files to be placed in the mock directory.
/// - `start_type`: indicates when the server is ready to service requests.
/// - `timeout_ns`: timeout for the test's run in Neovim, in nanoseconds (a `u128`
///   holds every `Duration`).
/// - `cleanup`: whether to delete the temporary directory on test completion.
#[derive(Debug, Clone)]
pub struct TestCase {
    pub test_id: String,
    pub test_type: Option<TestType>,
    pub executable_path: String,
    pub nvim_path: String,
    pub source_file: TestFile,
    pub cursor_pos: Option<Position>,
    pub other_files: Vec<TestFile>,
    pub start_type: ServerStartType,
    pub timeout_ns: u128,
    pub cleanup: bool,
}

/// A test file path is acceptable: relative, naming something once joined to the
/// source directory `dir`, and never climbing above that directory through `..`
/// components, so that the file lies under the source directory.
pub open spec fn path_valid(dir: Seq<char>, p: Seq<char>) -> bool {
    joined(dir, p).len() > 0 && !is_absolute(p) && !climbs_out(p)
}

/// The index of the first of `files` whose path is not acceptable, if any.
pub open spec fn first_invalid_file(dir: Seq<char>, files: Seq<TestFile>) -> Option<int> {
    if exists|i: int| 0 <= i < files.len() && !path_valid(dir, files[i].path@) {
        Some(choose|i: int| 0 <= i < files.len() && !path_valid(dir, files[i].path@)
            && forall|j: int| 0 <= j < i ==> path_valid(dir, #[trigger] files[j].path@))
    } else {
        None
    }
}

/// Validates the user-provided path of a test case file against source directory `dir`.
fn validate_path(dir: &str, input_path: &str) -> (r: Result<(), TestSetupError>)
    ensures
        match r {
            Ok(()) => path_valid(dir@, input_path@),
            Err(e) => {
                &&& !path_valid(dir@, input_path@)
                &&& e matches TestSetupError::InvalidFilePath(p)
                &&& p@ == input_path@
            },
        },
{
    let full_path = join_path(dir, input_path);
    if full_path.as_str().unicode_len() == 0 || path_is_absolute(input_path) || path_climbs_out(input_path) {
        return Err(TestSetupError::InvalidFilePath(String::from_str(input_path)));
    }
    Ok(())
}

/// Whether `t` is the fresh test case that `random_bits` make for the server
/// `executable_path` and the file `source_file`: its id is the decimal of the bits
/// reduced below `usize::MAX`; `nvim_path` is `nvim_setting` where given, else "nvim";
/// the test starts as `Simple`, with no type, no cursor, no other files, a one
/// second timeout and no cleanup.
pub open spec fn fresh_test_case(
    t: TestCase,
    random_bits: u64,
    executable_path: Seq<char>,
    source_file: TestFile,
    nvim_setting: Option<String>,
) -> bool {
    &&& t.test_id@ == decimal((random_bits % (usize::MAX as u64)) as nat)
    &&& t.test_type is None
    &&& t.executable_path@ == executable_path
    &&& t.nvim_path@ == (match nvim_setting {
        Some(p) => p@,
        None => "nvim"@,
    })
    &&& t.source_file == source_file
    &&& t.cursor_pos is None
    &&& t.other_files@.len() == 0
    &&& t.start_type == ServerStartType::Simple
    &&& t.timeout_ns == 1_000_000_000
    &&& !t.cleanup
}

/// The test case that `random_bits` make (see `fresh_test_case`).
pub fn test_case_from_bits(
    random_bits: u64,
    executable_path: &str,
    source_file: TestFile,
    nvim_setting: Option<String>,
) -> (t: TestCase)
    ensures
        fresh_test_case(t, random_bits, executable_path@, source_file, nvim_setting),
{
    let n: u64 = random_bits % (usize::MAX as u64);
    let test_id = decimal_string(n);
    let nvim_path = match nvim_setting {
        Some(p) => p,
        None => String::from_str("nvim"),
    };
    TestCase {
        test_id,
        test_type: None,
        executable_path: String::from_str(executable_path),
        nvim_path,
        source_file,
        cursor_pos: None,
        other_files: Vec::new(),
        start_type: ServerStartType::Simple,
        timeout_ns: 1_000_000_000,
        cleanup: false,
    }
}

impl TestCase {
    /// Create a new `TestCase` from sixty-four bits of the operating system's random
    /// source (see `test_case_from_bits`): its id is a number below `usize::MAX`.
    /// Where the random source fails, the result is an `IO` setup error saying so.
    pub fn new(executable_path: &str, source_file: TestFile, nvim_setting: Option<String>) -> (r: Result<TestCase, TestSetupError>)
        ensures
            match r {
                Ok(t) => exists|bits: u64| fresh_test_case(t, bits, executable_path@, source_file, nvim_setting),
                Err(e) => e matches TestSetupError::IO(m) && m@ == random_source_message(),
            },
    {
        match os_random_u64() {
            Some(bits) => Ok(test_case_from_bits(bits, executable_path, source_file, nvim_setting)),
            None => Err(TestSetupError::IO(String::from_str(
                "The system's random source failed while drawing a test id",
            ))),
        }
    }

    /// Set the cursor position in the source file
    pub fn cursor_pos(self, cursor_pos: Option<Position>) -> (r: TestCase)
        ensures
            r == (TestCase { cursor_pos, ..self }),
    {
        TestCase { cursor_pos, ..self }
    }

    /// Change the executable path used in the test case
    pub fn exeutable_path(self, path: &str) -> (r: TestCase)
        ensures
            r.executable_path@ == path@,
            r == (TestCase { executable_path: r.executable_path, ..self }),
    {
        TestCase { executable_path: String::from_str(path), ..self }
    }

    /// Change the nvim path used in the test case
    pub fn nvim_path(self, path: &str) -> (r: TestCase)
        ensures
            r.nvim_path@ == path@,
            r == (TestCase { nvim_path: r.nvim_path, ..self }),
    {
        TestCase { nvim_path: String::from_str(path), ..self }
    }

    /// Change the source file used in the test case
    pub fn source_file(self, source_file: TestFile) -> (r: TestCase)
        ensures
            r == (TestCase { source_file, ..self }),
    {
        TestCase { source_file, ..self }
    }

    /// Add an additional file to the test case
    pub fn other_file(self, other_file: TestFile) -> (r: TestCase)
        ensures
            r.other_files@ == self.other_files@.push(other_file),
            r == (TestCase { other_files: r.other_files, ..self }),
    {
        let mut s = self;
        s.other_files.push(other_file);
        s
    }

    /// Change whether the temporary directory is cleaned up on test completion
    pub fn cleanup(self, cleanup: bool) -> (r: TestCase)
        ensures
            r == (TestCase { cleanup, ..self }),
    {
        TestCase { cleanup, ..self }
    }

    /// Change the expected start type of the server
    pub fn start_type(self, start_type: ServerStartType) -> (r: TestCase)
        ensures
            r == (TestCase { start_type, ..self }),
    {
        TestCase { start_type, ..self }
    }

    /// Validate the data contained within `self`, given whether the Neovim command and
    /// the server command are executable and the test's source directory `source_dir`.
    /// Reports the first problem: Neovim, then the server, then the source file's path,
    /// then the other files' paths in order.
    pub fn validate(&self, nvim_executable: bool, server_executable: bool, source_dir: &str) -> (r: Result<(), TestSetupError>)
        ensures
            match r {
                Ok(()) => nvim_executable && server_executable
                    && path_valid(source_dir@, self.source_file.path@)
                    && first_invalid_file(source_dir@, self.other_files@) is None,
                Err(e) => if !nvim_executable {
                    e matches TestSetupError::InvalidNeovim(p) && p@ == self.nvim_path@
                } else if !server_executable {
                    e matches TestSetupError::InvalidServerCommand(p) && p@ == self.executable_path@
                } else if !path_valid(source_dir@, self.source_file.path@) {
                    e matches TestSetupError::InvalidFilePath(p) && p@ == self.source_file.path@
                } else {
                    &&& first_invalid_file(source_dir@, self.other_files@) matches Some(i)
                    &&& e matches TestSetupError::InvalidFilePath(p)
                    &&& p@ == self.other_files@[i].path@
                },
            },
    {
        if !nvim_executable {
            return Err(TestSetupError::InvalidNeovim(self.nvim_path.clone()));
        }
        if !server_executable {
            return Err(TestSetupError::InvalidServerCommand(self.executable_path.clone()));
        }
        match validate_path(source_dir, self.source_file.path.as_str()) {
            Ok(()) => {},
            Err(e) => return Err(e),
        }
        let mut i: usize = 0;
        while i < self.other_files.len()
            invariant
                i <= self.other_files.len(),
                nvim_executable,
                server_executable,
                path_valid(source_dir@, self.source_file.path@),
                forall|j: int| 0 <= j < i ==> path_valid(source_dir@, #[trigger] self.other_files@[j].path@),
            decreases self.other_files.len() - i,
        {
            match validate_path(source_dir, self.other_files[i].path.as_str()) {
                Ok(()) => {},
                Err(e) => {
                    proof {
                        let files = self.other_files@;
                        assert(0 <= i < files.len() && !path_valid(source_dir@, files[i as int].path@)
                            && forall|j: int| 0 <= j < i ==> path_valid(source_dir@, #[trigger] files[j].path@));
                        let k = choose|k: int| 0 <= k < files.len() && !path_valid(source_dir@, files[k].path@)
                            && forall|j: int| 0 <= j < k ==> path_valid(source_dir@, #[trigger] files[j].path@);
                        assert(0 <= k < files.len() && !path_valid(source_dir@, files[k].path@)
                            && forall|j: int| 0 <= j < k ==> path_valid(source_dir@, #[trigger] files[j].path@));
                        if k < i {
                            assert(path_valid(source_dir@, files[k].path@));
                        }
                        if k > i {
                            assert(path_valid(source_dir@, files[i as int].path@));
                        }
                        assert(k == i);
                        assert(first_invalid_file(source_dir@, files) == Some(k));
                    }
                    return Err(e);
                },
            }
            i = i + 1;
        }
        Ok(())
    }

    /// Set the timeout for a test, in nanoseconds
    pub fn timeout(self, timeout_ns: u128) -> (r: TestCase)
        ensures
            r == (TestCase { timeout_ns, ..self }),
    {
        TestCase { timeout_ns, ..self }
    }
}

} // verus!

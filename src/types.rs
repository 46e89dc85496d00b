//! The data a judge request carries in and a verdict carries out.
use vstd::prelude::*;

verus! {

/// What went on with the process, for the submission as a whole.
#[derive(Debug, Clone, Copy, PartialEq, Eq, Structural)]
pub enum OverallStatus {
    /// The processes ran without a timeout or a runtime failure (the
    /// protocol's `Ok`).
    Success,
    CompileError,
    RuntimeError,
    Timeout,
    UnsupportedLanguage,
    EnvError,
}

/// How outputs are normalised before they are compared.
#[derive(Debug, Clone, Copy, PartialEq, Eq, Structural)]
pub struct NormalizationOptions {
    pub normalize_crlf: bool,
    pub ignore_extra_whitespace: bool,
}

impl Default for NormalizationOptions {
    fn default() -> (r: Self)
        ensures
            !r.normalize_crlf,
            !r.ignore_extra_whitespace,
    {
        NormalizationOptions { normalize_crlf: false, ignore_extra_whitespace: false }
    }
}

/// One test vector of a problem.
#[derive(Debug, Clone)]
pub struct TestCase {
    pub input: String,
    pub expected_output: String,
    pub is_hidden: bool,
}

/// A programming problem: its limits and its test vectors, in order.
#[derive(Debug, Clone)]
pub struct Problem {
    pub id: String,
    pub title: String,
    pub description: String,
    pub difficulty: Difficulty,
    /// In milliseconds.
    pub time_limit: u64,
    /// In megabytes; carried along, not enforced.
    pub memory_limit: u64,
    pub test_cases: Vec<TestCase>,
    pub tags: Vec<String>,
}

#[derive(Debug, Clone, Copy, PartialEq, Eq, Structural)]
pub enum Difficulty {
    Easy,
    Medium,
    Hard,
}

/// What one run of the program on one input gave.
#[derive(Debug, Clone)]
pub struct ExecutionResult {
    pub success: bool,
    pub output: String,
    pub error: Option<String>,
    /// In milliseconds.
    pub execution_time: u64,
    /// Peak resident memory sampled, in kilobytes.
    pub memory_usage: u64,
}

/// The outcome of one test case.
#[derive(Debug, Clone)]
pub struct TestCaseResult {
    pub test_case_id: usize,
    pub passed: bool,
    pub execution_result: ExecutionResult,
    pub expected_output: String,
    pub actual_output: String,
}

/// The outcome of a submission over all its test cases. Its score, in
/// percent, is `passed_test_cases * 100 / total_test_cases`.
#[derive(Debug, Clone)]
pub struct SubmissionResult {
    pub problem_id: String,
    pub total_test_cases: usize,
    pub passed_test_cases: usize,
    pub test_case_results: Vec<TestCaseResult>,
    pub compilation_successful: bool,
    pub compilation_error: Option<String>,
    pub total_execution_time: u64,
    pub compile_time_ms: Option<u64>,
    pub executable_size_bytes: Option<u64>,
}

/// A submission: its code and language, the problem, and how to compare.
#[derive(Debug, Clone)]
pub struct JudgeRequest {
    pub code: String,
    pub problem: Problem,
    pub language: String,
    pub normalization: NormalizationOptions,
}

/// The judge's answer to a request.
#[derive(Debug, Clone)]
pub struct JudgeResponse {
    pub success: bool,
    pub result: Option<SubmissionResult>,
    pub error: Option<String>,
    pub status: OverallStatus,
}

} // verus!

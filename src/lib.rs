//! A judge for C and C++ submissions: builds a program once, runs it
//! against each test vector under a time limit, compares the normalised
//! outputs and derives a verdict with a score.
pub mod compiler;
pub mod executor;
pub mod interactive;
pub mod judge;
pub mod sandbox;
pub mod text;
pub mod timer;
pub mod types;

pub use interactive::{CodeFile, CompileResult, ExecutionMetrics};
pub use judge::Judge;
pub use types::{
    Difficulty, ExecutionResult, JudgeRequest, JudgeResponse, NormalizationOptions, OverallStatus,
    Problem, SubmissionResult, TestCase, TestCaseResult,
};

//! Running one executable on one input: the limits a run is held to, and
//! how what the process did becomes an `ExecutionResult`.
use vstd::prelude::*;

use crate::types::ExecutionResult;

verus! {

/// Interval between two samples of the child's resident memory.
pub const MEMORY_SAMPLE_INTERVAL_MS: u64 = 30;

/// The error text of a run that was stopped at the time limit.
pub open spec fn time_limit_text() -> Seq<char> {
    "Time limit exceeded"@
}

pub fn time_limit_message() -> (r: String)
    ensures
        r@ == time_limit_text(),
{
    String::from_str("Time limit exceeded")
}

/// How a run ended, as the process supervisor observed it.
pub enum RunOutcome {
    /// The process exited within the time limit.
    Exited { success: bool, stdout: String, stderr: String },
    /// The time limit fired first; the process was killed and reaped.
    TimedOut,
    /// Waiting on the process failed.
    WaitFailed { message: String },
    /// The process could not be started or fed its input.
    StartFailed { message: String },
}

/// The result that a run with this outcome is reported as.
pub open spec fn result_spec(
    outcome: RunOutcome,
    elapsed_ms: u64,
    peak_kb: u64,
    r: ExecutionResult,
) -> bool {
    match outcome {
        RunOutcome::Exited { success, stdout, stderr } => {
            &&& r.success == success
            &&& r.output@ == stdout@
            &&& if !success && stderr@.len() > 0 {
                r.error is Some && r.error->0@ == stderr@
            } else {
                r.error is None
            }
            &&& r.execution_time == elapsed_ms
            &&& r.memory_usage == peak_kb
        },
        RunOutcome::TimedOut => {
            &&& !r.success
            &&& r.output@.len() == 0
            &&& r.error is Some && r.error->0@ == time_limit_text()
            &&& r.execution_time == elapsed_ms
            &&& r.memory_usage == peak_kb
        },
        RunOutcome::WaitFailed { message } => {
            &&& !r.success
            &&& r.output@.len() == 0
            &&& r.error is Some && r.error->0@ == "Process error: "@ + message@
            &&& r.execution_time == 0
            &&& r.memory_usage == 0
        },
        RunOutcome::StartFailed { message } => {
            &&& !r.success
            &&& r.output@.len() == 0
            &&& r.error is Some && r.error->0@ == "Execution error: "@ + message@
            &&& r.execution_time == 0
            &&& r.memory_usage == 0
        },
    }
}

/// The largest of the memory samples so far, after one more sample.
pub fn record_memory_sample(peak_kb: u64, sample_kb: u64) -> (r: u64)
    ensures
        r == if sample_kb > peak_kb {
            sample_kb
        } else {
            peak_kb
        },
{
    if sample_kb > peak_kb {
        sample_kb
    } else {
        peak_kb
    }
}

/// Runs executables under a wall-clock time limit.
pub struct Executor {
    time_limit_ms: u64,
    memory_limit_mb: u64,
}

impl Executor {
    pub closed spec fn spec_time_limit_ms(&self) -> u64 {
        self.time_limit_ms
    }

    pub closed spec fn spec_memory_limit_mb(&self) -> u64 {
        self.memory_limit_mb
    }

    pub fn new(time_limit_ms: u64, memory_limit_mb: u64) -> (r: Self)
        ensures
            r.spec_time_limit_ms() == time_limit_ms,
            r.spec_memory_limit_mb() == memory_limit_mb,
    {
        Executor { time_limit_ms, memory_limit_mb }
    }

    /// The wall-clock limit of one run, in milliseconds.
    pub fn time_limit_ms(&self) -> (r: u64)
        ensures
            r == self.spec_time_limit_ms(),
    {
        self.time_limit_ms
    }

    /// The memory limit in megabytes; carried along, not enforced.
    pub fn memory_limit_mb(&self) -> (r: u64)
        ensures
            r == self.spec_memory_limit_mb(),
    {
        self.memory_limit_mb
    }

    /// The result of a run that ended with `outcome`, after `elapsed_ms` of
    /// wall time and a peak of `peak_kb` sampled.
    pub fn result_of(outcome: RunOutcome, elapsed_ms: u64, peak_kb: u64) -> (r: ExecutionResult)
        ensures
            result_spec(outcome, elapsed_ms, peak_kb, r),
    {
        match outcome {
            RunOutcome::Exited { success, stdout, stderr } => {
                let error = if !success && stderr.as_str().unicode_len() > 0 {
                    Some(stderr)
                } else {
                    None
                };
                ExecutionResult {
                    success,
                    output: stdout,
                    error,
                    execution_time: elapsed_ms,
                    memory_usage: peak_kb,
                }
            },
            RunOutcome::TimedOut => ExecutionResult {
                success: false,
                output: String::new(),
                error: Some(time_limit_message()),
                execution_time: elapsed_ms,
                memory_usage: peak_kb,
            },
            RunOutcome::WaitFailed { message } => ExecutionResult {
                success: false,
                output: String::new(),
                error: Some(String::from_str("Process error: ").concat(message.as_str())),
                execution_time: 0,
                memory_usage: 0,
            },
            RunOutcome::StartFailed { message } => ExecutionResult {
                success: false,
                output: String::new(),
                error: Some(String::from_str("Execution error: ").concat(message.as_str())),
                execution_time: 0,
                memory_usage: 0,
            },
        }
    }
}

} // verus!

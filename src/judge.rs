//! The judge: it screens a request, turns a failed build into a response,
//! grades each run against its test case, and derives the verdict.
use vstd::prelude::*;

use crate::compiler::{compile_error_text, language_named, CompileError, Language};
use crate::executor::{result_spec, time_limit_message, time_limit_text, RunOutcome};
use crate::sandbox::Sandbox;
use crate::text::{chars_of, lower_of, normalize_chars, normalized, string_of};
use crate::types::{
    ExecutionResult, JudgeRequest, JudgeResponse, NormalizationOptions, OverallStatus,
    SubmissionResult, TestCase, TestCaseResult,
};

verus! {

/// `actual` and `expected` are equal once normalised under `opts`.
pub open spec fn outputs_match_spec(
    actual: Seq<char>,
    expected: Seq<char>,
    opts: NormalizationOptions,
) -> bool {
    normalized(actual, opts.normalize_crlf, opts.ignore_extra_whitespace) == normalized(
        expected,
        opts.normalize_crlf,
        opts.ignore_extra_whitespace,
    )
}

/// The run was stopped at the time limit.
pub open spec fn is_timeout(e: ExecutionResult) -> bool {
    e.error is Some && e.error->0@ == time_limit_text()
}

/// The run failed with a non-empty error.
pub open spec fn is_runtime_failure(e: ExecutionResult) -> bool {
    !e.success && e.error is Some && e.error->0@.len() > 0
}

/// The status of a submission with these test results: `Success` if all
/// passed; else `Timeout` if a run timed out; else `RuntimeError` if a run
/// failed with an error; else `Success` (wrong answers from runs that went
/// well are read from the score, not the status).
pub open spec fn status_of(rs: Seq<TestCaseResult>) -> OverallStatus {
    if forall|i: int| 0 <= i < rs.len() ==> #[trigger] rs[i].passed {
        OverallStatus::Success
    } else if exists|i: int| 0 <= i < rs.len() && is_timeout(#[trigger] rs[i].execution_result) {
        OverallStatus::Timeout
    } else if exists|i: int|
        0 <= i < rs.len() && is_runtime_failure(#[trigger] rs[i].execution_result) {
        OverallStatus::RuntimeError
    } else {
        OverallStatus::Success
    }
}

/// How many of `rs` passed.
pub open spec fn count_passed(rs: Seq<TestCaseResult>) -> nat
    decreases rs.len(),
{
    if rs.len() == 0 {
        0
    } else {
        count_passed(rs.drop_last()) + if rs.last().passed {
            1nat
        } else {
            0nat
        }
    }
}

/// The sum of the run times of `es`.
pub open spec fn total_time(es: Seq<ExecutionResult>) -> nat
    decreases es.len(),
{
    if es.len() == 0 {
        0
    } else {
        total_time(es.drop_last()) + es.last().execution_time as nat
    }
}

/// `r` grades the run `e` of test case number `id`.
pub open spec fn graded(
    id: usize,
    tc: TestCase,
    e: ExecutionResult,
    opts: NormalizationOptions,
    r: TestCaseResult,
) -> bool {
    &&& r.test_case_id == id
    &&& r.passed == outputs_match_spec(e.output@, tc.expected_output@, opts)
    &&& r.execution_result == e
    &&& r.expected_output@ == tc.expected_output@
    &&& r.actual_output@ == e.output@
}

/// `r` answers a request in an unsupported language.
pub open spec fn unsupported_response_spec(language: Seq<char>, r: JudgeResponse) -> bool {
    &&& !r.success
    &&& r.result is None
    &&& r.error is Some && r.error->0@ == "Unsupported language: "@ + language
    &&& r.status == OverallStatus::UnsupportedLanguage
}

/// `r` answers a request whose build in `l` failed with `e`.
pub open spec fn compile_failure_spec(l: Language, e: CompileError, r: JudgeResponse) -> bool {
    &&& !r.success
    &&& r.result is None
    &&& r.error is Some && r.error->0@ == "Compilation failed: "@ + compile_error_text(e, l)
    &&& r.status == OverallStatus::CompileError
}

/// `r` is the verdict on `request` after a build of `compile_time_ms` that
/// gave an executable of `executable_size_bytes`, whose runs on the test
/// cases gave `es`, in order.
pub open spec fn verdict_spec(
    request: JudgeRequest,
    es: Seq<ExecutionResult>,
    compile_time_ms: u64,
    executable_size_bytes: Option<u64>,
    r: JudgeResponse,
) -> bool {
    let tcs = request.problem.test_cases@;
    &&& es.len() == tcs.len()
    &&& r.success
    &&& r.error is None
    &&& r.result is Some
    &&& {
        let s = r.result->0;
        let rs = s.test_case_results@;
        &&& s.problem_id@ == request.problem.id@
        &&& rs.len() == tcs.len()
        &&& forall|i: int|
            0 <= i < rs.len() ==> graded(
                i as usize,
                tcs[i],
                es[i],
                request.normalization,
                #[trigger] rs[i],
            )
        &&& s.total_test_cases == tcs.len()
        &&& s.passed_test_cases == count_passed(rs)
        &&& s.compilation_successful
        &&& s.compilation_error is None
        &&& s.total_execution_time == total_time(es)
        &&& s.compile_time_ms == Some(compile_time_ms)
        &&& s.executable_size_bytes == executable_size_bytes
        &&& r.status == status_of(rs)
    }
}

/// What to do with a request once it is screened.
pub enum Admission {
    /// Build the code in this language.
    Compile(Language),
    /// Answer at once, with no build.
    Respond(JudgeResponse),
}

/// A request that cannot be judged.
#[derive(Debug, Clone, Copy, PartialEq, Eq, Structural)]
pub enum JudgeError {
    /// The problem has no test cases, so there is nothing to score.
    NoTestCases,
}

impl JudgeError {
    pub fn message(&self) -> (r: String)
        ensures
            r@ == "Problem has no test cases"@,
    {
        String::from_str("Problem has no test cases")
    }
}

/// Orchestrates a submission: build once, run each test case, compare,
/// and derive the verdict.
pub struct Judge {
    sandbox: Sandbox,
}

impl Judge {
    pub closed spec fn spec_sandbox(&self) -> Sandbox {
        self.sandbox
    }

    /// A judge that owns `sandbox` for its lifetime.
    pub fn new(sandbox: Sandbox) -> (r: Judge)
        ensures
            r.spec_sandbox() == sandbox,
    {
        Judge { sandbox }
    }

    pub fn sandbox(&self) -> (r: &Sandbox)
        ensures
            *r == self.spec_sandbox(),
    {
        &self.sandbox
    }

    /// Normalises with `"\r\n"` made `"\n"` and each line trimmed.
    pub fn normalize_output_default(&self, output: &str) -> (r: String)
        ensures
            r@ == normalized(output@, true, false),
    {
        let v = chars_of(output);
        let n = normalize_chars(&v, true, false);
        string_of(&n)
    }

    /// Normalises under `opts`.
    pub fn normalize_output_with(&self, output: &str, opts: &NormalizationOptions) -> (r: String)
        ensures
            r@ == normalized(output@, opts.normalize_crlf, opts.ignore_extra_whitespace),
    {
        let v = chars_of(output);
        let n = normalize_chars(&v, opts.normalize_crlf, opts.ignore_extra_whitespace);
        string_of(&n)
    }

    /// Whether two outputs are equal once normalised under `opts`.
    pub fn outputs_match(&self, actual: &str, expected: &str, opts: &NormalizationOptions) -> (r:
        bool)
        ensures
            r == outputs_match_spec(actual@, expected@, *opts),
    {
        let a = self.normalize_output_with(actual, opts);
        let b = self.normalize_output_with(expected, opts);
        a == b
    }

    /// Grades the run `execution_result` of test case number `test_case_id`.
    pub fn grade(
        &self,
        test_case_id: usize,
        test_case: &TestCase,
        execution_result: ExecutionResult,
        opts: &NormalizationOptions,
    ) -> (r: TestCaseResult)
        ensures
            graded(test_case_id, *test_case, execution_result, *opts, r),
    {
        let passed = self.outputs_match(
            execution_result.output.as_str(),
            test_case.expected_output.as_str(),
            opts,
        );
        let actual_output = execution_result.output.clone();
        TestCaseResult {
            test_case_id,
            passed,
            execution_result,
            expected_output: test_case.expected_output.clone(),
            actual_output,
        }
    }

    /// The status of a submission with these results.
    pub fn overall_status(results: &Vec<TestCaseResult>) -> (r: OverallStatus)
        ensures
            r == status_of(results@),
    {
        let n = results.len();
        let mut all_passed = true;
        let mut any_timeout = false;
        let mut any_failure = false;
        let tle = time_limit_message();
        let mut i: usize = 0;
        while i < n
            invariant
                n == results@.len(),
                i <= n,
                tle@ == time_limit_text(),
                all_passed == (forall|k: int| 0 <= k < i ==> #[trigger] results@[k].passed),
                any_timeout == (exists|k: int|
                    0 <= k < i && is_timeout(#[trigger] results@[k].execution_result)),
                any_failure == (exists|k: int|
                    0 <= k < i && is_runtime_failure(#[trigger] results@[k].execution_result)),
            decreases n - i,
        {
            let e = &results[i].execution_result;
            if !results[i].passed {
                all_passed = false;
            }
            match &e.error {
                Some(msg) => {
                    if *msg == tle {
                        any_timeout = true;
                    }
                    if !e.success && !msg.as_str().is_empty() {
                        any_failure = true;
                    }
                },
                None => {},
            }
            assert(results@[i as int].execution_result == *e);
            i = i + 1;
        }
        if all_passed {
            OverallStatus::Success
        } else if any_timeout {
            OverallStatus::Timeout
        } else if any_failure {
            OverallStatus::RuntimeError
        } else {
            OverallStatus::Success
        }
    }

    /// Screens a request: a language it cannot build is answered at once
    /// with no build; a problem with no test cases is refused; otherwise the
    /// code is to be built.
    pub fn screen(&self, request: &JudgeRequest) -> (r: Result<Admission, JudgeError>)
        ensures
            language_named(lower_of(request.language@)) is None ==> (r is Ok && match r->Ok_0 {
                Admission::Respond(resp) => unsupported_response_spec(request.language@, resp),
                Admission::Compile(_) => false,
            }),
            language_named(lower_of(request.language@)) is Some
                && request.problem.test_cases@.len() == 0 ==> r == Err::<Admission, JudgeError>(
                JudgeError::NoTestCases,
            ),
            language_named(lower_of(request.language@)) is Some
                && request.problem.test_cases@.len() > 0 ==> r is Ok && r->Ok_0 == Admission::Compile(
                language_named(lower_of(request.language@))->0,
            ),
    {
        match Language::parse(request.language.as_str()) {
            None => {
                let error = String::from_str("Unsupported language: ").concat(
                    request.language.as_str(),
                );
                Ok(
                    Admission::Respond(
                        JudgeResponse {
                            success: false,
                            result: None,
                            error: Some(error),
                            status: OverallStatus::UnsupportedLanguage,
                        },
                    ),
                )
            },
            Some(language) => {
                if request.problem.test_cases.len() == 0 {
                    Err(JudgeError::NoTestCases)
                } else {
                    Ok(Admission::Compile(language))
                }
            },
        }
    }

    /// The response to a request whose build in `language` failed with
    /// `error`; no test case is run.
    pub fn compile_failure(language: Language, error: &CompileError) -> (r: JudgeResponse)
        ensures
            compile_failure_spec(language, *error, r),
    {
        let text = error.message(language);
        JudgeResponse {
            success: false,
            result: None,
            error: Some(String::from_str("Compilation failed: ").concat(text.as_str())),
            status: OverallStatus::CompileError,
        }
    }

    /// The verdict on `request`, given the runs of its test cases in order.
    pub fn evaluate(
        &self,
        request: &JudgeRequest,
        executions: Vec<ExecutionResult>,
        compile_time_ms: u64,
        executable_size_bytes: Option<u64>,
    ) -> (r: JudgeResponse)
        requires
            executions@.len() == request.problem.test_cases@.len(),
            total_time(executions@) <= u64::MAX,
        ensures
            verdict_spec(*request, executions@, compile_time_ms, executable_size_bytes, r),
    {
        let n = executions.len();
        let ghost es = executions@;
        let ghost tcs = request.problem.test_cases@;
        let mut rest = executions;
        let mut results: Vec<TestCaseResult> = Vec::new();
        let mut passed: usize = 0;
        let mut total: u64 = 0;
        let mut i: usize = 0;
        while i < n
            invariant
                n == es.len(),
                n == tcs.len(),
                tcs == request.problem.test_cases@,
                total_time(es) <= u64::MAX,
                i <= n,
                rest@ == es.skip(i as int),
                results@.len() == i,
                forall|k: int|
                    0 <= k < i ==> graded(
                        k as usize,
                        tcs[k],
                        es[k],
                        request.normalization,
                        #[trigger] results@[k],
                    ),
                passed == count_passed(results@),
                passed <= i,
                total == total_time(es.subrange(0, i as int)),
            decreases n - i,
        {
            let e = rest.remove(0);
            assert(e == es[i as int]);
            assert(rest@ =~= es.skip(i + 1));
            proof {
                lemma_total_time_mono(es, i as int + 1);
                assert(es.subrange(0, i + 1).drop_last() =~= es.subrange(0, i as int));
            }
            total = total + e.execution_time;
            let r = self.grade(i, &request.problem.test_cases[i], e, &request.normalization);
            let ghost before = results@;
            if r.passed {
                passed = passed + 1;
            }
            results.push(r);
            assert(results@.drop_last() =~= before);
            i = i + 1;
        }
        assert(es.subrange(0, n as int) =~= es);
        let status = Judge::overall_status(&results);
        let submission = SubmissionResult {
            problem_id: request.problem.id.clone(),
            total_test_cases: n,
            passed_test_cases: passed,
            test_case_results: results,
            compilation_successful: true,
            compilation_error: None,
            total_execution_time: total,
            compile_time_ms: Some(compile_time_ms),
            executable_size_bytes,
        };
        JudgeResponse { success: true, result: Some(submission), error: None, status }
    }
}

proof fn lemma_total_time_mono(es: Seq<ExecutionResult>, j: int)
    requires
        0 <= j <= es.len(),
    ensures
        total_time(es.subrange(0, j)) <= total_time(es),
    decreases es.len() - j,
{
    if j < es.len() {
        lemma_total_time_mono(es, j + 1);
        assert(es.subrange(0, j + 1).drop_last() =~= es.subrange(0, j));
    } else {
        assert(es.subrange(0, j) =~= es);
    }
}


proof fn lemma_count_all(rs: Seq<TestCaseResult>)
    requires
        forall|i: int| 0 <= i < rs.len() ==> #[trigger] rs[i].passed,
    ensures
        count_passed(rs) == rs.len(),
    decreases rs.len(),
{
    if rs.len() > 0 {
        let f = rs.drop_last();
        assert forall|i: int| 0 <= i < f.len() implies #[trigger] f[i].passed by {
            assert(f[i] == rs[i]);
        }
        lemma_count_all(f);
        assert(rs[rs.len() - 1].passed);
    }
}

/// When every run's output matches its test case, every test case counts
/// as passed (a full score) and the status is `Success`.
pub proof fn lemma_all_correct_full_score(
    request: JudgeRequest,
    es: Seq<ExecutionResult>,
    compile_time_ms: u64,
    executable_size_bytes: Option<u64>,
    r: JudgeResponse,
)
    requires
        verdict_spec(request, es, compile_time_ms, executable_size_bytes, r),
        forall|i: int|
            0 <= i < request.problem.test_cases@.len() ==> outputs_match_spec(
                #[trigger] es[i].output@,
                request.problem.test_cases@[i].expected_output@,
                request.normalization,
            ),
    ensures
        r.result->0.passed_test_cases == r.result->0.total_test_cases,
        r.status == OverallStatus::Success,
{
    let rs = r.result->0.test_case_results@;
    assert forall|i: int| 0 <= i < rs.len() implies #[trigger] rs[i].passed by {
        assert(graded(
            i as usize,
            request.problem.test_cases@[i],
            es[i],
            request.normalization,
            rs[i],
        ));
        assert(outputs_match_spec(
            es[i].output@,
            request.problem.test_cases@[i].expected_output@,
            request.normalization,
        ));
    }
    lemma_count_all(rs);
}

/// A run stopped at the time limit is reported as failed with the error
/// "Time limit exceeded", and a test case that it fails makes the status
/// `Timeout`.
pub proof fn lemma_timed_out_run(
    request: JudgeRequest,
    es: Seq<ExecutionResult>,
    compile_time_ms: u64,
    executable_size_bytes: Option<u64>,
    r: JudgeResponse,
    i: int,
    elapsed_ms: u64,
    peak_kb: u64,
)
    requires
        verdict_spec(request, es, compile_time_ms, executable_size_bytes, r),
        0 <= i < request.problem.test_cases@.len(),
        result_spec(RunOutcome::TimedOut, elapsed_ms, peak_kb, es[i]),
        !outputs_match_spec(
            es[i].output@,
            request.problem.test_cases@[i].expected_output@,
            request.normalization,
        ),
    ensures
        !es[i].success,
        es[i].error is Some && es[i].error->0@ == time_limit_text(),
        r.status == OverallStatus::Timeout,
{
    let rs = r.result->0.test_case_results@;
    assert(graded(i as usize, request.problem.test_cases@[i], es[i], request.normalization, rs[i]));
    assert(!rs[i].passed);
    assert(is_timeout(rs[i].execution_result));
}

/// A run that exits with failure after writing to stderr is reported as
/// failed with that text as its error; if no run timed out and some test
/// case failed, the status is `RuntimeError`.
pub proof fn lemma_failed_exit_run(
    request: JudgeRequest,
    es: Seq<ExecutionResult>,
    compile_time_ms: u64,
    executable_size_bytes: Option<u64>,
    r: JudgeResponse,
    i: int,
    stdout: String,
    stderr: String,
    elapsed_ms: u64,
    peak_kb: u64,
)
    requires
        verdict_spec(request, es, compile_time_ms, executable_size_bytes, r),
        0 <= i < request.problem.test_cases@.len(),
        result_spec(
            RunOutcome::Exited { success: false, stdout, stderr },
            elapsed_ms,
            peak_kb,
            es[i],
        ),
        stderr@.len() > 0,
        forall|j: int| 0 <= j < es.len() ==> !is_timeout(#[trigger] es[j]),
        exists|j: int|
            0 <= j < request.problem.test_cases@.len() && !outputs_match_spec(
                #[trigger] es[j].output@,
                request.problem.test_cases@[j].expected_output@,
                request.normalization,
            ),
    ensures
        !es[i].success,
        es[i].error is Some && es[i].error->0@.len() > 0,
        r.status == OverallStatus::RuntimeError,
{
    let rs = r.result->0.test_case_results@;
    let tcs = request.problem.test_cases@;
    let j = choose|j: int|
        0 <= j < tcs.len() && !outputs_match_spec(
            #[trigger] es[j].output@,
            tcs[j].expected_output@,
            request.normalization,
        );
    assert(graded(j as usize, tcs[j], es[j], request.normalization, rs[j]));
    assert(!rs[j].passed);
    assert(graded(i as usize, tcs[i], es[i], request.normalization, rs[i]));
    assert(is_runtime_failure(rs[i].execution_result));
    assert forall|k: int| 0 <= k < rs.len() implies !is_timeout(#[trigger] rs[k].execution_result) by {
        assert(graded(k as usize, tcs[k], es[k], request.normalization, rs[k]));
        assert(!is_timeout(es[k]));
    }
}

/// When every run exited cleanly (success, no error), a wrong answer fails
/// its test case and yet the status is `Success`: the status speaks of the
/// processes, the score of the answers.
pub proof fn lemma_wrong_answer_clean_run(
    request: JudgeRequest,
    es: Seq<ExecutionResult>,
    compile_time_ms: u64,
    executable_size_bytes: Option<u64>,
    r: JudgeResponse,
    i: int,
)
    requires
        verdict_spec(request, es, compile_time_ms, executable_size_bytes, r),
        0 <= i < request.problem.test_cases@.len(),
        forall|j: int| 0 <= j < es.len() ==> (#[trigger] es[j]).success && es[j].error is None,
        !outputs_match_spec(
            es[i].output@,
            request.problem.test_cases@[i].expected_output@,
            request.normalization,
        ),
    ensures
        !r.result->0.test_case_results@[i].passed,
        r.status == OverallStatus::Success,
{
    let rs = r.result->0.test_case_results@;
    let tcs = request.problem.test_cases@;
    assert(graded(i as usize, tcs[i], es[i], request.normalization, rs[i]));
    assert forall|k: int| 0 <= k < rs.len() implies !is_timeout(#[trigger] rs[k].execution_result)
        && !is_runtime_failure(rs[k].execution_result) by {
        assert(graded(k as usize, tcs[k], es[k], request.normalization, rs[k]));
        assert(es[k].success && es[k].error is None);
    }
}

} // verus!

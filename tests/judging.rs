use dsa_judge::compiler::Language;
use dsa_judge::executor::{record_memory_sample, Executor, RunOutcome};
use dsa_judge::judge::{Admission, JudgeError};
use dsa_judge::sandbox::Sandbox;
use dsa_judge::{
    Difficulty, ExecutionResult, Judge, JudgeRequest, NormalizationOptions, OverallStatus,
    Problem, TestCase,
};

fn new_judge() -> Judge {
    Judge::new(Sandbox::new(tempfile::tempdir().unwrap()))
}

fn problem(cases: Vec<(&str, &str)>) -> Problem {
    Problem {
        id: "example-1".to_string(),
        title: "Double the Number".to_string(),
        description: "Read a number and output its double".to_string(),
        difficulty: Difficulty::Easy,
        time_limit: 1000,
        memory_limit: 64,
        test_cases: cases
            .into_iter()
            .map(|(i, e)| TestCase {
                input: i.to_string(),
                expected_output: e.to_string(),
                is_hidden: false,
            })
            .collect(),
        tags: vec!["basic".to_string(), "math".to_string()],
    }
}

fn request(language: &str, cases: Vec<(&str, &str)>) -> JudgeRequest {
    JudgeRequest {
        code: "int main() { return 0; }".to_string(),
        problem: problem(cases),
        language: language.to_string(),
        normalization: NormalizationOptions::default(),
    }
}

fn exited(success: bool, stdout: &str, stderr: &str) -> ExecutionResult {
    Executor::result_of(
        RunOutcome::Exited {
            success,
            stdout: stdout.to_string(),
            stderr: stderr.to_string(),
        },
        12,
        640,
    )
}

#[test]
fn doubling_program_passes() {
    let judge = new_judge();
    let req = request("c", vec![("5\n", "10\n")]);
    let resp = judge.evaluate(&req, vec![exited(true, "10\n", "")], 150, Some(16000));
    assert!(resp.success);
    assert_eq!(resp.status, OverallStatus::Success);
    let s = resp.result.unwrap();
    assert_eq!(s.passed_test_cases, 1);
    assert_eq!(s.total_test_cases, 1);
    assert_eq!(s.passed_test_cases * 100 / s.total_test_cases, 100);
    assert_eq!(s.problem_id, "example-1");
    assert_eq!(s.total_execution_time, 12);
    assert_eq!(s.compile_time_ms, Some(150));
    assert_eq!(s.executable_size_bytes, Some(16000));
    assert!(s.compilation_successful);
    assert!(s.compilation_error.is_none());
    assert_eq!(s.test_case_results[0].test_case_id, 0);
    assert_eq!(s.test_case_results[0].actual_output, "10\n");
}

#[test]
fn wrong_answer_keeps_success_status() {
    let judge = new_judge();
    let req = request("c", vec![("5\n", "11\n")]);
    let resp = judge.evaluate(&req, vec![exited(true, "10\n", "")], 150, None);
    assert_eq!(resp.status, OverallStatus::Success);
    let s = resp.result.unwrap();
    assert!(!s.test_case_results[0].passed);
    assert_eq!(s.passed_test_cases, 0);
    assert_eq!(s.test_case_results[0].expected_output, "11\n");
}

#[test]
fn correct_program_on_all_cases_scores_full() {
    let judge = new_judge();
    let req = request("cpp", vec![("5\n", "10\n"), ("10\n", "20\n")]);
    let runs = vec![exited(true, "10", ""), exited(true, "20\r\n", "")];
    let resp = judge.evaluate(&req, runs, 0, None);
    assert_eq!(resp.status, OverallStatus::Success);
    let s = resp.result.unwrap();
    assert_eq!(s.passed_test_cases, 2);
    assert_eq!(s.total_test_cases, 2);
    assert_eq!(s.total_execution_time, 24);
}

#[test]
fn timed_out_run_gives_timeout_status() {
    let judge = new_judge();
    let req = request("c", vec![("5\n", "10\n"), ("1\n", "2\n")]);
    let tle = Executor::result_of(RunOutcome::TimedOut, 1003, 900);
    assert!(!tle.success);
    assert_eq!(tle.output, "");
    assert_eq!(tle.error.as_deref(), Some("Time limit exceeded"));
    assert_eq!(tle.execution_time, 1003);
    assert_eq!(tle.memory_usage, 900);
    let resp = judge.evaluate(&req, vec![exited(true, "10\n", ""), tle], 1, None);
    assert_eq!(resp.status, OverallStatus::Timeout);
    assert_eq!(resp.result.unwrap().passed_test_cases, 1);
}

#[test]
fn failing_exit_gives_runtime_error() {
    let judge = new_judge();
    let req = request("c", vec![("5\n", "10\n"), ("1\n", "2\n")]);
    let crash = exited(false, "", "Segmentation fault\n");
    assert!(!crash.success);
    assert_eq!(crash.error.as_deref(), Some("Segmentation fault\n"));
    let resp = judge.evaluate(&req, vec![exited(true, "10\n", ""), crash], 1, None);
    assert_eq!(resp.status, OverallStatus::RuntimeError);
}

#[test]
fn timeout_outranks_runtime_error() {
    let judge = new_judge();
    let req = request("c", vec![("1\n", "2\n"), ("2\n", "4\n")]);
    let runs = vec![
        exited(false, "", "abort"),
        Executor::result_of(RunOutcome::TimedOut, 1000, 0),
    ];
    let resp = judge.evaluate(&req, runs, 1, None);
    assert_eq!(resp.status, OverallStatus::Timeout);
}

#[test]
fn failing_exit_without_stderr_has_no_error() {
    let r = exited(false, "partial", "");
    assert!(!r.success);
    assert!(r.error.is_none());
    assert_eq!(r.output, "partial");
    let ok = exited(true, "x", "warning");
    assert!(ok.error.is_none());
}

#[test]
fn engine_failures_zero_the_measurements() {
    let w = Executor::result_of(
        RunOutcome::WaitFailed { message: "no child".to_string() },
        50,
        70,
    );
    assert_eq!(w.error.as_deref(), Some("Process error: no child"));
    assert_eq!(w.execution_time, 0);
    assert_eq!(w.memory_usage, 0);
    let s = Executor::result_of(
        RunOutcome::StartFailed { message: "Failed to start process".to_string() },
        50,
        70,
    );
    assert_eq!(s.error.as_deref(), Some("Execution error: Failed to start process"));
    assert!(!s.success);
}

#[test]
fn unsupported_language_is_answered_without_build() {
    let judge = new_judge();
    let req = request("Java", vec![("1\n", "1\n")]);
    match judge.screen(&req) {
        Ok(Admission::Respond(resp)) => {
            assert!(!resp.success);
            assert!(resp.result.is_none());
            assert_eq!(resp.error.as_deref(), Some("Unsupported language: Java"));
            assert_eq!(resp.status, OverallStatus::UnsupportedLanguage);
        }
        _ => panic!("expected an immediate response"),
    }
}

#[test]
fn language_names_are_case_insensitive() {
    let judge = new_judge();
    for (name, lang) in [("C", Language::C), ("c", Language::C), ("CPP", Language::Cpp), ("c++", Language::Cpp), ("C++", Language::Cpp)] {
        let req = request(name, vec![("1\n", "1\n")]);
        match judge.screen(&req) {
            Ok(Admission::Compile(l)) => assert_eq!(l, lang),
            _ => panic!("expected a build"),
        }
    }
    assert_eq!(Language::parse("Rust"), None);
    assert_eq!(Language::from_lowercase_name("C"), None);
}

#[test]
fn problem_without_test_cases_is_refused() {
    let judge = new_judge();
    let req = request("c", vec![]);
    match judge.screen(&req) {
        Err(e) => {
            assert_eq!(e, JudgeError::NoTestCases);
            assert_eq!(e.message(), "Problem has no test cases");
        }
        _ => panic!("expected a refusal"),
    }
}

#[test]
fn status_of_empty_results_is_success() {
    assert_eq!(Judge::overall_status(&vec![]), OverallStatus::Success);
}

#[test]
fn executor_keeps_its_limits() {
    let e = Executor::new(1500, 256);
    assert_eq!(e.time_limit_ms(), 1500);
    assert_eq!(e.memory_limit_mb(), 256);
}

#[test]
fn memory_peak_is_running_maximum() {
    let mut peak = 0;
    for s in [100, 300, 200, 0] {
        peak = record_memory_sample(peak, s);
    }
    assert_eq!(peak, 300);
}

#[test]
fn sandbox_owns_its_directory() {
    let dir = tempfile::tempdir().unwrap();
    let path = dir.path().to_path_buf();
    let sandbox = Sandbox::new(dir);
    assert_eq!(sandbox.working_dir(), &path);
    assert!(path.is_dir());
    assert_eq!(Sandbox::subdirectories(), vec!["input".to_string(), "output".to_string()]);
    let judge = Judge::new(sandbox);
    assert_eq!(judge.sandbox().working_dir(), &path);
    drop(judge);
    assert!(!path.exists());
}

use dsa_judge::compiler::{
    cache_entry, compile_step, toolchain_args, BuildOutcome, CompileAction, CompileError,
    CompileEvent, Language, MAX_SOURCE_BYTES,
};
use dsa_judge::interactive::{
    build_result, files_for_execute, interactive_args, is_expired_run_artifact, is_source_file,
    plan_build, run_artifact_name, select_sources, InteractiveError,
};
use dsa_judge::judge::Judge;
use dsa_judge::{CodeFile, OverallStatus};

#[test]
fn oversized_source_is_refused_first() {
    let big = "x".repeat(MAX_SOURCE_BYTES + 1);
    assert!(matches!(
        compile_step(&big, CompileEvent::Begin),
        CompileAction::Fail(CompileError::SourceTooLarge)
    ));
    let edge = "x".repeat(MAX_SOURCE_BYTES);
    assert!(matches!(compile_step(&edge, CompileEvent::Begin), CompileAction::ProbeCache));
    let wide = "é".repeat(MAX_SOURCE_BYTES / 2 + 1);
    assert!(matches!(
        compile_step(&wide, CompileEvent::Begin),
        CompileAction::Fail(CompileError::SourceTooLarge)
    ));
}

#[test]
fn equal_sources_share_a_cache_entry() {
    let a = "int main(){return 0;}";
    let b = String::from("int main(){return 0;}");
    assert_eq!(cache_entry(a, Language::C), cache_entry(&b, Language::C));
    assert_ne!(cache_entry(a, Language::C), cache_entry(a, Language::Cpp));
    assert_ne!(cache_entry(a, Language::C), cache_entry("int main(){}", Language::C));
    assert!(matches!(
        compile_step(a, CompileEvent::CacheProbed { hit: true }),
        CompileAction::UseCached
    ));
    assert!(matches!(
        compile_step(a, CompileEvent::CacheProbed { hit: false }),
        CompileAction::Build
    ));
}

#[test]
fn cache_entry_is_sha1_and_language() {
    assert_eq!(
        cache_entry("abc", Language::C),
        "a9993e364706816aba3e25717850c26c9cd0d89d_c.exe"
    );
    assert_eq!(
        cache_entry("", Language::Cpp),
        "da39a3ee5e6b4b0d3255bfef95601890afd80709_cpp.exe"
    );
}

#[test]
fn build_outcomes_map_to_actions() {
    let fin = |success: bool, size: Option<u64>| CompileEvent::Built {
        outcome: BuildOutcome::Finished {
            success,
            diagnostics: "e.c:1: error".to_string(),
            executable_size: size,
        },
    };
    assert!(matches!(compile_step("", fin(true, Some(1000))), CompileAction::Store));
    assert!(matches!(compile_step("", fin(true, None)), CompileAction::Store));
    assert!(matches!(
        compile_step("", fin(true, Some(64 * 1024 * 1024 + 1))),
        CompileAction::Fail(CompileError::ExecutableTooLarge)
    ));
    assert!(matches!(compile_step("", fin(true, Some(64 * 1024 * 1024))), CompileAction::Store));
    match compile_step("", fin(false, Some(10))) {
        CompileAction::Fail(CompileError::Failed { diagnostics }) => {
            assert_eq!(diagnostics, "e.c:1: error")
        }
        _ => panic!("expected a build failure"),
    }
    assert!(matches!(
        compile_step("", CompileEvent::Built { outcome: BuildOutcome::TimedOut }),
        CompileAction::Fail(CompileError::TimedOut)
    ));
    assert!(matches!(
        compile_step("", CompileEvent::Built { outcome: BuildOutcome::WriteFailed }),
        CompileAction::Fail(CompileError::WriteFailed)
    ));
    assert!(matches!(
        compile_step("", CompileEvent::Built { outcome: BuildOutcome::LaunchFailed }),
        CompileAction::Fail(CompileError::LaunchFailed)
    ));
    assert!(matches!(compile_step("", CompileEvent::Stored { copied: true }), CompileAction::UseCached));
    assert!(matches!(compile_step("", CompileEvent::Stored { copied: false }), CompileAction::UseBuilt));
}

#[test]
fn compile_error_texts() {
    assert_eq!(CompileError::SourceTooLarge.message(Language::C), "Source too large");
    assert_eq!(CompileError::TimedOut.message(Language::C), "gcc timeout");
    assert_eq!(CompileError::TimedOut.message(Language::Cpp), "g++ timeout");
    assert_eq!(CompileError::LaunchFailed.message(Language::Cpp), "Failed to execute g++");
    assert_eq!(CompileError::ExecutableTooLarge.message(Language::C), "Executable too large");
    let resp = Judge::compile_failure(
        Language::C,
        &CompileError::Failed { diagnostics: "bad".to_string() },
    );
    assert!(!resp.success);
    assert!(resp.result.is_none());
    assert_eq!(resp.status, OverallStatus::CompileError);
    assert_eq!(resp.error.as_deref(), Some("Compilation failed: Compilation failed: bad"));
}

#[test]
fn toolchain_command_line() {
    assert_eq!(
        toolchain_args(Language::C, "/w/solution.c", "/w/solution.exe"),
        vec!["-pipe", "-o", "/w/solution.exe", "/w/solution.c", "-std=c99", "-O2", "-Wall", "-Wextra"]
    );
    assert_eq!(toolchain_args(Language::Cpp, "s", "e")[4], "-std=c++17");
    assert_eq!(Language::C.compiler_program(), "gcc");
    assert_eq!(Language::Cpp.compiler_program(), "g++");
    assert_eq!(Language::Cpp.source_file_name(), "solution.cpp");
}

fn file(name: &str) -> CodeFile {
    CodeFile { filename: name.to_string(), content: String::new() }
}

#[test]
fn sources_are_selected_by_extension() {
    let files = vec![file("main.c"), file("util.h"), file("Lib.CPP"), file("notes.txt"), file("x.rs")];
    assert_eq!(select_sources(&files, "c"), vec!["main.c", "Lib.CPP"]);
    assert_eq!(select_sources(&files, "rust"), vec!["x.rs"]);
    assert!(is_source_file("A.C", "cpp"));
    assert!(!is_source_file("a.h", "c"));
}

#[test]
fn interactive_plans() {
    let files = vec![file("main.cpp"), file("a.h")];
    let plan = plan_build(&files, "cpp").ok().unwrap();
    assert_eq!(plan.program, "g++");
    assert_eq!(plan.sources, vec!["main.cpp"]);
    match plan_build(&files, "java") {
        Err(e @ InteractiveError::UnsupportedLanguage { .. }) => {
            assert_eq!(e.message(), "Unsupported language: java")
        }
        _ => panic!("expected unsupported"),
    }
    match plan_build(&vec![file("a.h")], "c") {
        Err(e @ InteractiveError::NoSourceFiles) => assert_eq!(e.message(), "No source files found"),
        _ => panic!("expected no sources"),
    }
}

#[test]
fn interactive_command_lines() {
    let srcs = vec!["a.c".to_string(), "b.c".to_string()];
    assert_eq!(
        interactive_args("c", &srcs, "/t/program"),
        vec!["a.c", "b.c", "-o", "/t/program", "-std=c99", "-O2", "-Wall", "-Wextra"]
    );
    assert_eq!(interactive_args("cpp", &srcs, "p")[4], "-std=c++17");
    assert_eq!(interactive_args("rust", &vec!["m.rs".to_string()], "p"), vec!["m.rs", "-O", "-o", "p"]);
}

#[test]
fn interactive_results() {
    let ok = build_result(true, String::new(), "/tmp/dsa-run-1-0".to_string(), 33);
    assert!(ok.success);
    assert_eq!(ok.executable_path.as_deref(), Some("/tmp/dsa-run-1-0"));
    assert!(ok.error.is_none());
    assert_eq!(ok.compile_time_ms, 33);
    let bad = build_result(false, "err".to_string(), "/tmp/x".to_string(), 5);
    assert!(bad.executable_path.is_none());
    assert_eq!(bad.error.as_deref(), Some("err"));
}

#[test]
fn run_artifacts() {
    assert_eq!(run_artifact_name(1700000000123456, 7, false), "dsa-run-1700000000123456-7");
    assert_eq!(run_artifact_name(0, 0, true), "dsa-run-0-0.exe");
    let half_hour: u128 = 30 * 60 * 1_000_000_000;
    assert!(is_expired_run_artifact("dsa-run-1-2", Some(half_hour + 1)));
    assert!(!is_expired_run_artifact("dsa-run-1-2", Some(half_hour)));
    assert!(!is_expired_run_artifact("dsa-run-1-2", None));
    assert!(!is_expired_run_artifact("other-1-2", Some(half_hour * 10)));
}

#[test]
fn execute_request_files() {
    let one = files_for_execute(Some("int main(){}".to_string()), "cpp", None).unwrap();
    assert_eq!(one.len(), 1);
    assert_eq!(one[0].filename, "main.cpp");
    assert_eq!(one[0].content, "int main(){}");
    assert_eq!(files_for_execute(Some(String::new()), "c", None).unwrap()[0].filename, "main.c");
    let given = files_for_execute(Some("ignored".to_string()), "c", Some(vec![file("z.c")])).unwrap();
    assert_eq!(given[0].filename, "z.c");
    assert_eq!(
        files_for_execute(None, "c", None).err().unwrap(),
        "Either 'code' or 'files' must be provided"
    );
}

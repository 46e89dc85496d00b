//! Builds for interactive use: several named files, compiled together into
//! an executable that is kept in a run-artifact store, which sweeps out
//! artifacts older than a retention window.
use vstd::prelude::*;

use crate::text::{
    decimal, decimal_string, ends_with, has_prefix, has_suffix, lower_of, lowercase, starts_with,
};

verus! {

/// The time the toolchain is given, in seconds.
pub const INTERACTIVE_COMPILE_TIMEOUT_SECS: u64 = 15;

/// How long a run artifact is kept, in nanoseconds (30 minutes).
pub const RUN_ARTIFACT_RETENTION_NANOS: u128 = 1800000000000;

/// A named file of a multi-file submission.
#[derive(Debug, Clone)]
pub struct CodeFile {
    pub filename: String,
    pub content: String,
}

/// The outcome of an interactive build.
#[derive(Debug)]
pub struct CompileResult {
    pub success: bool,
    pub executable_path: Option<String>,
    pub error: Option<String>,
    pub compile_time_ms: u64,
}

/// What one interactive run measured.
#[derive(Debug)]
pub struct ExecutionMetrics {
    pub execution_time_ms: u64,
    pub peak_memory_kb: u64,
}

/// The toolchain of an interactive build in `language`.
pub open spec fn interactive_compiler_spec(language: Seq<char>) -> Option<Seq<char>> {
    if language == "c"@ {
        Some("gcc"@)
    } else if language == "cpp"@ {
        Some("g++"@)
    } else if language == "rust"@ {
        Some("rustc"@)
    } else {
        None
    }
}

/// A file name, in lower case, is a source file of `language`.
pub open spec fn is_source_name(lower_name: Seq<char>, language: Seq<char>) -> bool {
    if language == "rust"@ {
        has_suffix(lower_name, ".rs"@)
    } else {
        has_suffix(lower_name, ".c"@) || has_suffix(lower_name, ".cpp"@)
    }
}

/// The names of the source files among `files`, in order.
pub open spec fn source_names(files: Seq<CodeFile>, language: Seq<char>) -> Seq<Seq<char>> {
    files.map_values(|f: CodeFile| f.filename@).filter(
        |n: Seq<char>| is_source_name(lower_of(n), language),
    )
}

/// Why an interactive build was not attempted.
#[derive(Debug, Clone)]
pub enum InteractiveError {
    UnsupportedLanguage { language: String },
    NoSourceFiles,
}

impl InteractiveError {
    pub fn message(&self) -> (r: String)
        ensures
            r@ == match *self {
                InteractiveError::UnsupportedLanguage { language } => "Unsupported language: "@
                    + language@,
                InteractiveError::NoSourceFiles => "No source files found"@,
            },
    {
        match self {
            InteractiveError::UnsupportedLanguage { language } => String::from_str(
                "Unsupported language: ",
            ).concat(language.as_str()),
            InteractiveError::NoSourceFiles => String::from_str("No source files found"),
        }
    }
}

/// The toolchain to run and the source files to pass it.
pub struct BuildPlan {
    pub program: String,
    pub sources: Vec<String>,
}

/// Whether `filename` names a source file of `language`, by its extension
/// in any case.
pub fn is_source_file(filename: &str, language: &str) -> (r: bool)
    ensures
        r == is_source_name(lower_of(filename@), language@),
{
    let lower = lowercase(filename);
    let l = language.to_owned();
    if l == String::from_str("rust") {
        ends_with(lower.as_str(), ".rs")
    } else {
        ends_with(lower.as_str(), ".c") || ends_with(lower.as_str(), ".cpp")
    }
}

/// The names of the source files among `files`, in order.
pub fn select_sources(files: &Vec<CodeFile>, language: &str) -> (r: Vec<String>)
    ensures
        r@.map_values(|s: String| s@) == source_names(files@, language@),
{
    let ghost names = files@.map_values(|f: CodeFile| f.filename@);
    let ghost pred = |n: Seq<char>| is_source_name(lower_of(n), language@);
    let mut r: Vec<String> = Vec::new();
    let mut i: usize = 0;
    proof {
        reveal(Seq::filter);
        assert(r@.map_values(|s: String| s@) =~= names.subrange(0, 0).filter(pred));
    }
    while i < files.len()
        invariant
            i <= files@.len(),
            names == files@.map_values(|f: CodeFile| f.filename@),
            pred == (|n: Seq<char>| is_source_name(lower_of(n), language@)),
            r@.map_values(|s: String| s@) == names.subrange(0, i as int).filter(pred),
        decreases files@.len() - i,
    {
        let ghost before = r@;
        proof {
            reveal(Seq::filter);
        }
        assert(names.subrange(0, i + 1).drop_last() =~= names.subrange(0, i as int));
        assert(names.subrange(0, i + 1).last() == files@[i as int].filename@);
        if is_source_file(files[i].filename.as_str(), language) {
            r.push(files[i].filename.clone());
            assert(r@.map_values(|s: String| s@) =~= before.map_values(|s: String| s@).push(
                files@[i as int].filename@,
            ));
        }
        i = i + 1;
    }
    assert(names.subrange(0, files@.len() as int) =~= names);
    r
}

/// Plans an interactive build: the toolchain of `language` and the source
/// files among `files`; refused for a language with no toolchain, or when
/// no file is a source file.
pub fn plan_build(files: &Vec<CodeFile>, language: &str) -> (r: Result<BuildPlan, InteractiveError>)
    ensures
        interactive_compiler_spec(language@) is None ==> r is Err && match r->Err_0 {
            InteractiveError::UnsupportedLanguage { language: l } => l@ == language@,
            _ => false,
        },
        interactive_compiler_spec(language@) is Some && source_names(files@, language@).len() == 0
            ==> r is Err && r->Err_0 is NoSourceFiles,
        interactive_compiler_spec(language@) is Some && source_names(files@, language@).len() > 0
            ==> r is Ok && r->Ok_0.program@ == interactive_compiler_spec(language@)->0
            && r->Ok_0.sources@.map_values(|s: String| s@) == source_names(files@, language@),
{
    let l = language.to_owned();
    let program = if l == String::from_str("c") {
        String::from_str("gcc")
    } else if l == String::from_str("cpp") {
        String::from_str("g++")
    } else if l == String::from_str("rust") {
        String::from_str("rustc")
    } else {
        return Err(InteractiveError::UnsupportedLanguage { language: l });
    };
    let sources = select_sources(files, language);
    if sources.len() == 0 {
        return Err(InteractiveError::NoSourceFiles);
    }
    Ok(BuildPlan { program, sources })
}

/// The toolchain arguments of an interactive build in `language`.
pub open spec fn interactive_args_spec(
    language: Seq<char>,
    sources: Seq<Seq<char>>,
    executable_path: Seq<char>,
) -> Seq<Seq<char>> {
    if language == "rust"@ {
        sources + seq!["-O"@, "-o"@, executable_path]
    } else {
        sources + seq![
            "-o"@,
            executable_path,
            if language == "c"@ {
                "-std=c99"@
            } else {
                "-std=c++17"@
            },
            "-O2"@,
            "-Wall"@,
            "-Wextra"@,
        ]
    }
}

pub fn interactive_args(language: &str, sources: &Vec<String>, executable_path: &str) -> (r: Vec<
    String,
>)
    ensures
        r@.map_values(|s: String| s@) == interactive_args_spec(
            language@,
            sources@.map_values(|s: String| s@),
            executable_path@,
        ),
{
    let mut r: Vec<String> = Vec::new();
    let mut i: usize = 0;
    while i < sources.len()
        invariant
            i <= sources@.len(),
            r@.map_values(|s: String| s@) == sources@.subrange(0, i as int).map_values(
                |s: String| s@,
            ),
        decreases sources@.len() - i,
    {
        r.push(sources[i].clone());
        assert(sources@.subrange(0, i + 1).map_values(|s: String| s@) =~= sources@.subrange(
            0,
            i as int,
        ).map_values(|s: String| s@).push(sources@[i as int]@));
        assert(r@.map_values(|s: String| s@) =~= sources@.subrange(0, i + 1).map_values(
            |s: String| s@,
        ));
        i = i + 1;
    }
    assert(sources@.subrange(0, sources@.len() as int) =~= sources@);
    let ghost head = r@.map_values(|s: String| s@);
    let l = language.to_owned();
    if l == String::from_str("rust") {
        r.push(String::from_str("-O"));
        r.push(String::from_str("-o"));
        r.push(executable_path.to_owned());
    } else {
        r.push(String::from_str("-o"));
        r.push(executable_path.to_owned());
        if l == String::from_str("c") {
            r.push(String::from_str("-std=c99"));
        } else {
            r.push(String::from_str("-std=c++17"));
        }
        r.push(String::from_str("-O2"));
        r.push(String::from_str("-Wall"));
        r.push(String::from_str("-Wextra"));
    }
    assert(r@.map_values(|s: String| s@) =~= interactive_args_spec(
        language@,
        sources@.map_values(|s: String| s@),
        executable_path@,
    ));
    r
}

/// The result of an interactive build whose toolchain exited: on success
/// the executable's path; on failure the diagnostics.
pub fn build_result(success: bool, diagnostics: String, executable_path: String, compile_time_ms: u64) -> (r:
    CompileResult)
    ensures
        r.success == success,
        r.compile_time_ms == compile_time_ms,
        success ==> r.executable_path is Some && r.executable_path->0@ == executable_path@
            && r.error is None,
        !success ==> r.executable_path is None && r.error is Some && r.error->0@ == diagnostics@,
{
    if success {
        CompileResult {
            success: true,
            executable_path: Some(executable_path),
            error: None,
            compile_time_ms,
        }
    } else {
        CompileResult { success: false, executable_path: None, error: Some(diagnostics), compile_time_ms }
    }
}

pub open spec fn run_artifact_prefix() -> Seq<char> {
    "dsa-run-"@
}

/// The file name of a run artifact made at `timestamp_micros` as the
/// `counter`-th of the process.
pub open spec fn run_artifact_name_spec(timestamp_micros: u128, counter: u64, windows: bool) -> Seq<
    char,
> {
    run_artifact_prefix() + decimal(timestamp_micros as nat) + "-"@ + decimal(counter as nat) + if windows {
        ".exe"@
    } else {
        ""@
    }
}

pub fn run_artifact_name(timestamp_micros: u128, counter: u64, windows: bool) -> (r: String)
    ensures
        r@ == run_artifact_name_spec(timestamp_micros, counter, windows),
{
    let ts = decimal_string(timestamp_micros);
    let n = decimal_string(counter as u128);
    let suffix = if windows {
        String::from_str(".exe")
    } else {
        String::from_str("")
    };
    String::from_str("dsa-run-").concat(ts.as_str()).concat("-").concat(n.as_str()).concat(
        suffix.as_str(),
    )
}

/// A file of the artifact store is swept when its name marks it as a run
/// artifact and its age is known and over the retention window.
pub fn is_expired_run_artifact(file_name: &str, age_nanos: Option<u128>) -> (r: bool)
    ensures
        r == (has_prefix(file_name@, run_artifact_prefix()) && age_nanos is Some && age_nanos->0
            > RUN_ARTIFACT_RETENTION_NANOS),
{
    if !starts_with(file_name, "dsa-run-") {
        return false;
    }
    match age_nanos {
        Some(age) => age > RUN_ARTIFACT_RETENTION_NANOS,
        None => false,
    }
}

/// The files of an `execute` request: those given, else a single file
/// holding `code` (`main.cpp` for `cpp`, `main.c` otherwise); an error when
/// neither is given.
pub fn files_for_execute(code: Option<String>, language: &str, files: Option<Vec<CodeFile>>) -> (r:
    Result<Vec<CodeFile>, String>)
    ensures
        files is Some ==> r is Ok && r->Ok_0 == files->0,
        files is None && code is Some ==> r is Ok && r->Ok_0@.len() == 1 && r->Ok_0@[0].content
            == code->0 && r->Ok_0@[0].filename@ == if language@ == "cpp"@ {
            "main.cpp"@
        } else {
            "main.c"@
        },
        files is None && code is None ==> r is Err && r->Err_0@
            == "Either 'code' or 'files' must be provided"@,
{
    match files {
        Some(fs) => Ok(fs),
        None => match code {
            Some(c) => {
                let l = language.to_owned();
                let filename = if l == String::from_str("cpp") {
                    String::from_str("main.cpp")
                } else {
                    String::from_str("main.c")
                };
                let mut v: Vec<CodeFile> = Vec::new();
                v.push(CodeFile { filename, content: c });
                Ok(v)
            },
            None => Err(String::from_str("Either 'code' or 'files' must be provided")),
        },
    }
}

} // verus!

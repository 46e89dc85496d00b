//! Building a submission: the languages, the size ceilings, the
//! content-addressed cache entry, the toolchain command line, and the
//! decisions of the build, one step at a time.
use vstd::prelude::*;

verus! {

/// The largest source accepted, in bytes.
pub const MAX_SOURCE_BYTES: usize = 262144;

/// The largest executable accepted, in bytes.
pub const MAX_EXECUTABLE_BYTES: u64 = 67108864;

/// The time the toolchain is given, in seconds.
pub const COMPILE_TIMEOUT_SECS: u64 = 10;

/// A source language that the judge builds.
#[derive(Debug, Clone, Copy, PartialEq, Eq, Structural)]
pub enum Language {
    C,
    Cpp,
}

/// The language of a name already in lower case.
pub open spec fn language_named(s: Seq<char>) -> Option<Language> {
    if s == "c"@ {
        Some(Language::C)
    } else if s == "cpp"@ || s == "c++"@ {
        Some(Language::Cpp)
    } else {
        None
    }
}

pub open spec fn compiler_program_spec(l: Language) -> Seq<char> {
    match l {
        Language::C => "gcc"@,
        Language::Cpp => "g++"@,
    }
}

pub open spec fn source_file_spec(l: Language) -> Seq<char> {
    match l {
        Language::C => "solution.c"@,
        Language::Cpp => "solution.cpp"@,
    }
}

pub open spec fn standard_flag_spec(l: Language) -> Seq<char> {
    match l {
        Language::C => "-std=c99"@,
        Language::Cpp => "-std=c++17"@,
    }
}

pub open spec fn cache_tag_spec(l: Language) -> Seq<char> {
    match l {
        Language::C => "c"@,
        Language::Cpp => "cpp"@,
    }
}

impl Language {
    /// The language of a name that is already in lower case: `"c"`, or
    /// `"cpp"` and `"c++"`.
    pub fn from_lowercase_name(name: &str) -> (r: Option<Language>)
        ensures
            r == language_named(name@),
    {
        let s = name.to_owned();
        if s == String::from_str("c") {
            Some(Language::C)
        } else if s == String::from_str("cpp") || s == String::from_str("c++") {
            Some(Language::Cpp)
        } else {
            None
        }
    }

    /// The language of a name in any case.
    pub fn parse(name: &str) -> (r: Option<Language>)
        ensures
            r == language_named(crate::text::lower_of(name@)),
    {
        let lower = crate::text::lowercase(name);
        Language::from_lowercase_name(lower.as_str())
    }

    /// The toolchain that builds this language.
    pub fn compiler_program(&self) -> (r: String)
        ensures
            r@ == compiler_program_spec(*self),
    {
        match self {
            Language::C => String::from_str("gcc"),
            Language::Cpp => String::from_str("g++"),
        }
    }

    /// The name the source is written under in the scratch directory.
    pub fn source_file_name(&self) -> (r: String)
        ensures
            r@ == source_file_spec(*self),
    {
        match self {
            Language::C => String::from_str("solution.c"),
            Language::Cpp => String::from_str("solution.cpp"),
        }
    }

    /// The language standard the build is held to.
    pub fn standard_flag(&self) -> (r: String)
        ensures
            r@ == standard_flag_spec(*self),
    {
        match self {
            Language::C => String::from_str("-std=c99"),
            Language::Cpp => String::from_str("-std=c++17"),
        }
    }

    /// The tag of the language in cache entry names.
    pub fn cache_tag(&self) -> (r: String)
        ensures
            r@ == cache_tag_spec(*self),
    {
        match self {
            Language::C => String::from_str("c"),
            Language::Cpp => String::from_str("cpp"),
        }
    }
}

/// The SHA-1 digest of the UTF-8 encoding of `s`, in hexadecimal, as
/// `sha1_smol` renders it.
pub uninterp spec fn sha1_hex_of(s: Seq<char>) -> Seq<char>;

/// Relies on sha1_smol: `Sha1::update` over the UTF-8 bytes of `s`, then
/// `digest()` rendered by its `Display`; the digest is a function of the
/// bytes alone.
#[verifier::external_body]
fn sha1_hex(s: &str) -> (r: String)
    ensures
        r@ == sha1_hex_of(s@),
{
    let mut hasher = sha1_smol::Sha1::new();
    hasher.update(s.as_bytes());
    hasher.digest().to_string()
}

/// The name of the cache entry of a source in a language: the source's
/// digest and the language, so that equal sources share one entry.
pub open spec fn cache_entry_spec(code: Seq<char>, l: Language) -> Seq<char> {
    sha1_hex_of(code) + "_"@ + cache_tag_spec(l) + ".exe"@
}

/// The name of the cache entry of `code` in `language`.
pub fn cache_entry(code: &str, language: Language) -> (r: String)
    ensures
        r@ == cache_entry_spec(code@, language),
{
    let digest = sha1_hex(code);
    let tag = language.cache_tag();
    digest.concat("_").concat(tag.as_str()).concat(".exe")
}

/// The arguments of the toolchain that builds `source_path` into
/// `executable_path`.
pub open spec fn toolchain_args_spec(l: Language, source_path: Seq<char>, executable_path: Seq<
    char,
>) -> Seq<Seq<char>> {
    seq![
        "-pipe"@,
        "-o"@,
        executable_path,
        source_path,
        standard_flag_spec(l),
        "-O2"@,
        "-Wall"@,
        "-Wextra"@,
    ]
}

pub fn toolchain_args(language: Language, source_path: &str, executable_path: &str) -> (r: Vec<
    String,
>)
    ensures
        r@.map_values(|a: String| a@) == toolchain_args_spec(language, source_path@, executable_path@),
{
    let mut r: Vec<String> = Vec::new();
    r.push(String::from_str("-pipe"));
    r.push(String::from_str("-o"));
    r.push(executable_path.to_owned());
    r.push(source_path.to_owned());
    r.push(language.standard_flag());
    r.push(String::from_str("-O2"));
    r.push(String::from_str("-Wall"));
    r.push(String::from_str("-Wextra"));
    assert(r@.map_values(|a: String| a@) =~= toolchain_args_spec(
        language,
        source_path@,
        executable_path@,
    ));
    r
}

/// Why a build gave no executable.
#[derive(Debug, Clone)]
pub enum CompileError {
    /// The source is over `MAX_SOURCE_BYTES`; nothing was written or run.
    SourceTooLarge,
    /// The source could not be written to the scratch directory.
    WriteFailed,
    /// The toolchain could not be started.
    LaunchFailed,
    /// The toolchain ran past `COMPILE_TIMEOUT_SECS` and was killed.
    TimedOut,
    /// The toolchain exited with failure; its diagnostics.
    Failed { diagnostics: String },
    /// The executable is over `MAX_EXECUTABLE_BYTES`.
    ExecutableTooLarge,
}

pub open spec fn compile_error_text(e: CompileError, l: Language) -> Seq<char> {
    match e {
        CompileError::SourceTooLarge => "Source too large"@,
        CompileError::WriteFailed => "Failed to write source code"@,
        CompileError::LaunchFailed => "Failed to execute "@ + compiler_program_spec(l),
        CompileError::TimedOut => compiler_program_spec(l) + " timeout"@,
        CompileError::Failed { diagnostics } => "Compilation failed: "@ + diagnostics@,
        CompileError::ExecutableTooLarge => "Executable too large"@,
    }
}

impl CompileError {
    /// The error's text, for a build in `language`.
    pub fn message(&self, language: Language) -> (r: String)
        ensures
            r@ == compile_error_text(*self, language),
    {
        match self {
            CompileError::SourceTooLarge => String::from_str("Source too large"),
            CompileError::WriteFailed => String::from_str("Failed to write source code"),
            CompileError::LaunchFailed => {
                let p = language.compiler_program();
                String::from_str("Failed to execute ").concat(p.as_str())
            },
            CompileError::TimedOut => {
                let p = language.compiler_program();
                p.concat(" timeout")
            },
            CompileError::Failed { diagnostics } => String::from_str("Compilation failed: ").concat(
                diagnostics.as_str(),
            ),
            CompileError::ExecutableTooLarge => String::from_str("Executable too large"),
        }
    }
}

/// What came of writing the source and running the toolchain.
pub enum BuildOutcome {
    WriteFailed,
    LaunchFailed,
    TimedOut,
    /// The toolchain exited; with its diagnostics and, where it could be
    /// read, the size of the executable in bytes.
    Finished { success: bool, diagnostics: String, executable_size: Option<u64> },
}

/// What was last observed while building.
pub enum CompileEvent {
    /// Nothing has been done yet.
    Begin,
    /// The cache entry was looked up.
    CacheProbed { hit: bool },
    /// The source was written and the toolchain run.
    Built { outcome: BuildOutcome },
    /// The copy of the executable into the cache was tried; it is best
    /// effort, and a failed copy fails nothing.
    Stored { copied: bool },
}

/// What the build does next.
pub enum CompileAction {
    /// Look up the cache entry of the source.
    ProbeCache,
    /// Write the source to the scratch directory and run the toolchain.
    Build,
    /// Copy the new executable into the cache entry.
    Store,
    /// Done: the executable is the one in the cache entry.
    UseCached,
    /// Done: the executable is the one just built in the scratch directory.
    UseBuilt,
    /// Done: no executable.
    Fail(CompileError),
}

/// The byte length of `code` is over the ceiling.
pub open spec fn source_too_large(code: &str) -> bool {
    code.len() > MAX_SOURCE_BYTES
}

pub open spec fn compile_step_spec(code: &str, event: CompileEvent) -> CompileAction {
    match event {
        CompileEvent::Begin => if source_too_large(code) {
            CompileAction::Fail(CompileError::SourceTooLarge)
        } else {
            CompileAction::ProbeCache
        },
        CompileEvent::CacheProbed { hit } => if hit {
            CompileAction::UseCached
        } else {
            CompileAction::Build
        },
        CompileEvent::Built { outcome } => match outcome {
            BuildOutcome::WriteFailed => CompileAction::Fail(CompileError::WriteFailed),
            BuildOutcome::LaunchFailed => CompileAction::Fail(CompileError::LaunchFailed),
            BuildOutcome::TimedOut => CompileAction::Fail(CompileError::TimedOut),
            BuildOutcome::Finished { success, diagnostics, executable_size } => if !success {
                CompileAction::Fail(CompileError::Failed { diagnostics })
            } else if executable_size is Some && executable_size->0 > MAX_EXECUTABLE_BYTES {
                CompileAction::Fail(CompileError::ExecutableTooLarge)
            } else {
                CompileAction::Store
            },
        },
        CompileEvent::Stored { copied } => if copied {
            CompileAction::UseCached
        } else {
            CompileAction::UseBuilt
        },
    }
}

/// The next action of the build of `code`, after `event`. The source size
/// is checked before anything touches the disk; a cache hit ends the build
/// without the toolchain.
pub fn compile_step(code: &str, event: CompileEvent) -> (r: CompileAction)
    ensures
        r == compile_step_spec(code, event),
{
    match event {
        CompileEvent::Begin => {
            if code.len() > MAX_SOURCE_BYTES {
                CompileAction::Fail(CompileError::SourceTooLarge)
            } else {
                CompileAction::ProbeCache
            }
        },
        CompileEvent::CacheProbed { hit } => {
            if hit {
                CompileAction::UseCached
            } else {
                CompileAction::Build
            }
        },
        CompileEvent::Built { outcome } => match outcome {
            BuildOutcome::WriteFailed => CompileAction::Fail(CompileError::WriteFailed),
            BuildOutcome::LaunchFailed => CompileAction::Fail(CompileError::LaunchFailed),
            BuildOutcome::TimedOut => CompileAction::Fail(CompileError::TimedOut),
            BuildOutcome::Finished { success, diagnostics, executable_size } => {
                if !success {
                    CompileAction::Fail(CompileError::Failed { diagnostics })
                } else {
                    match executable_size {
                        Some(n) => {
                            if n > MAX_EXECUTABLE_BYTES {
                                CompileAction::Fail(CompileError::ExecutableTooLarge)
                            } else {
                                CompileAction::Store
                            }
                        },
                        None => CompileAction::Store,
                    }
                }
            },
        },
        CompileEvent::Stored { copied } => {
            if copied {
                CompileAction::UseCached
            } else {
                CompileAction::UseBuilt
            }
        },
    }
}

/// Equal sources in one language share a cache entry, and once that entry
/// is found the build ends there, with no toolchain run.
pub proof fn lemma_equal_sources_share_cache(a: &str, b: &str, language: Language)
    requires
        a@ == b@,
    ensures
        cache_entry_spec(a@, language) == cache_entry_spec(b@, language),
        compile_step_spec(b, CompileEvent::CacheProbed { hit: true }) == CompileAction::UseCached,
{
}

/// A source over the ceiling is refused at the first step, before the
/// cache, the scratch directory or the toolchain is touched.
pub proof fn lemma_large_source_refused_first(code: &str)
    requires
        source_too_large(code),
    ensures
        compile_step_spec(code, CompileEvent::Begin) == CompileAction::Fail(
            CompileError::SourceTooLarge,
        ),
{
}

} // verus!

//! The judge's private working directory. It lives as long as the value
//! that holds it: dropping the sandbox removes the directory and all in it.
use vstd::prelude::*;

use std::path::PathBuf;
use tempfile::TempDir;

verus! {

#[verifier::external_type_specification]
#[verifier::external_body]
pub struct ExTempDir(tempfile::TempDir);

#[verifier::external_type_specification]
#[verifier::external_body]
pub struct ExPathBuf(std::path::PathBuf);

/// Relies on `tempfile::TempDir::path`: the directory's path, copied out.
#[verifier::external_body]
fn path_of(dir: &TempDir) -> PathBuf {
    dir.path().to_path_buf()
}

/// The names of the subdirectories that the sandbox provides.
pub open spec fn subdirectory_names() -> Seq<Seq<char>> {
    seq!["input"@, "output"@]
}

/// A private working directory, removed when the sandbox is dropped.
pub struct Sandbox {
    dir: TempDir,
    working_directory: PathBuf,
}

impl Sandbox {
    pub closed spec fn spec_working_dir(&self) -> PathBuf {
        self.working_directory
    }

    /// The sandbox of a freshly created temporary directory, which it now
    /// owns.
    pub fn new(dir: TempDir) -> (r: Sandbox) {
        let working_directory = path_of(&dir);
        Sandbox { dir, working_directory }
    }

    /// The path of the working directory.
    pub fn working_dir(&self) -> (r: &PathBuf)
        ensures
            *r == self.spec_working_dir(),
    {
        &self.working_directory
    }

    /// The subdirectories to create under the working directory.
    pub fn subdirectories() -> (r: Vec<String>)
        ensures
            r@.map_values(|s: String| s@) == subdirectory_names(),
    {
        let mut r: Vec<String> = Vec::new();
        r.push(String::from_str("input"));
        r.push(String::from_str("output"));
        assert(r@.map_values(|s: String| s@) =~= subdirectory_names());
        r
    }
}

} // verus!

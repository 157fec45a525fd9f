//! The verification key file of a package: where it lives beneath a given path,
//! and what becomes of reading, writing and removing it.
//!
//! A path is handled as the sequence of its components, so that nothing here
//! depends on a platform's separator. Nothing here touches the file system:
//! whether a path names a directory, which files exist, and how an operation
//! on a file went are facts that the caller supplies.

use vstd::prelude::*;
use vstd::string::StringExecFns;

verus! {

/// Name of the directory that holds a package's build outputs.
pub const OUTPUTS_DIRECTORY_NAME: &'static str = "outputs";

/// Extension of a verification key file, with its dot.
pub const VERIFICATION_KEY_FILE_EXTENSION: &'static str = ".lvk";

/// The verification key file of the package called `package_name`.
pub struct VerificationKeyFile {
    pub package_name: String,
}

/// Why an operation on the verification key file fails.
#[derive(Debug, PartialEq, Eq)]
pub enum VerificationKeyFileError {
    /// The file at this path could not be read.
    FailedToRead(Vec<String>),
    /// The file could not be created or written to; the text says why.
    IoError(String),
    /// The file at this path could not be removed.
    FailedToRemove(Vec<String>),
}

/// The name of the verification key file of a package: the package's name
/// followed by the extension.
pub open spec fn key_file_name(package_name: Seq<char>) -> Seq<char> {
    package_name + VERIFICATION_KEY_FILE_EXTENSION@
}

/// Where the verification key file of a package is found, starting from `path`.
///
/// A path that is no directory is taken to name the file itself. Beneath a
/// directory the file lies in the outputs directory, which is `path` itself
/// when its last component already is that directory.
pub open spec fn key_file_path(package_name: Seq<char>, path: Seq<Seq<char>>, is_dir: bool) -> Seq<
    Seq<char>,
> {
    if !is_dir {
        path
    } else if path.len() > 0 && path.last() == OUTPUTS_DIRECTORY_NAME@ {
        path.push(key_file_name(package_name))
    } else {
        path.push(OUTPUTS_DIRECTORY_NAME@).push(key_file_name(package_name))
    }
}

/// A copy of `path`, component by component.
fn copy_components(path: &Vec<String>) -> (copy: Vec<String>)
    ensures
        copy.deep_view() == path.deep_view(),
{
    let mut copy: Vec<String> = Vec::new();
    let mut i: usize = 0;
    while i < path.len()
        invariant
            i <= path.len(),
            copy.len() == i,
            forall|j: int| 0 <= j < i ==> copy@[j]@ == path@[j]@,
        decreases path.len() - i,
    {
        copy.push(path[i].clone());
        i = i + 1;
    }
    assert(copy.deep_view() =~= path.deep_view());
    copy
}

impl VerificationKeyFile {
    /// The verification key file of the package called `package_name`.
    pub fn new(package_name: &str) -> (file: Self)
        ensures
            file.package_name@ == package_name@,
    {
        Self { package_name: String::from_str(package_name) }
    }

    /// The name of the file itself, without any directory.
    pub fn file_name(&self) -> (name: String)
        ensures
            name@ == key_file_name(self.package_name@),
    {
        let mut name = self.package_name.clone();
        name.append(VERIFICATION_KEY_FILE_EXTENSION);
        name
    }

    /// The path of the verification key file, given the path to look under and
    /// whether that path is a directory.
    pub fn full_path(&self, path: &Vec<String>, is_dir: bool) -> (full: Vec<String>)
        ensures
            full.deep_view() == key_file_path(self.package_name@, path.deep_view(), is_dir),
    {
        self.setup_file_path(path, is_dir)
    }

    /// Whether the verification key file is among `existing`, the paths that
    /// the caller found on disk.
    pub fn exists_at(
        &self,
        path: &Vec<String>,
        is_dir: bool,
        existing: &Vec<Vec<String>>,
    ) -> (found: bool)
        ensures
            found == existing.deep_view().contains(
                key_file_path(self.package_name@, path.deep_view(), is_dir),
            ),
    {
        let full = self.setup_file_path(path, is_dir);
        let mut i: usize = 0;
        while i < existing.len()
            invariant
                i <= existing.len(),
                existing.deep_view().len() == existing.len(),
                full.deep_view() == key_file_path(self.package_name@, path.deep_view(), is_dir),
                forall|j: int| 0 <= j < i ==> existing.deep_view()[j] != full.deep_view(),
            decreases existing.len() - i,
        {
            if same_components(&existing[i], &full) {
                assert(existing.deep_view()[i as int] == full.deep_view());
                return true;
            }
            i = i + 1;
        }
        assert(existing.deep_view().len() == existing.len());
        false
    }

    /// Reads the verification key: `contents` is what reading the file at the
    /// full path gave, or nothing where that failed.
    pub fn read_from(&self, path: &Vec<String>, is_dir: bool, contents: Option<Vec<u8>>) -> (key:
        Result<Vec<u8>, VerificationKeyFileError>)
        ensures
            match contents {
                Some(bytes) => key == Ok::<Vec<u8>, VerificationKeyFileError>(bytes),
                None => (key matches Err(VerificationKeyFileError::FailedToRead(at))
                    && at.deep_view() == key_file_path(
                    self.package_name@,
                    path.deep_view(),
                    is_dir,
                )),
            },
    {
        match contents {
            Some(bytes) => Ok(bytes),
            None => Err(
                VerificationKeyFileError::FailedToRead(self.setup_file_path(path, is_dir)),
            ),
        }
    }

    /// Writes the verification key: `written` tells how creating the file at
    /// the full path and writing the key to it went. The path written to is
    /// handed back.
    pub fn write_to(&self, path: &Vec<String>, is_dir: bool, written: Result<(), String>) -> (at:
        Result<Vec<String>, VerificationKeyFileError>)
        ensures
            match written {
                Ok(_) => at is Ok && at->Ok_0.deep_view() == key_file_path(
                    self.package_name@,
                    path.deep_view(),
                    is_dir,
                ),
                Err(reason) => at == Err::<Vec<String>, VerificationKeyFileError>(
                    VerificationKeyFileError::IoError(reason),
                ),
            },
    {
        match written {
            Ok(_) => Ok(self.setup_file_path(path, is_dir)),
            Err(reason) => Err(VerificationKeyFileError::IoError(reason)),
        }
    }

    /// Removes the verification key at the given path if it exists: `exists`
    /// tells whether the file at the full path was there, and `removed`
    /// whether removing it went well. Gives `true` on success and `false` if
    /// the file was not there.
    pub fn remove(&self, path: &Vec<String>, is_dir: bool, exists: bool, removed: bool) -> (done:
        Result<bool, VerificationKeyFileError>)
        ensures
            !exists ==> done == Ok::<bool, VerificationKeyFileError>(false),
            exists && removed ==> done == Ok::<bool, VerificationKeyFileError>(true),
            exists && !removed ==> (done matches Err(VerificationKeyFileError::FailedToRemove(at))
                && at.deep_view() == key_file_path(self.package_name@, path.deep_view(), is_dir)),
    {
        if !exists {
            return Ok(false);
        }
        if removed {
            Ok(true)
        } else {
            Err(VerificationKeyFileError::FailedToRemove(self.setup_file_path(path, is_dir)))
        }
    }

    /// Builds the path of the verification key file from the path to look
    /// under: nothing is added to a path that is no directory.
    pub fn setup_file_path(&self, path: &Vec<String>, is_dir: bool) -> (full: Vec<String>)
        ensures
            full.deep_view() == key_file_path(self.package_name@, path.deep_view(), is_dir),
    {
        let mut full = copy_components(path);
        if is_dir {
            let n = full.len();
            let outputs = String::from_str(OUTPUTS_DIRECTORY_NAME);
            let in_outputs = n > 0 && full[n - 1] == outputs;
            assert(in_outputs == (path.deep_view().len() > 0 && path.deep_view().last()
                == OUTPUTS_DIRECTORY_NAME@)) by {
                assert(full.deep_view().len() == n);
                if n > 0 {
                    assert(full.deep_view()[n - 1] == full@[n - 1]@);
                }
            }
            if !in_outputs {
                let ghost before = full.deep_view();
                full.push(outputs);
                assert(full.deep_view() =~= before.push(OUTPUTS_DIRECTORY_NAME@));
            }
            let ghost before = full.deep_view();
            let name = self.file_name();
            full.push(name);
            assert(full.deep_view() =~= before.push(key_file_name(self.package_name@)));
        }
        full
    }
}

/// Whether two paths have the same components.
fn same_components(left: &Vec<String>, right: &Vec<String>) -> (same: bool)
    ensures
        same == (left.deep_view() == right.deep_view()),
{
    if left.len() != right.len() {
        assert(left.deep_view().len() != right.deep_view().len());
        return false;
    }
    let mut i: usize = 0;
    while i < left.len()
        invariant
            i <= left.len(),
            left.len() == right.len(),
            forall|j: int| 0 <= j < i ==> left@[j]@ == right@[j]@,
        decreases left.len() - i,
    {
        if left[i] != right[i] {
            assert(left.deep_view()[i as int] != right.deep_view()[i as int]);
            return false;
        }
        i = i + 1;
    }
    assert(left.deep_view() =~= right.deep_view());
    true
}

} // verus!

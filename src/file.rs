//! Checks on paths that the command line and the configuration name.
use vstd::prelude::*;

verus! {

/// Relies on `std::path::Path::exists`: whether the file system has an entry
/// at the path. The answer depends on the disk, so nothing is promised of it.
#[verifier::external_body]
fn path_exists(path: &str) -> (r: bool) {
    std::path::Path::new(path).exists()
}

/// The error given for a path to a missing file.
pub open spec fn missing_file_text(path: Seq<char>) -> Seq<char> {
    "File "@ + path + " does not exist."@
}

/// The note printed for a configured path that does not exist.
pub open spec fn missing_path_note_text(path: Seq<char>) -> Seq<char> {
    "Note that path "@ + path + " doesn't exist."@
}

/// The outcome of validating `path`, given whether it exists.
pub fn existence_result(path: &str, exists: bool) -> (r: Result<(), String>)
    ensures
        exists <==> r is Ok,
        r matches Err(m) ==> m@ == missing_file_text(path@),
{
    if exists {
        Ok(())
    } else {
        Err(String::from_str("File ").concat(path).concat(" does not exist."))
    }
}

/// Accepts a path to an existing file, and rejects any other with a message
/// that names it.
pub fn file_exists_validator(path: String) -> (r: Result<(), String>)
    ensures
        r matches Err(m) ==> m@ == missing_file_text(path@),
{
    let exists = path_exists(path.as_str());
    existence_result(path.as_str(), exists)
}

/// The note for a configured path, given whether it exists.
pub fn note_for(path: &str, exists: bool) -> (r: Option<String>)
    ensures
        exists <==> r is None,
        r matches Some(m) ==> m@ == missing_path_note_text(path@),
{
    if exists {
        None
    } else {
        Some(String::from_str("Note that path ").concat(path).concat(" doesn't exist."))
    }
}

/// A note to show when a configured path does not exist; the path is kept
/// in the configuration either way.
pub fn check_path(path: &str) -> (r: Option<String>)
    ensures
        r matches Some(m) ==> m@ == missing_path_note_text(path@),
{
    let exists = path_exists(path);
    note_for(path, exists)
}

} // verus!

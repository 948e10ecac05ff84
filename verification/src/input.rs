//! Input-path validation: the check, made before the pipeline starts, that
//! the input path names a regular file.

use vstd::prelude::*;
use vstd::string::StringExecFns;

verus! {

/// The diagnostic for an input path that does not name a regular file.
pub open spec fn spec_invalid_input_message(path: Seq<char>) -> Seq<char> {
    "Input file "@ + path + " is invalid"@
}

/// Relies on std::path::Path::is_file: whether the path names an existing
/// regular file. The answer depends on the file system, so nothing more is
/// promised of it.
#[verifier::external_body]
fn path_is_file(pathname: &str) -> bool {
    std::path::Path::new(pathname).is_file()
}

/// Decides the validity of an input path from the file-system answer:
/// accepts exactly when the path was found to be a regular file, and
/// otherwise reports the path as invalid.
pub fn check_input(present: bool, pathname: &str) -> (res: Result<(), String>)
    ensures
        res is Ok <==> present,
        res is Err ==> res->Err_0@ == spec_invalid_input_message(pathname@),
{
    if present {
        Ok(())
    } else {
        let mut msg = String::from_str("Input file ");
        msg.append(pathname);
        msg.append(" is invalid");
        proof {
            assert(msg@ =~= spec_invalid_input_message(pathname@));
        }
        Err(msg)
    }
}

/// Checks that the input path names a regular file; on failure the error
/// holds the diagnostic naming the path.
pub fn is_file(pathname: &str) -> (res: Result<(), String>)
    ensures
        res is Err ==> res->Err_0@ == spec_invalid_input_message(pathname@),
{
    let present = path_is_file(pathname);
    check_input(present, pathname)
}

} // verus!

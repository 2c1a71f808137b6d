use crate::error::{Error, Internal};
use vstd::prelude::*;

verus! {

/// Asks `std::path::Path::try_exists` whether something is at `path`. Nothing is claimed
/// of the answer: it is the file system's. `None` stands for the error of the call.
#[verifier::external_body]
fn probe_path(path: &String) -> (found: Option<bool>) {
    std::path::Path::new(path).try_exists().ok()
}

/// What an answer about a path comes to: the answer itself, or a failure inside where
/// none was had.
pub fn probe_outcome(answer: Option<bool>) -> (found: Result<bool, Error>)
    ensures
        match answer {
            Some(there) => found == Ok::<bool, Error>(there),
            None => found == Err::<bool, Error>(Error::Internal(Internal::UnreadablePath)),
        },
{
    match answer {
        Some(there) => Ok(there),
        None => Err(Error::Internal(Internal::UnreadablePath)),
    }
}

/// Whether something is at `path`. Where that cannot be told, the failure is reported
/// and no answer is made up.
pub fn path_exists(path: &String) -> (found: Result<bool, Error>)
    ensures
        found is Err ==> found->Err_0 == Error::Internal(Internal::UnreadablePath),
{
    probe_outcome(probe_path(path))
}

} // verus!

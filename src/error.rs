use vstd::prelude::*;

verus! {

/// The ways an operation of the library can fail.
#[derive(Clone, Copy, Debug, PartialEq, Eq, Structural)]
pub enum ApiError {
    /// An unknown digest, submission or problem.
    NotFound,
    /// The caller may not perform the operation.
    Forbidden,
    /// The operation names a user, and the caller did not authenticate.
    AuthenticationRequired,
    /// An archive could not be extracted.
    InvalidArchive,
    /// The judge could not be started on a submission.
    JudgeDispatchFailed,
    /// A submitted file's content is not valid base64.
    InvalidFileContent,
}

} // verus!

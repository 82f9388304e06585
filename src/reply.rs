use vstd::prelude::*;
use vstd::string::StringExecFns;

use crate::builder::BuildError;

verus! {

/// Status of a reply that carries an archive.
pub const STATUS_OK: u16 = 200;

/// Status of a reply to a body that is not a batch of file requests.
pub const STATUS_BAD_REQUEST: u16 = 400;

/// Status of a reply to a batch naming a file that could not be read.
pub const STATUS_NOT_FOUND: u16 = 404;

/// Status of a reply to a batch whose archive could not be written.
pub const STATUS_INTERNAL_ERROR: u16 = 500;

/// What the endpoint answers a request with.
pub enum Reply {
    /// The finished archive, in full.
    Archive(Vec<u8>),
    /// No archive: an error status and a short message.
    Failure { status: u16, message: String },
}

/// The message of a reply to an unreadable source file: it names the path
/// the caller gave, and nothing more of the file system.
pub open spec fn unreadable_message(path: Seq<char>) -> Seq<char> {
    "cannot read source file: "@ + path
}

impl Reply {
    /// The HTTP status of the reply.
    pub fn status(&self) -> (r: u16)
        ensures
            self is Archive ==> r == STATUS_OK,
            self is Failure ==> r == self->status,
    {
        match self {
            Reply::Archive(_) => STATUS_OK,
            Reply::Failure { status, .. } => *status,
        }
    }

    /// The media type of the reply's body.
    pub fn content_type(&self) -> (r: &'static str)
        ensures
            self is Archive ==> r@ == "application/zip"@,
            self is Failure ==> r@ == "text/plain; charset=utf-8"@,
    {
        match self {
            Reply::Archive(_) => "application/zip",
            Reply::Failure { .. } => "text/plain; charset=utf-8",
        }
    }
}

/// The reply to a body that is not a JSON array of file requests.
pub fn reply_to_malformed() -> (r: Reply)
    ensures
        r matches Reply::Failure { status, message } && status == STATUS_BAD_REQUEST
            && message@ == "malformed request body"@,
{
    Reply::Failure { status: STATUS_BAD_REQUEST, message: String::from_str("malformed request body") }
}

/// The reply to the result of building a batch: the archive itself, or an
/// error status with no archive byte.
pub fn reply_to_build(outcome: Result<Vec<u8>, BuildError>) -> (r: Reply)
    ensures
        match outcome {
            Ok(bytes) => r matches Reply::Archive(body) && body@ == bytes@,
            Err(BuildError::SourceUnreadable { path }) => r matches Reply::Failure {
                status,
                message,
            } && status == STATUS_NOT_FOUND && message@ == unreadable_message(path@),
            Err(BuildError::WriteFailure) => r matches Reply::Failure { status, message }
                && status == STATUS_INTERNAL_ERROR && message@ == "cannot write the archive"@,
        },
{
    match outcome {
        Ok(bytes) => Reply::Archive(bytes),
        Err(BuildError::SourceUnreadable { path }) => {
            let message = String::from_str("cannot read source file: ").concat(path.as_str());
            Reply::Failure { status: STATUS_NOT_FOUND, message }
        },
        Err(BuildError::WriteFailure) => Reply::Failure {
            status: STATUS_INTERNAL_ERROR,
            message: String::from_str("cannot write the archive"),
        },
    }
}

} // verus!

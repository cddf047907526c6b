use vstd::prelude::*;

verus! {

/// The stable error code an error maps to.
#[derive(Clone, Copy, PartialEq, Eq, Structural, Debug)]
pub enum ErrorCodes {
    Success,
    Cancelled,
    Unknown,
    InvalidArgument,
    DeadlineExceeded,
    NotFound,
    AlreadyExists,
    PermissionDenied,
    ResourceExhausted,
    FailedPrecondition,
    Aborted,
    OutOfRange,
    Unimplemented,
    Internal,
    Unavailable,
    DataLoss,
    Unauthenticated,
}

/// The failure taxonomy of the filter: a metadata index failure, a log
/// hydration failure, a metadata-segment or record-segment reader failure,
/// a record read failure — each propagating the collaborator's own code —
/// or an invalid regular expression, which carries the parser's message.
#[derive(PartialEq, Debug)]
pub enum FilterError {
    Index(ErrorCodes),
    LogMaterializer(ErrorCodes),
    MetadataReader(ErrorCodes),
    Record(ErrorCodes),
    RecordReader(ErrorCodes),
    Regex(String),
}

impl FilterError {
    /// The code of each error: collaborator failures keep their own code,
    /// an invalid regular expression is always an invalid argument.
    pub open spec fn code_spec(self) -> ErrorCodes {
        match self {
            FilterError::Index(c) => c,
            FilterError::LogMaterializer(c) => c,
            FilterError::MetadataReader(c) => c,
            FilterError::Record(c) => c,
            FilterError::RecordReader(c) => c,
            FilterError::Regex(_) => ErrorCodes::InvalidArgument,
        }
    }

    pub fn code(&self) -> (r: ErrorCodes)
        ensures
            r == self.code_spec(),
    {
        match self {
            FilterError::Index(c) => *c,
            FilterError::LogMaterializer(c) => *c,
            FilterError::MetadataReader(c) => *c,
            FilterError::Record(c) => *c,
            FilterError::RecordReader(c) => *c,
            FilterError::Regex(_) => ErrorCodes::InvalidArgument,
        }
    }
}

} // verus!

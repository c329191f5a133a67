use vstd::prelude::*;
use vstd::string::StringSliceAdditionalSpecFns;

verus! {

/// Every failure the command core can report. All of them are recovered at the
/// dispatcher boundary and turned into a single `%error: ...%` line; none of
/// them aborts the process.
#[derive(Clone, Copy, Debug, PartialEq, Eq, Structural)]
pub enum ErrorKind {
    /// A component was used before its required init step.
    Uninitialized,
    /// The persistent store failed an operation.
    StorageFault,
    /// The referenced id is absent from the registry.
    NotFound,
    /// Input exceeded a fixed buffer.
    Overflow,
    /// A malformed command line or argument.
    ParseFailure,
    /// A presented credential did not match the provisioned one.
    AuthMismatch,
    /// A bus transaction failed.
    CommunicationFailure,
}

/// The ASCII text that `describe` returns for each error kind.
pub open spec fn spec_describe(e: ErrorKind) -> Seq<u8> {
    match e {
        ErrorKind::Uninitialized => "Uninitialized".spec_bytes(),
        ErrorKind::StorageFault => "StorageFault".spec_bytes(),
        ErrorKind::NotFound => "NotFound".spec_bytes(),
        ErrorKind::Overflow => "Overflow".spec_bytes(),
        ErrorKind::ParseFailure => "ParseFailure".spec_bytes(),
        ErrorKind::AuthMismatch => "AuthMismatch".spec_bytes(),
        ErrorKind::CommunicationFailure => "CommunicationFailure".spec_bytes(),
    }
}

impl ErrorKind {
    /// Short ASCII name of the error kind, for response lines.
    pub fn describe(&self) -> (r: Vec<u8>)
        ensures
            r@ == spec_describe(*self),
    {
        match self {
            ErrorKind::Uninitialized => ("Uninitialized").as_bytes_vec(),
            ErrorKind::StorageFault => ("StorageFault").as_bytes_vec(),
            ErrorKind::NotFound => ("NotFound").as_bytes_vec(),
            ErrorKind::Overflow => ("Overflow").as_bytes_vec(),
            ErrorKind::ParseFailure => ("ParseFailure").as_bytes_vec(),
            ErrorKind::AuthMismatch => ("AuthMismatch").as_bytes_vec(),
            ErrorKind::CommunicationFailure => ("CommunicationFailure").as_bytes_vec(),
        }
    }
}

} // verus!

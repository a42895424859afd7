use vstd::prelude::*;

verus! {

/// The error taxonomy surfaced to callers of the aggregator.
///
/// Every variant renders to a self-contained, human-readable sentence via
/// [`Error::message`], since the caller may show it to a user as-is.
#[derive(Debug, Clone, Copy, PartialEq, Eq)]
pub enum Error {
    /// Building the shared HTTP client failed; fatal at construction.
    BuildClient,
    /// A transport-level failure (DNS, TLS, timeout, connection).
    Network,
    /// A CSS selector literal failed to compile.  The payload tells which
    /// of a finder's static selector strings was malformed.
    Parse(&'static str),
    /// A background task failed to complete.
    Task,
    /// A preview handle's source identifier has no registered finder.
    TypeNotFound,
}

impl Error {
    /// A complete, human-readable sentence describing the error.
    pub fn message(&self) -> (r: String)
        ensures
            r@ == self.spec_message(),
    {
        match self {
            Error::BuildClient => "failed to build the HTTP client".to_owned(),
            Error::Network => "network error".to_owned(),
            Error::Parse(sel) => {
                let mut m = "failed to parse selector: ".to_owned();
                m.append(sel);
                m
            },
            Error::Task => "a background task failed".to_owned(),
            Error::TypeNotFound => "no finder is registered for this preview handle".to_owned(),
        }
    }

    /// What [`Error::message`] returns, variant by variant.
    pub open spec fn spec_message(self) -> Seq<char> {
        match self {
            Error::BuildClient => "failed to build the HTTP client"@,
            Error::Network => "network error"@,
            Error::Parse(sel) => "failed to parse selector: "@ + sel@,
            Error::Task => "a background task failed"@,
            Error::TypeNotFound => "no finder is registered for this preview handle"@,
        }
    }
}

} // verus!

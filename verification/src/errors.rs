use vstd::prelude::*;

verus! {

/// Failures of the wire-protocol decode path.
///
/// `ProtocolSyncError` marks an unexpected leading message byte and is fatal
/// to the connection; `QueryDecodeError` marks a malformed length field,
/// a truncated frame, or a payload that is not valid text.
#[derive(Clone, Copy, Debug, PartialEq, Eq, Structural)]
pub enum Error {
    ProtocolSyncError,
    QueryDecodeError,
}

impl Error {
    /// A short human-readable description, usable by unverified callers.
    pub fn describe(&self) -> (r: &'static str)
        ensures
            r@ == (match self {
                Error::ProtocolSyncError => "protocol out of sync"@,
                Error::QueryDecodeError => "malformed query frame"@,
            }),
    {
        match self {
            Error::ProtocolSyncError => "protocol out of sync",
            Error::QueryDecodeError => "malformed query frame",
        }
    }
}

} // verus!

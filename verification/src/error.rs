use vstd::prelude::*;

verus! {

/// The error kinds a download or list operation can report.
///
/// Every failure of the remote services, the local filesystem or the
/// archive expansion is folded into exactly one of these kinds.
#[derive(Debug, Clone, Copy, PartialEq, Eq, Structural)]
pub enum APIErr {
    /// The list-storage service has no entry under the requested index.
    IndexNotFound,
    /// A network request could not be completed at the transport level.
    ReqwestFailed,
    /// The metadata response lacks the expected payload-location field.
    SongNotFound,
    /// A local filesystem operation (create/open/write) failed.
    FileCreationFailed,
    /// A response body could not be decoded as text.
    InvalidText,
    /// An archive was malformed or could not be expanded.
    UnzipFailed,
}

} // verus!

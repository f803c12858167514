//! The ways a synchronization step can fail.
use vstd::prelude::*;

verus! {

/// Why work on a show group stopped.
#[derive(Debug)]
pub enum SyncError {
    /// A required setting or credential is missing.
    Config { what: String },
    /// The credential exchange failed, or authorization failed again after one renewal.
    Auth { status: u16, body: String },
    /// The transport failed.
    Network { message: String },
    /// The remote answered with a non-success status.
    Api { status: u16, body: String },
    /// The playlist name is empty.
    NameEmpty,
    /// The playlist name is longer than its ceiling; the field is its length.
    NameTooLong { len: u64 },
    /// The description is longer than its ceiling; the field is its length.
    DescriptionTooLong { len: u64 },
    /// A payload did not have the expected shape.
    Parse { what: String },
    /// A reply came that does not answer the call that was asked for.
    UnexpectedReply,
}

} // verus!

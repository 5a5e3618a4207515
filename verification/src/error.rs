//! The error values that stream operations report.

use vstd::prelude::*;

verus! {

/// The class of a failed stream operation.
#[derive(Copy, Clone, Debug, PartialEq, Eq, Hash, Structural)]
pub enum IoErrorKind {
    /// Nothing can be transferred right now; the same call may succeed later.
    WouldBlock,
    /// The call was interrupted before it transferred anything.
    Interrupted,
    /// The stream ended before the requested amount of data arrived.
    UnexpectedEof,
    /// A write accepted no bytes although some were offered.
    WriteZero,
    /// The platform does not support what was asked for.
    Unsupported,
    /// An argument was malformed.
    InvalidInput,
    /// A buffer cannot grow any further.
    OutOfMemory,
    /// Any other failure, such as a reset connection.
    Other,
}

/// A failed stream operation: its class and, where the operating system reported one, its
/// raw error code.
#[derive(Copy, Clone, Debug, PartialEq, Eq, Hash, Structural)]
pub struct IoError {
    /// The class of the failure.
    pub kind: IoErrorKind,
    /// The operating system's error code, if the failure came from there.
    pub raw_os_error: Option<i32>,
}

impl IoError {
    /// An error of the given class that did not come from the operating system.
    pub fn new(kind: IoErrorKind) -> (e: IoError)
        ensures
            e == (IoError { kind, raw_os_error: None }),
    {
        IoError { kind, raw_os_error: None }
    }

    /// An error of the given class that the operating system reported under `code`.
    pub fn from_raw_os_error(kind: IoErrorKind, code: i32) -> (e: IoError)
        ensures
            e == (IoError { kind, raw_os_error: Some(code) }),
    {
        IoError { kind, raw_os_error: Some(code) }
    }

    /// The class of the failure.
    pub fn kind(&self) -> (k: IoErrorKind)
        ensures
            k == self.kind,
    {
        self.kind
    }

    /// Whether the failure only says that the transport is not ready yet.
    pub open spec fn spec_is_would_block(&self) -> bool {
        self.kind == IoErrorKind::WouldBlock
    }

    /// Whether the failure only says that the transport is not ready yet.
    #[verifier::when_used_as_spec(spec_is_would_block)]
    pub fn is_would_block(&self) -> (b: bool)
        ensures
            b == self.spec_is_would_block(),
    {
        match self.kind {
            IoErrorKind::WouldBlock => true,
            _ => false,
        }
    }
}

/// Why a write-all operation stopped early, and how far it had come: the error, how many
/// payload bytes had been sent before it, and whether the ancillary payload had gone out.
/// A caller that tries again sends the rest of the payload and, where the ancillary payload
/// has gone out, does not send that again.
#[derive(Copy, Clone, Debug, PartialEq, Eq, Structural)]
pub struct WriteAllError {
    /// The error that stopped the operation.
    pub cause: IoError,
    /// How many payload bytes were sent before the error.
    pub written: usize,
    /// Whether the ancillary payload was sent.
    pub ancillary_sent: bool,
}

} // verus!

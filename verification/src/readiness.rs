//! The readiness retry loop of non-blocking ancillary I/O.
//!
//! A non-blocking receive or send either finishes at once or reports that the descriptor is not
//! ready. In the second case the operation waits for a readiness notification and tries again.
//! The two states of an operation in flight are the types [`Attempting`] and [`Suspended`]; each
//! transition consumes the state it leaves, so an event can only be fed to the state that
//! expects it. The code that owns the descriptor performs the raw call, asks the reactor and
//! yields to the scheduler; what it does next is decided here.
//!
//! Dropping a state value abandons the operation: nothing is retried afterwards.

use crate::error::IoError;
use crate::error::IoErrorKind;
use vstd::prelude::*;

verus! {

/// The readiness that an operation waits for while it is suspended.
#[derive(Copy, Clone, Debug, PartialEq, Eq, Hash, Structural)]
pub enum Interest {
    /// The descriptor has data to receive.
    Readable,
    /// The descriptor accepts data to send.
    Writable,
}

/// What the reactor answered when it was asked whether the descriptor is ready.
#[derive(Copy, Clone, Debug, PartialEq, Eq, Hash, Structural)]
pub enum Readiness {
    /// The descriptor is ready: the raw call is worth another try.
    Ready,
    /// The reactor itself failed.
    Failed(IoError),
    /// The descriptor is not ready; the reactor will wake the operation when it is.
    Pending,
}

/// An operation that is about to make the raw non-blocking call.
#[derive(Debug, PartialEq, Eq)]
pub struct Attempting {
    /// The readiness to wait for if the call would block.
    pub interest: Interest,
}

/// An operation whose last raw call would have blocked and which waits for readiness.
#[derive(Debug, PartialEq, Eq)]
pub struct Suspended {
    /// The readiness that the operation waits for.
    pub interest: Interest,
}

/// Where an operation stands after a raw call returned.
#[derive(Debug, PartialEq, Eq)]
pub enum AfterAttempt<T> {
    /// The operation is over; this is its result.
    Complete(Result<T, IoError>),
    /// The call would have blocked: register the interest with the reactor and ask it.
    Suspended(Suspended),
}

/// Where an operation stands after the reactor answered.
#[derive(Debug, PartialEq, Eq)]
pub enum AfterReadiness<T> {
    /// The descriptor is ready: make the raw call again.
    Retry(Attempting),
    /// The operation is over; this is its result.
    Complete(Result<T, IoError>),
    /// Hand control back to the scheduler and resume when woken.
    Yield(Suspended),
}

impl Attempting {
    /// A fresh operation, which starts by making the raw call.
    pub fn new(interest: Interest) -> (op: Attempting)
        ensures
            op == (Attempting { interest }),
    {
        Attempting { interest }
    }

    /// The state that follows the raw call's `outcome`.
    pub open spec fn spec_attempted<T>(self, outcome: Result<T, IoError>) -> AfterAttempt<T> {
        match outcome {
            Ok(value) => AfterAttempt::Complete(Ok(value)),
            Err(e) => if e.kind == IoErrorKind::WouldBlock {
                AfterAttempt::Suspended(Suspended { interest: self.interest })
            } else {
                AfterAttempt::Complete(Err(e))
            },
        }
    }

    /// Takes the outcome of the raw call. Success and every failure other than would-block end
    /// the operation with that very outcome; would-block suspends it.
    pub fn attempted<T>(self, outcome: Result<T, IoError>) -> (next: AfterAttempt<T>)
        ensures
            next == self.spec_attempted(outcome),
    {
        match outcome {
            Ok(value) => AfterAttempt::Complete(Ok(value)),
            Err(e) => {
                if e.is_would_block() {
                    AfterAttempt::Suspended(Suspended { interest: self.interest })
                } else {
                    AfterAttempt::Complete(Err(e))
                }
            },
        }
    }
}

impl Suspended {
    /// The state that follows the reactor's answer.
    pub open spec fn spec_polled<T>(self, readiness: Readiness) -> AfterReadiness<T> {
        match readiness {
            Readiness::Ready => AfterReadiness::Retry(Attempting { interest: self.interest }),
            Readiness::Failed(e) => AfterReadiness::Complete(Err(e)),
            Readiness::Pending => AfterReadiness::Yield(self),
        }
    }

    /// Takes the reactor's answer. A ready descriptor leads back to the raw call, a failure of
    /// the reactor ends the operation with that failure, and otherwise the operation stays
    /// suspended and yields.
    pub fn polled<T>(self, readiness: Readiness) -> (next: AfterReadiness<T>)
        ensures
            next == self.spec_polled::<T>(readiness),
    {
        match readiness {
            Readiness::Ready => AfterReadiness::Retry(Attempting { interest: self.interest }),
            Readiness::Failed(e) => AfterReadiness::Complete(Err(e)),
            Readiness::Pending => AfterReadiness::Yield(self),
        }
    }

    /// Resumes after the scheduler woke the operation: it makes the raw call again.
    pub fn woken(self) -> (op: Attempting)
        ensures
            op == (Attempting { interest: self.interest }),
    {
        Attempting { interest: self.interest }
    }
}

/// An operation never changes what it waits for: whatever state follows an attempt or an
/// answer of the reactor carries the interest that the operation was started with.
pub proof fn lemma_interest_is_kept<T>(
    interest: Interest,
    outcome: Result<T, IoError>,
    readiness: Readiness,
)
    ensures
        (Attempting { interest }).spec_attempted(outcome) matches AfterAttempt::Suspended(s)
            ==> s.interest == interest,
        (Suspended { interest }).spec_polled::<T>(readiness) matches AfterReadiness::Retry(op)
            ==> op.interest == interest,
        (Suspended { interest }).spec_polled::<T>(readiness) matches AfterReadiness::Yield(s)
            ==> s.interest == interest,
{
}

/// An operation completes only with what it was told: the outcome of an attempt that did not
/// report would-block, or the failure of the reactor. It never makes up a result, and it never
/// completes on would-block.
pub proof fn lemma_completion_is_reported<T>(
    op: Attempting,
    outcome: Result<T, IoError>,
    waiting: Suspended,
    readiness: Readiness,
)
    ensures
        op.spec_attempted(outcome) matches AfterAttempt::Complete(r) ==> r == outcome,
        op.spec_attempted(outcome) is Suspended <==> (outcome matches Err(e) && e.kind
            == IoErrorKind::WouldBlock),
        waiting.spec_polled::<T>(readiness) matches AfterReadiness::Complete(r) ==> (
        readiness matches Readiness::Failed(e) && r == Err::<T, IoError>(e)),
{
}

} // verus!

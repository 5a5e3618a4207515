//! The steps of the derived operations.
//!
//! A derived operation is a loop around one primitive. What it carries from one call to the
//! next is a partial application of the primitive: [`ReadAncillaryPartAppl`] for reads and
//! [`WriteAncillaryPartAppl`] for writes. What it does after a call is decided by a verdict
//! function, which takes the outcome of the call and either lets the loop go on or names the
//! result of the operation. Neither decides what a call returns: they are exact about what
//! follows from it.

use crate::ancillary_io::appended;
use crate::ancillary_io::extends;
use crate::ancillary_io::recorded_read;
use crate::ancillary_io::recorded_write;
use crate::ancillary_io::ReadAncillary;
use crate::ancillary_io::ReadAncillarySuccess;
use crate::ancillary_io::WriteAncillary;
use crate::cmsg::max_nat;
use crate::cmsg::min_nat;
use crate::cmsg::CmsgMut;
use crate::cmsg::CmsgRef;
use crate::error::IoError;
use crate::error::IoErrorKind;
use crate::runs::read_call;
use crate::runs::stream_ended_early;
use crate::runs::wrote_nothing;
use crate::error::WriteAllError;
use crate::runs::WriteCall;
use vstd::prelude::*;

verus! {

/// The most that one read can append to the ancillary buffer `abuf` when it is offered
/// `offered` bytes of main buffer: the free space, or `offered` bytes where the buffer is
/// grown to that before the read, and in no case more than a `usize` can count beside the
/// contents.
pub open spec fn most_appended<AB: CmsgMut + ?Sized>(abuf: &AB, offered: nat) -> nat {
    min_nat(
        max_nat((abuf.spec_capacity() - abuf.contents().len()) as nat, offered),
        (usize::MAX - abuf.contents().len()) as nat,
    )
}

/// Partial application of [`read_ancillary`](ReadAncillary::read_ancillary) for the derived
/// operations: it keeps the running total of what the reads delivered, and knows whether the
/// ancillary buffer is to be grown along with the main buffer.
pub struct ReadAncillaryPartAppl {
    /// An accumulator for the return value.
    pub ret: ReadAncillarySuccess,
    /// Whether to reserve together with the main-band buffer.
    pub reserve: bool,
}

impl ReadAncillaryPartAppl {
    /// The state of a derived operation that has not read yet.
    pub fn new(reserve: bool) -> (part: ReadAncillaryPartAppl)
        ensures
            part.ret == (ReadAncillarySuccess { main: 0, ancillary: 0 }),
            part.reserve == reserve,
    {
        ReadAncillaryPartAppl { ret: Default::default(), reserve }
    }

    /// Takes the outcome of one read: adds what a successful read delivered to the running
    /// total, componentwise, and passes its payload count on; passes an error on unchanged.
    pub fn account(&mut self, outcome: Result<ReadAncillarySuccess, IoError>) -> (r: Result<
        usize,
        IoError,
    >)
        requires
            outcome matches Ok(sc) ==> {
                &&& old(self).ret.main + sc.main <= usize::MAX
                &&& old(self).ret.ancillary + sc.ancillary <= usize::MAX
            },
        ensures
            final(self).reserve == old(self).reserve,
            match outcome {
                Ok(sc) => {
                    &&& r == Ok::<usize, IoError>(sc.main)
                    &&& final(self).ret.main == old(self).ret.main + sc.main
                    &&& final(self).ret.ancillary == old(self).ret.ancillary + sc.ancillary
                },
                Err(e) => r == Err::<usize, IoError>(e) && final(self).ret == old(self).ret,
            },
    {
        match outcome {
            Ok(sc) => {
                core::ops::AddAssign::add_assign(&mut self.ret, sc);
                Ok(sc.main)
            },
            Err(e) => Err(e),
        }
    }

    /// One read of the derived operations: where
    /// [`reserve`](ReadAncillaryPartAppl::reserve) is set, asks `abuf` once for as much room as
    /// `buf` is long, without caring how much it gets, and where it is not set asks for none;
    /// then reads once from `slf` and adds what came to the running total. The result is the
    /// payload count of this read.
    pub fn read<AB: CmsgMut + ?Sized, RA: ReadAncillary<AB> + ?Sized>(
        &mut self,
        slf: &mut RA,
        buf: &mut [u8],
        abuf: &mut AB,
    ) -> (r: Result<usize, IoError>)
        requires
            old(abuf).wf(),
            old(self).ret.main + old(buf)@.len() <= usize::MAX,
            old(self).ret.ancillary + most_appended(&*old(abuf), old(buf)@.len()) <= usize::MAX,
        ensures
            final(buf)@.len() == old(buf)@.len(),
            final(self).reserve == old(self).reserve,
            extends(&*old(abuf), &*final(abuf)),
            (*final(abuf)).spec_capacity() >= (*old(abuf)).spec_capacity(),
            (*final(abuf)).spec_capacity() <= max_nat(
                (*old(abuf)).spec_capacity(),
                (*old(abuf)).contents().len() + old(buf)@.len(),
            ),
            !old(self).reserve ==> (*final(abuf)).spec_capacity() == (*old(abuf)).spec_capacity(),
            (*final(abuf)).requests() == if old(self).reserve {
                (*old(abuf)).requests().push(old(buf)@.len())
            } else {
                (*old(abuf)).requests()
            },
            match r {
                Ok(n) => {
                    &&& n <= old(buf)@.len()
                    &&& final(self).ret.main == old(self).ret.main + n
                    &&& final(self).ret.ancillary == old(self).ret.ancillary + appended(
                        &*old(abuf),
                        &*final(abuf),
                    ).len()
                },
                Err(_) => {
                    &&& final(self).ret == old(self).ret
                    &&& appended(&*old(abuf), &*final(abuf)).len() == 0
                },
            },
            recorded_read::<AB, RA>(
                &*old(slf),
                &*final(slf),
                read_call(old(buf)@.len(), final(buf)@, appended(&*old(abuf), &*final(abuf)), r),
            ),
    {
        if self.reserve {
            let _ = abuf.reserve_up_to_exact(buf.len());
        }
        proof {
            abuf.lemma_within_capacity();
        }
        let outcome = slf.read_ancillary(buf, abuf);
        proof {
            abuf.lemma_within_capacity();
        }
        self.account(outcome)
    }
}

/// Whether an operation that can still sit out `patience` interrupted calls makes a call
/// again that failed with `e`: the call was interrupted, and the patience is not used up.
pub open spec fn spec_sits_out(patience: usize, e: IoError) -> bool {
    e.kind == IoErrorKind::Interrupted && patience > 0
}

/// Whether an operation that can still sit out `patience` interrupted calls makes a call
/// again that failed with `e`.
pub fn sits_out(patience: usize, e: &IoError) -> (again: bool)
    ensures
        again == spec_sits_out(patience, *e),
{
    match e.kind {
        IoErrorKind::Interrupted => patience > 0,
        _ => false,
    }
}

/// What a read-to-end operation does after a read, given the total so far with that read
/// counted in and how many interrupted reads it can still sit out: a read without payload
/// ends it with the total, a read with payload lets it go on, an interrupted read lets it go
/// on while there is patience, and any other failed read ends it with the error.
pub open spec fn spec_read_to_end_verdict(
    total: ReadAncillarySuccess,
    patience: usize,
    step: Result<usize, IoError>,
) -> Option<Result<ReadAncillarySuccess, IoError>> {
    match step {
        Ok(n) => if n == 0 {
            Some(Ok(total))
        } else {
            None
        },
        Err(e) => if spec_sits_out(patience, e) {
            None
        } else {
            Some(Err(e))
        },
    }
}

/// What a read-to-end operation does after a read: `None` to read on, or its result.
pub fn read_to_end_verdict(
    total: ReadAncillarySuccess,
    patience: usize,
    step: Result<usize, IoError>,
) -> (verdict: Option<Result<ReadAncillarySuccess, IoError>>)
    ensures
        verdict == spec_read_to_end_verdict(total, patience, step),
{
    match step {
        Ok(n) => {
            if n == 0 {
                Some(Ok(total))
            } else {
                None
            }
        },
        Err(e) => {
            if sits_out(patience, &e) {
                None
            } else {
                Some(Err(e))
            }
        },
    }
}

/// What an exact read does after a read, given the total so far with that read counted in,
/// how many bytes are still missing after it and how many interrupted reads it can still sit
/// out: a read without payload ends it as [`stream_ended_early`], a read with payload ends it
/// with the total where nothing is missing and lets it go on otherwise, an interrupted read
/// lets it go on while there is patience, and any other failed read ends it with the error.
pub open spec fn spec_read_exact_verdict(
    total: ReadAncillarySuccess,
    missing: usize,
    patience: usize,
    step: Result<usize, IoError>,
) -> Option<Result<ReadAncillarySuccess, IoError>> {
    match step {
        Ok(n) => if n == 0 {
            Some(Err(stream_ended_early()))
        } else if missing == 0 {
            Some(Ok(total))
        } else {
            None
        },
        Err(e) => if spec_sits_out(patience, e) {
            None
        } else {
            Some(Err(e))
        },
    }
}

/// What an exact read does after a read: `None` to read on, or its result.
pub fn read_exact_verdict(
    total: ReadAncillarySuccess,
    missing: usize,
    patience: usize,
    step: Result<usize, IoError>,
) -> (verdict: Option<Result<ReadAncillarySuccess, IoError>>)
    ensures
        verdict == spec_read_exact_verdict(total, missing, patience, step),
{
    match step {
        Ok(n) => {
            if n == 0 {
                Some(Err(IoError::new(IoErrorKind::UnexpectedEof)))
            } else if missing == 0 {
                Some(Ok(total))
            } else {
                None
            }
        },
        Err(e) => {
            if sits_out(patience, &e) {
                None
            } else {
                Some(Err(e))
            }
        },
    }
}

/// Partial application of [`write_ancillary`](WriteAncillary::write_ancillary) for the
/// derived operations: it holds the ancillary payload until a write has sent it.
pub struct WriteAncillaryPartAppl<'a> {
    /// The ancillary payload that has not gone out yet.
    pub abuf: CmsgRef<'a>,
}

impl<'a> WriteAncillaryPartAppl<'a> {
    /// The state of a derived operation that has not written yet and is to send `abuf`.
    pub fn new(abuf: CmsgRef<'a>) -> (part: WriteAncillaryPartAppl<'a>)
        ensures
            part.abuf@ == abuf@,
    {
        WriteAncillaryPartAppl { abuf }
    }

    /// Takes the outcome of one write that carried the ancillary payload still held, and
    /// passes it on. After a successful write none of that payload is held any more; after a
    /// failed write all of it still is.
    pub fn account(&mut self, outcome: Result<usize, IoError>) -> (r: Result<usize, IoError>)
        ensures
            r == outcome,
            final(self).abuf@ == if outcome is Ok {
                Seq::<u8>::empty()
            } else {
                old(self).abuf@
            },
    {
        let bytes_written = outcome?;
        let held = self.abuf.len();
        self.abuf.consume_bytes(held);
        Ok(bytes_written)
    }

    /// One write of the derived operations: sends to `slf` a prefix of `buf` together with the
    /// ancillary payload that is still held. A successful write has sent that payload whole,
    /// so none is held afterwards; a failed write has sent nothing, so all of it still is.
    pub fn write<WA: WriteAncillary + ?Sized>(&mut self, slf: &mut WA, buf: &[u8]) -> (r: Result<
        usize,
        IoError,
    >)
        ensures
            r matches Ok(n) ==> n <= buf@.len(),
            final(self).abuf@ == if r is Ok {
                Seq::<u8>::empty()
            } else {
                old(self).abuf@
            },
            recorded_write(
                &*old(slf),
                &*final(slf),
                WriteCall { data: buf@, ancillary: old(self).abuf@, outcome: r },
            ),
    {
        let outcome = slf.write_ancillary(buf, self.abuf);
        self.account(outcome)
    }
}

/// What a write-all operation does after a write that was handed `unsent` bytes, the last
/// of the buffer, when `sent` bytes had gone out before and `patience` interrupted writes can
/// still be sat out: a write that accepts nothing ends it as [`wrote_nothing`], a write that
/// accepts everything ends it well, a write that accepts a part lets it go on, an interrupted
/// write lets it go on while there is patience, and any other failed write ends it with the
/// error. An error comes with the number of bytes sent before, and with the news whether the
/// ancillary payload is out: it is after any successful write.
pub open spec fn spec_write_all_verdict(
    sent: usize,
    unsent: usize,
    patience: usize,
    step: Result<usize, IoError>,
) -> Option<Result<(), WriteAllError>> {
    match step {
        Ok(n) => if n == 0 {
            Some(Err(WriteAllError { cause: wrote_nothing(), written: sent, ancillary_sent: true }))
        } else if n == unsent {
            Some(Ok(()))
        } else {
            None
        },
        Err(e) => if spec_sits_out(patience, e) {
            None
        } else {
            Some(Err(WriteAllError { cause: e, written: sent, ancillary_sent: sent > 0 }))
        },
    }
}

/// What a write-all operation does after a write: `None` to write on, or its result.
pub fn write_all_verdict(
    sent: usize,
    unsent: usize,
    patience: usize,
    step: Result<usize, IoError>,
) -> (verdict: Option<Result<(), WriteAllError>>)
    ensures
        verdict == spec_write_all_verdict(sent, unsent, patience, step),
{
    match step {
        Ok(n) => {
            if n == 0 {
                Some(
                    Err(
                        WriteAllError {
                            cause: IoError::new(IoErrorKind::WriteZero),
                            written: sent,
                            ancillary_sent: true,
                        },
                    ),
                )
            } else if n == unsent {
                Some(Ok(()))
            } else {
                None
            }
        },
        Err(e) => {
            if sits_out(patience, &e) {
                None
            } else {
                Some(Err(WriteAllError { cause: e, written: sent, ancillary_sent: sent > 0 }))
            }
        },
    }
}

} // verus!

//! Reading and writing a byte stream together with its ancillary data.
//!
//! A reader implements one primitive, [`ReadAncillary::read_ancillary`], and a writer one,
//! [`WriteAncillary::write_ancillary`]. Everything else is derived from them here:
//! reading to the end of the stream, reading an exact amount, and writing all of a buffer.
//!
//! What a derived operation does depends on what the primitive returns call by call, and that
//! is decided by the transport. So the contracts speak of a run: the sequence of calls that
//! the operation made, each with what it was handed and what came of it. A contract says that
//! there is a run of the shape that the operation prescribes, and that the buffers and the
//! result are what this run determines. The shapes are the spec functions
//! [`read_to_end_run`], [`read_exact_run`] and [`write_all_outcome`]. Where the reader or
//! writer keeps a transcript, the contract also says that the run is what was added to it.
//!
//! A call that fails as interrupted has transferred nothing. The derived operations make it
//! again with the same arguments and go on; they give up with that error only after
//! [`MAX_INTERRUPTIONS`] interrupted calls, so that each of them ends. Every other error ends
//! the operation at once and is passed on as it came.

use crate::cmsg::max_nat;
use crate::cmsg::CmsgMut;
use crate::cmsg::CmsgRef;
use crate::error::IoError;
use crate::error::IoErrorKind;
use crate::partial::read_exact_verdict;
use crate::partial::read_to_end_verdict;
use crate::partial::write_all_verdict;
use crate::partial::ReadAncillaryPartAppl;
use crate::partial::WriteAncillaryPartAppl;
use crate::runs::accepted;
use crate::runs::chunk_requests;
use crate::runs::counted;
use crate::runs::gathered;
use crate::runs::gathered_ancillary;
use crate::runs::read_call;
use crate::runs::read_exact_calls;
use crate::runs::read_interruptions;
use crate::runs::read_to_end_calls;
use crate::runs::reads_on;
use crate::runs::write_interruptions;
use crate::runs::writes_on;
use crate::runs::MAX_INTERRUPTIONS;
use crate::runs::read_exact_run;
use crate::runs::read_to_end_run;
use crate::runs::write_all_calls;
use crate::runs::write_all_outcome;
use crate::runs::written;
use crate::runs::ReadCall;
use crate::error::WriteAllError;
use crate::runs::WriteCall;
use crate::runs::READ_CHUNK;
use crate::vectored::concat;
use crate::vectored::first_nonempty;
use crate::vectored::first_nonempty_mut;
use crate::vectored::is_first_nonempty;
use crate::vectored::lemma_all_empty;
use crate::vectored::lemma_first_nonempty;
use crate::vectored::segments;
use crate::vectored::selected;
use crate::vectored::shared_segments;
use vstd::prelude::*;
use vstd::string::StringSliceAdditionalSpecFns;

verus! {

/// The successful result of an ancillary-enabled read.
#[derive(Copy, Clone, Debug, PartialEq, Eq, Hash, Structural)]
pub struct ReadAncillarySuccess {
    /// How many bytes were read to the main buffer.
    pub main: usize,
    /// How many bytes were read to the ancillary buffer.
    pub ancillary: usize,
}

impl Default for ReadAncillarySuccess {
    /// The result of a read that delivered nothing.
    fn default() -> (sc: ReadAncillarySuccess)
        ensures
            sc == (ReadAncillarySuccess { main: 0, ancillary: 0 }),
    {
        ReadAncillarySuccess { main: 0, ancillary: 0 }
    }
}

impl core::ops::Add for ReadAncillarySuccess {
    type Output = ReadAncillarySuccess;

    /// The componentwise sum: what two reads in a row delivered together.
    fn add(self, rhs: ReadAncillarySuccess) -> (sum: ReadAncillarySuccess) {
        ReadAncillarySuccess {
            main: self.main + rhs.main,
            ancillary: self.ancillary + rhs.ancillary,
        }
    }
}

impl vstd::std_specs::ops::AddSpecImpl for ReadAncillarySuccess {
    open spec fn obeys_add_spec() -> bool {
        true
    }

    open spec fn add_req(self, rhs: ReadAncillarySuccess) -> bool {
        self.main + rhs.main <= usize::MAX && self.ancillary + rhs.ancillary <= usize::MAX
    }

    open spec fn add_spec(self, rhs: ReadAncillarySuccess) -> ReadAncillarySuccess {
        ReadAncillarySuccess {
            main: (self.main + rhs.main) as usize,
            ancillary: (self.ancillary + rhs.ancillary) as usize,
        }
    }
}

impl core::ops::AddAssign for ReadAncillarySuccess {
    /// Adds `rhs` to this result, componentwise.
    fn add_assign(&mut self, rhs: ReadAncillarySuccess)
        requires
            old(self).main + rhs.main <= usize::MAX,
            old(self).ancillary + rhs.ancillary <= usize::MAX,
        ensures
            final(self).main == old(self).main + rhs.main,
            final(self).ancillary == old(self).ancillary + rhs.ancillary,
    {
        self.main = self.main + rhs.main;
        self.ancillary = self.ancillary + rhs.ancillary;
    }
}

/// The bytes that were appended to an ancillary buffer between two moments.
pub open spec fn appended<AB: CmsgMut + ?Sized>(before: &AB, after: &AB) -> Seq<u8> {
    after.contents().skip(before.contents().len() as int)
}

/// Whether an ancillary buffer still starts with what it held at an earlier moment.
pub open spec fn extends<AB: CmsgMut + ?Sized>(before: &AB, after: &AB) -> bool {
    &&& after.wf()
    &&& before.contents().len() <= after.contents().len()
    &&& after.contents().take(before.contents().len() as int) == before.contents()
}

/// What a read may do to the ancillary buffer: a successful read appends as many bytes as it
/// reports, a failed one appends none, and neither resizes the buffer or asks it for room.
pub open spec fn ancillary_filled<AB: CmsgMut + ?Sized>(
    before: &AB,
    after: &AB,
    r: Result<ReadAncillarySuccess, IoError>,
) -> bool {
    &&& extends(before, after)
    &&& after.spec_capacity() == before.spec_capacity()
    &&& after.requests() == before.requests()
    &&& appended(before, after).len() == match r {
        Ok(sc) => sc.ancillary as int,
        Err(_) => 0,
    }
}

/// An extension of reading that also receives control messages into an ancillary buffer.
///
/// The type parameter is the kind of ancillary buffer that the reader fills.
///
/// What an implementation owes is little: a successful read reports no more payload than the
/// buffer holds, appends to the ancillary buffer as many bytes as it reports, without resizing
/// it, and a failed read leaves the contents of the ancillary buffer alone.
///
/// A reader may keep a transcript of the calls made on it, which exists in proofs only.
/// Where it does, each primitive adds the record of its call, and the contracts of the derived
/// operations tell which calls they made. A reader that implements the primitives alone
/// keeps none, and nothing is claimed of its calls. [`Traced`](crate::traced::Traced) wraps
/// any reader into one that keeps a transcript.
pub trait ReadAncillary<AB: CmsgMut + ?Sized> {
    /// Whether this reader keeps a transcript.
    open spec fn traces_reads(&self) -> bool {
        false
    }

    /// The reads made on this reader so far, where it keeps a transcript.
    open spec fn reads(&self) -> Seq<ReadCall> {
        Seq::empty()
    }

    /// Whether the vectored read of this reader may fill more than the first buffer that is
    /// not empty. It does not where the provided
    /// [`read_ancillary_vectored`](ReadAncillary::read_ancillary_vectored) is in use; an
    /// implementation that brings a scatter read of its own says so here.
    open spec fn scatters(&self) -> bool {
        false
    }

    /// Reads payload into the start of `buf` and the control messages that came with it into
    /// `abuf`. The result tells how many bytes went to each. A payload count of zero on a
    /// non-empty `buf` means that the stream has ended.
    fn read_ancillary(&mut self, buf: &mut [u8], abuf: &mut AB) -> (r: Result<
        ReadAncillarySuccess,
        IoError,
    >)
        requires
            old(abuf).wf(),
        ensures
            final(buf)@.len() == old(buf)@.len(),
            r matches Ok(sc) ==> sc.main <= old(buf)@.len(),
            ancillary_filled(&*old(abuf), &*final(abuf), r),
            (*old(self)).traces_reads() ==> {
                &&& (*final(self)).traces_reads()
                &&& (*final(self)).reads() == (*old(self)).reads().push(
                    read_call(
                        old(buf)@.len(),
                        final(buf)@,
                        appended(&*old(abuf), &*final(abuf)),
                        counted(r),
                    ),
                )
            },
    ;

    /// Same as [`read_ancillary`](ReadAncillary::read_ancillary), but reads into a list of
    /// buffers: a scatter read.
    ///
    /// The provided implementation makes one call of
    /// [`read_ancillary`](ReadAncillary::read_ancillary) on the first buffer that is not
    /// empty, or on an empty buffer where there is none, and leaves every other buffer alone,
    /// as [`read_vectored_by_first`](crate::vectored::read_vectored_by_first) does; its
    /// transcript records a read that was offered that buffer. This is what the contract says
    /// of every reader that does not declare that it [`scatters`](ReadAncillary::scatters).
    /// An implementation with a scatter read of its own declares it and fills the buffers
    /// one after the other; its transcript records a read that was offered all of them. In
    /// both cases the payload stands at the start of the joined buffers, and the list comes
    /// back as it was handed in: the same buffers in the same places.
    fn read_ancillary_vectored(&mut self, bufs: &mut [&mut [u8]], abuf: &mut AB) -> (r: Result<
        ReadAncillarySuccess,
        IoError,
    >)
        requires
            old(abuf).wf(),
        ensures
            final(bufs)@.len() == old(bufs)@.len(),
            forall|j: int|
                0 <= j < old(bufs)@.len() ==> {
                    &&& final(#[trigger] final(bufs)@[j])@ == final(old(bufs)@[j])@
                    &&& (*final(bufs)@[j])@.len() == (*old(bufs)@[j])@.len()
                },
            !(*old(self)).scatters() ==> {
                &&& r matches Ok(sc) ==> sc.main <= selected(segments(old(bufs)@)).len()
                &&& forall|j: int|
                    0 <= j < old(bufs)@.len() && !is_first_nonempty(segments(old(bufs)@), j)
                        ==> (#[trigger] segments(final(bufs)@)[j]) == segments(old(bufs)@)[j]
                &&& (*old(self)).traces_reads() ==> {
                    &&& (*final(self)).traces_reads()
                    &&& (*final(self)).reads() == (*old(self)).reads().push(
                        read_call(
                            selected(segments(old(bufs)@)).len(),
                            selected(segments(final(bufs)@)),
                            appended(&*old(abuf), &*final(abuf)),
                            counted(r),
                        ),
                    )
                }
            },
            r matches Ok(sc) ==> sc.main <= concat(segments(old(bufs)@)).len(),
            ancillary_filled(&*old(abuf), &*final(abuf), r),
            (*old(self)).traces_reads() ==> {
                &&& (*final(self)).traces_reads()
                &&& {
                    ||| (*final(self)).reads() == (*old(self)).reads().push(
                        read_call(
                            concat(segments(old(bufs)@)).len(),
                            concat(segments(final(bufs)@)),
                            appended(&*old(abuf), &*final(abuf)),
                            counted(r),
                        ),
                    )
                    ||| {
                        &&& r matches Ok(sc) ==> sc.main <= selected(segments(old(bufs)@)).len()
                        &&& (*final(self)).reads() == (*old(self)).reads().push(
                            read_call(
                                selected(segments(old(bufs)@)).len(),
                                concat(segments(final(bufs)@)),
                                appended(&*old(abuf), &*final(abuf)),
                                counted(r),
                            ),
                        )
                    }
                }
            },
    {
        match first_nonempty_mut(bufs) {
            Some(i) => {
                let ghost before = segments(bufs@);
                let buf: &mut [u8] = &mut *bufs[i];
                let r = self.read_ancillary(buf, abuf);
                proof {
                    let after = segments(bufs@);
                    assert(after[i as int].len() == before[i as int].len());
                    assert forall|j: int| 0 <= j < i implies after[j].len() == 0 by {
                        assert(after[j] == before[j]);
                    }
                    lemma_first_nonempty(before, i as int);
                    lemma_first_nonempty(after, i as int);
                    if let Ok(sc) = r {
                        assert(concat(after).take(sc.main as int) =~= after[i as int].take(
                            sc.main as int,
                        ));
                    }
                }
                r
            },
            None => {
                proof {
                    lemma_all_empty(segments(bufs@));
                }
                let mut nothing: [u8; 0] = [];
                let r = self.read_ancillary(&mut nothing, abuf);
                proof {
                    if let Ok(sc) = r {
                        assert(nothing@.take(sc.main as int) =~= concat(segments(bufs@)).take(
                            sc.main as int,
                        ));
                        assert(nothing@.take(sc.main as int) =~= selected(segments(bufs@)).take(
                            sc.main as int,
                        ));
                    }
                }
                r
            },
        }
    }
}

/// An extension of writing that also sends control messages.
///
/// What an implementation owes is that a successful write reports no more bytes than it was
/// handed. What it is meant to do besides cannot be checked here: the ancillary payload of a
/// successful write has gone out whole, in the same transmission as the bytes that the
/// result counts; a failed write has sent nothing.
///
/// A writer may keep a transcript of the calls made on it, which exists in proofs only.
/// Where it does, each primitive adds the record of its call, and the contracts of the derived
/// operations tell which calls they made. A writer that implements the primitives alone
/// keeps none, and nothing is claimed of its calls. [`Traced`](crate::traced::Traced) wraps
/// any writer into one that keeps a transcript.
pub trait WriteAncillary {
    /// Whether this writer keeps a transcript.
    open spec fn traces_writes(&self) -> bool {
        false
    }

    /// The writes made on this writer so far, where it keeps a transcript.
    open spec fn writes(&self) -> Seq<WriteCall> {
        Seq::empty()
    }

    /// Whether the vectored write of this writer may send from more than the first buffer
    /// that is not empty. It does not where the provided
    /// [`write_ancillary_vectored`](WriteAncillary::write_ancillary_vectored) is in use; an
    /// implementation that brings a gather write of its own says so here.
    open spec fn gathers(&self) -> bool {
        false
    }

    /// Sends a prefix of `buf` and, in the same transmission, all of `abuf`. The result is the
    /// length of that prefix: the ancillary payload is never sent in part.
    fn write_ancillary(&mut self, buf: &[u8], abuf: CmsgRef<'_>) -> (r: Result<usize, IoError>)
        ensures
            r matches Ok(n) ==> n <= buf@.len(),
            (*old(self)).traces_writes() ==> {
                &&& (*final(self)).traces_writes()
                &&& (*final(self)).writes() == (*old(self)).writes().push(
                    WriteCall { data: buf@, ancillary: abuf@, outcome: r },
                )
            },
    ;

    /// Same as [`write_ancillary`](WriteAncillary::write_ancillary), but sends from a list of
    /// buffers: a gather write.
    ///
    /// The provided implementation makes one call of
    /// [`write_ancillary`](WriteAncillary::write_ancillary) on the first buffer that is not
    /// empty, or on an empty buffer where there is none, with all of `abuf`, and ignores every
    /// other buffer, as [`write_vectored_by_first`](crate::vectored::write_vectored_by_first)
    /// does; its transcript records a write that was handed that buffer. This is what the
    /// contract says of every writer that does not declare that it
    /// [`gathers`](WriteAncillary::gathers). An implementation with a gather write of its own
    /// declares it and sends from the buffers one after the other; its transcript records a
    /// write that was handed all of them.
    fn write_ancillary_vectored(&mut self, bufs: &[&[u8]], abuf: CmsgRef<'_>) -> (r: Result<
        usize,
        IoError,
    >)
        ensures
            !(*old(self)).gathers() ==> {
                &&& r matches Ok(n) ==> n <= selected(shared_segments(bufs@)).len()
                &&& (*old(self)).traces_writes() ==> {
                    &&& (*final(self)).traces_writes()
                    &&& (*final(self)).writes() == (*old(self)).writes().push(
                        WriteCall {
                            data: selected(shared_segments(bufs@)),
                            ancillary: abuf@,
                            outcome: r,
                        },
                    )
                }
            },
            r matches Ok(n) ==> n <= concat(shared_segments(bufs@)).len(),
            (*old(self)).traces_writes() ==> {
                &&& (*final(self)).traces_writes()
                &&& {
                    ||| (*final(self)).writes() == (*old(self)).writes().push(
                        WriteCall {
                            data: concat(shared_segments(bufs@)),
                            ancillary: abuf@,
                            outcome: r,
                        },
                    )
                    ||| {
                        &&& r matches Ok(n) ==> n <= selected(shared_segments(bufs@)).len()
                        &&& (*final(self)).writes() == (*old(self)).writes().push(
                            WriteCall {
                                data: selected(shared_segments(bufs@)),
                                ancillary: abuf@,
                                outcome: r,
                            },
                        )
                    }
                }
            },
    {
        match first_nonempty(bufs) {
            Some(i) => {
                proof {
                    lemma_first_nonempty(shared_segments(bufs@), i as int);
                }
                self.write_ancillary(bufs[i], abuf)
            },
            None => {
                proof {
                    lemma_all_empty(shared_segments(bufs@));
                }
                let nothing: [u8; 0] = [];
                let r = self.write_ancillary(&nothing, abuf);
                assert(nothing@ =~= Seq::<u8>::empty());
                r
            },
        }
    }
}

/// Whether the reader `after` is the reader `before` with the record of one more read in its
/// transcript. Of a reader that keeps no transcript this says nothing.
pub open spec fn recorded_read<AB: CmsgMut + ?Sized, R: ReadAncillary<AB> + ?Sized>(
    before: &R,
    after: &R,
    call: ReadCall,
) -> bool {
    before.traces_reads() ==> after.traces_reads() && after.reads() == before.reads().push(call)
}

/// Whether the reader `after` is the reader `before` with the records of the reads `calls`
/// added to its transcript. Of a reader that keeps no transcript this says nothing.
pub open spec fn recorded_reads<AB: CmsgMut + ?Sized, R: ReadAncillary<AB> + ?Sized>(
    before: &R,
    after: &R,
    calls: Seq<ReadCall>,
) -> bool {
    before.traces_reads() ==> after.traces_reads() && after.reads() == before.reads() + calls
}

/// Whether the writer `after` is the writer `before` with the record of one more write in its
/// transcript. Of a writer that keeps no transcript this says nothing.
pub open spec fn recorded_write<W: WriteAncillary + ?Sized>(
    before: &W,
    after: &W,
    call: WriteCall,
) -> bool {
    before.traces_writes() ==> after.traces_writes() && after.writes() == before.writes().push(
        call,
    )
}

/// Whether the writer `after` is the writer `before` with the records of the writes `calls`
/// added to its transcript. Of a writer that keeps no transcript this says nothing.
pub open spec fn recorded_writes<W: WriteAncillary + ?Sized>(
    before: &W,
    after: &W,
    calls: Seq<WriteCall>,
) -> bool {
    before.traces_writes() ==> after.traces_writes() && after.writes() == before.writes() + calls
}

/// A mutable reference to a reader reads as the reader does.
impl<AB: CmsgMut + ?Sized, T: ReadAncillary<AB> + ?Sized> ReadAncillary<AB> for &mut T {
    open spec fn traces_reads(&self) -> bool {
        (**self).traces_reads()
    }

    open spec fn reads(&self) -> Seq<ReadCall> {
        (**self).reads()
    }

    open spec fn scatters(&self) -> bool {
        (**self).scatters()
    }

    fn read_ancillary(&mut self, buf: &mut [u8], abuf: &mut AB) -> (r: Result<
        ReadAncillarySuccess,
        IoError,
    >) {
        let inner: &mut T = &mut **self;
        inner.read_ancillary(buf, abuf)
    }

    fn read_ancillary_vectored(&mut self, bufs: &mut [&mut [u8]], abuf: &mut AB) -> (r: Result<
        ReadAncillarySuccess,
        IoError,
    >) {
        let inner: &mut T = &mut **self;
        inner.read_ancillary_vectored(bufs, abuf)
    }
}

/// A boxed reader reads as the reader does.
impl<AB: CmsgMut + ?Sized, T: ReadAncillary<AB> + ?Sized> ReadAncillary<AB> for Box<T> {
    open spec fn traces_reads(&self) -> bool {
        (**self).traces_reads()
    }

    open spec fn reads(&self) -> Seq<ReadCall> {
        (**self).reads()
    }

    open spec fn scatters(&self) -> bool {
        (**self).scatters()
    }

    fn read_ancillary(&mut self, buf: &mut [u8], abuf: &mut AB) -> (r: Result<
        ReadAncillarySuccess,
        IoError,
    >) {
        let inner: &mut T = &mut **self;
        inner.read_ancillary(buf, abuf)
    }

    fn read_ancillary_vectored(&mut self, bufs: &mut [&mut [u8]], abuf: &mut AB) -> (r: Result<
        ReadAncillarySuccess,
        IoError,
    >) {
        let inner: &mut T = &mut **self;
        inner.read_ancillary_vectored(bufs, abuf)
    }
}

/// A mutable reference to a writer writes as the writer does.
impl<T: WriteAncillary + ?Sized> WriteAncillary for &mut T {
    open spec fn traces_writes(&self) -> bool {
        (**self).traces_writes()
    }

    open spec fn writes(&self) -> Seq<WriteCall> {
        (**self).writes()
    }

    open spec fn gathers(&self) -> bool {
        (**self).gathers()
    }

    fn write_ancillary(&mut self, buf: &[u8], abuf: CmsgRef<'_>) -> (r: Result<usize, IoError>) {
        let inner: &mut T = &mut **self;
        inner.write_ancillary(buf, abuf)
    }

    fn write_ancillary_vectored(&mut self, bufs: &[&[u8]], abuf: CmsgRef<'_>) -> (r: Result<
        usize,
        IoError,
    >) {
        let inner: &mut T = &mut **self;
        inner.write_ancillary_vectored(bufs, abuf)
    }
}

/// A boxed writer writes as the writer does.
impl<T: WriteAncillary + ?Sized> WriteAncillary for Box<T> {
    open spec fn traces_writes(&self) -> bool {
        (**self).traces_writes()
    }

    open spec fn writes(&self) -> Seq<WriteCall> {
        (**self).writes()
    }

    open spec fn gathers(&self) -> bool {
        (**self).gathers()
    }

    fn write_ancillary(&mut self, buf: &[u8], abuf: CmsgRef<'_>) -> (r: Result<usize, IoError>) {
        let inner: &mut T = &mut **self;
        inner.write_ancillary(buf, abuf)
    }

    fn write_ancillary_vectored(&mut self, bufs: &[&[u8]], abuf: CmsgRef<'_>) -> (r: Result<
        usize,
        IoError,
    >) {
        let inner: &mut T = &mut **self;
        inner.write_ancillary_vectored(bufs, abuf)
    }
}

/// Reads until the end of the stream, appending the payload to `buf` and the ancillary data to
/// `abuf`; with `reserve`, asks `abuf` before every read for as much room as the read is
/// offered payload buffer.
fn read_to_end<AB: CmsgMut + ?Sized, RA: ReadAncillary<AB> + ?Sized>(
    slf: &mut RA,
    buf: &mut Vec<u8>,
    abuf: &mut AB,
    reserve: bool,
) -> (r: Result<ReadAncillarySuccess, IoError>)
    requires
        old(abuf).wf(),
    ensures
        exists|calls: Seq<ReadCall>|
            {
                &&& #[trigger] read_to_end_run(
                    old(buf)@,
                    final(buf)@,
                    (*old(abuf)).contents(),
                    (*final(abuf)).contents(),
                    calls,
                    r,
                )
                &&& recorded_reads::<AB, RA>(&*old(slf), &*final(slf), calls)
                &&& (*final(abuf)).requests() == if reserve {
                    (*old(abuf)).requests() + chunk_requests(calls.len())
                } else {
                    (*old(abuf)).requests()
                }
            },
        (*final(abuf)).wf(),
        (*final(abuf)).spec_capacity() >= (*old(abuf)).spec_capacity(),
        (*final(abuf)).spec_capacity() <= max_nat(
            (*old(abuf)).spec_capacity(),
            (*final(abuf)).contents().len() + READ_CHUNK as nat,
        ),
        !reserve ==> (*final(abuf)).spec_capacity() == (*old(abuf)).spec_capacity(),
{
    let mut part = ReadAncillaryPartAppl::new(reserve);
    let mut r: Result<ReadAncillarySuccess, IoError> = Ok(part.ret);
    let mut patience: usize = MAX_INTERRUPTIONS;
    let ghost mut calls: Seq<ReadCall> = Seq::empty();
    proof {
        assert((*old(abuf)).requests() + chunk_requests(0) =~= (*old(abuf)).requests());
    }
    loop
        invariant_except_break
            part.reserve == reserve,
            part.ret.main == gathered(calls).len(),
            part.ret.ancillary == gathered_ancillary(calls).len(),
            calls.len() > 0 ==> reads_on(calls),
            patience == MAX_INTERRUPTIONS - read_interruptions(calls),
        invariant
            read_to_end_calls(calls),
            abuf.wf(),
            buf@ == old(buf)@ + gathered(calls),
            abuf.contents() == (*old(abuf)).contents() + gathered_ancillary(calls),
            abuf.spec_capacity() >= (*old(abuf)).spec_capacity(),
            abuf.spec_capacity() <= max_nat(
                (*old(abuf)).spec_capacity(),
                abuf.contents().len() + READ_CHUNK as nat,
            ),
            !reserve ==> abuf.spec_capacity() == (*old(abuf)).spec_capacity(),
            abuf.requests() == if reserve {
                (*old(abuf)).requests() + chunk_requests(calls.len())
            } else {
                (*old(abuf)).requests()
            },
            recorded_reads::<AB, RA>(&*old(slf), &*slf, calls),
        ensures
            read_to_end_run(
                old(buf)@,
                buf@,
                (*old(abuf)).contents(),
                abuf.contents(),
                calls,
                r,
            ),
        decreases usize::MAX - buf@.len(), patience,
    {
        let len = buf.len();
        if len > usize::MAX - READ_CHUNK {
            r = Err(IoError::new(IoErrorKind::OutOfMemory));
            break;
        }
        let ghost earlier = calls;
        let ghost held = abuf.contents();
        buf.resize(len + READ_CHUNK, 0u8);
        let whole = buf.as_mut_slice();
        let (_, tail) = whole.split_at_mut(len);
        proof {
            abuf.lemma_within_capacity();
        }
        let step = part.read(slf, tail, abuf);
        proof {
            let more = abuf.contents().skip(held.len() as int);
            calls = earlier.push(read_call(READ_CHUNK as nat, tail@, more, step));
            assert(calls.drop_last() =~= earlier);
            assert(chunk_requests(calls.len()) =~= chunk_requests(earlier.len()).push(
                READ_CHUNK as nat,
            ));
            if reserve {
                assert(abuf.requests() =~= (*old(abuf)).requests() + chunk_requests(calls.len()));
            }
            assert(abuf.contents() =~= held + more);
            assert(abuf.contents() =~= (*old(abuf)).contents() + gathered_ancillary(calls));
            if (*old(slf)).traces_reads() {
                assert((*slf).reads() =~= (*old(slf)).reads() + calls);
            }
        }
        let kept = match step {
            Ok(n) => len + n,
            Err(_) => len,
        };
        buf.truncate(kept);
        proof {
            assert(buf@ =~= old(buf)@ + gathered(calls));
        }
        match read_to_end_verdict(part.ret, patience, step) {
            Some(done) => {
                r = done;
                break;
            },
            None => {
                if step.is_err() {
                    patience = patience - 1;
                }
            },
        }
    }
    r
}

/// Reads until `buf` is full.
fn read_exact<AB: CmsgMut + ?Sized, RA: ReadAncillary<AB> + ?Sized>(
    slf: &mut RA,
    buf: &mut [u8],
    abuf: &mut AB,
) -> (r: Result<ReadAncillarySuccess, IoError>)
    requires
        old(abuf).wf(),
    ensures
        exists|calls: Seq<ReadCall>|
            {
                &&& #[trigger] read_exact_run(
                    old(buf)@.len(),
                    final(buf)@,
                    (*old(abuf)).contents(),
                    (*final(abuf)).contents(),
                    calls,
                    r,
                )
                &&& recorded_reads::<AB, RA>(&*old(slf), &*final(slf), calls)
            },
        (*final(abuf)).wf(),
        (*final(abuf)).spec_capacity() == (*old(abuf)).spec_capacity(),
        (*final(abuf)).requests() == (*old(abuf)).requests(),
{
    let mut part = ReadAncillaryPartAppl::new(false);
    let want = buf.len();
    let mut filled: usize = 0;
    let mut r: Result<ReadAncillarySuccess, IoError> = Ok(part.ret);
    let mut patience: usize = MAX_INTERRUPTIONS;
    let ghost mut calls: Seq<ReadCall> = Seq::empty();
    while filled < want
        invariant_except_break
            r == Ok::<ReadAncillarySuccess, IoError>(part.ret),
            calls.len() > 0 ==> reads_on(calls),
            filled == gathered(calls).len(),
            patience == MAX_INTERRUPTIONS - read_interruptions(calls),
        invariant
            abuf.wf(),
            !part.reserve,
            want == old(buf)@.len(),
            buf@.len() == want,
            filled <= want,
            buf@.take(gathered(calls).len() as int) == gathered(calls),
            abuf.contents() == (*old(abuf)).contents() + gathered_ancillary(calls),
            part.ret.main == gathered(calls).len(),
            part.ret.ancillary == gathered_ancillary(calls).len(),
            abuf.spec_capacity() == (*old(abuf)).spec_capacity(),
            abuf.requests() == (*old(abuf)).requests(),
            read_exact_calls(want as nat, calls),
            recorded_reads::<AB, RA>(&*old(slf), &*slf, calls),
        ensures
            read_exact_run(
                want as nat,
                buf@,
                (*old(abuf)).contents(),
                abuf.contents(),
                calls,
                r,
            ),
        decreases want - filled, patience,
    {
        let ghost earlier = calls;
        let ghost held = abuf.contents();
        let (_, tail) = buf.split_at_mut(filled);
        proof {
            abuf.lemma_within_capacity();
        }
        let step = part.read(slf, tail, abuf);
        proof {
            let more = abuf.contents().skip(held.len() as int);
            calls = earlier.push(read_call((want - filled) as nat, tail@, more, step));
            assert(calls.drop_last() =~= earlier);
            assert(abuf.contents() =~= held + more);
            assert(abuf.contents() =~= (*old(abuf)).contents() + gathered_ancillary(calls));
            assert(buf@.take(gathered(calls).len() as int) =~= gathered(calls));
            if (*old(slf)).traces_reads() {
                assert((*slf).reads() =~= (*old(slf)).reads() + calls);
            }
        }
        if let Ok(n) = step {
            filled += n;
        }
        r = Ok(part.ret);
        match read_exact_verdict(part.ret, want - filled, patience, step) {
            Some(done) => {
                r = done;
                break;
            },
            None => {
                if step.is_err() {
                    patience = patience - 1;
                }
            },
        }
    }
    r
}

/// Methods derived from the interface of [`ReadAncillary`]. Every reader has them.
pub trait ReadAncillaryExt<AB: CmsgMut + ?Sized>: ReadAncillary<AB> {
    /// Reads the stream to its end, appending the payload to `buf` and the ancillary data to
    /// `abuf`, and grows the ancillary buffer with the main buffer: before every read it asks
    /// `abuf` once for as much room as the read is offered payload buffer, and reads whatever
    /// comes of the request. The buffer ends with no more room than its contents and one such
    /// chunk, unless it was larger before.
    /// A buffer that cannot grow takes what fits, as in
    /// [`read_to_end_with_ancillary`](ReadAncillaryExt::read_to_end_with_ancillary).
    ///
    /// The result is the sum of what all the reads delivered. What was read before a failure
    /// stays in the buffers.
    fn read_ancillary_to_end(&mut self, buf: &mut Vec<u8>, abuf: &mut AB) -> (r: Result<
        ReadAncillarySuccess,
        IoError,
    >)
        requires
            old(abuf).wf(),
        ensures
            exists|calls: Seq<ReadCall>|
                {
                    &&& #[trigger] read_to_end_run(
                        old(buf)@,
                        final(buf)@,
                        (*old(abuf)).contents(),
                        (*final(abuf)).contents(),
                        calls,
                        r,
                    )
                    &&& recorded_reads::<AB, Self>(&*old(self), &*final(self), calls)
                    &&& (*final(abuf)).requests() == (*old(abuf)).requests() + chunk_requests(
                        calls.len(),
                    )
                },
            (*final(abuf)).wf(),
            (*final(abuf)).spec_capacity() >= (*old(abuf)).spec_capacity(),
            (*final(abuf)).spec_capacity() <= max_nat(
                (*old(abuf)).spec_capacity(),
                (*final(abuf)).contents().len() + READ_CHUNK as nat,
            ),
    {
        read_to_end(self, buf, abuf, true)
    }

    /// Reads the stream to its end, appending the payload to `buf`. Only the main buffer
    /// grows: every read puts into `abuf` what fits there, and `abuf` is never resized or
    /// asked for room.
    ///
    /// The result is the sum of what all the reads delivered. What was read before a failure
    /// stays in the buffers.
    fn read_to_end_with_ancillary(&mut self, buf: &mut Vec<u8>, abuf: &mut AB) -> (r: Result<
        ReadAncillarySuccess,
        IoError,
    >)
        requires
            old(abuf).wf(),
        ensures
            exists|calls: Seq<ReadCall>|
                {
                    &&& #[trigger] read_to_end_run(
                        old(buf)@,
                        final(buf)@,
                        (*old(abuf)).contents(),
                        (*final(abuf)).contents(),
                        calls,
                        r,
                    )
                    &&& recorded_reads::<AB, Self>(&*old(self), &*final(self), calls)
                },
            (*final(abuf)).wf(),
            (*final(abuf)).spec_capacity() == (*old(abuf)).spec_capacity(),
            (*final(abuf)).requests() == (*old(abuf)).requests(),
    {
        read_to_end(self, buf, abuf, false)
    }

    /// Reads until `buf` is full, putting into `abuf` what fits there. It fails where the
    /// stream ends before that. The payload read before a failure stands at the start of
    /// `buf`.
    ///
    /// The result is the sum of what all the reads delivered.
    fn read_exact_with_ancillary(&mut self, buf: &mut [u8], abuf: &mut AB) -> (r: Result<
        ReadAncillarySuccess,
        IoError,
    >)
        requires
            old(abuf).wf(),
        ensures
            exists|calls: Seq<ReadCall>|
                {
                    &&& #[trigger] read_exact_run(
                        old(buf)@.len(),
                        final(buf)@,
                        (*old(abuf)).contents(),
                        (*final(abuf)).contents(),
                        calls,
                        r,
                    )
                    &&& recorded_reads::<AB, Self>(&*old(self), &*final(self), calls)
                },
            (*final(abuf)).wf(),
            (*final(abuf)).spec_capacity() == (*old(abuf)).spec_capacity(),
            (*final(abuf)).requests() == (*old(abuf)).requests(),
    {
        read_exact(self, buf, abuf)
    }
}

impl<AB: CmsgMut + ?Sized, T: ReadAncillary<AB> + ?Sized> ReadAncillaryExt<AB> for T {

}

/// Sends all of `buf`, and `abuf` with the first write.
fn write_all<WA: WriteAncillary + ?Sized>(slf: &mut WA, buf: &[u8], abuf: CmsgRef<'_>) -> (r:
    Result<(), WriteAllError>)
    ensures
        exists|calls: Seq<WriteCall>|
            {
                &&& #[trigger] write_all_outcome(buf@, abuf@, calls, r)
                &&& recorded_writes(&*old(slf), &*final(slf), calls)
            },
{
    let mut part = WriteAncillaryPartAppl::new(abuf);
    let mut sent: usize = 0;
    let mut r: Result<(), WriteAllError> = Ok(());
    let mut patience: usize = MAX_INTERRUPTIONS;
    let ghost mut calls: Seq<WriteCall> = Seq::empty();
    while sent < buf.len()
        invariant_except_break
            r is Ok,
            calls.len() > 0 ==> writes_on(calls),
            accepted(calls) == (sent > 0),
            part.abuf@ == if accepted(calls) {
                Seq::<u8>::empty()
            } else {
                abuf@
            },
            sent == written(calls),
            patience == MAX_INTERRUPTIONS - write_interruptions(calls),
        invariant
            sent <= buf@.len(),
            write_all_calls(buf@, abuf@, calls),
            recorded_writes(&*old(slf), &*slf, calls),
        ensures
            write_all_outcome(buf@, abuf@, calls, r),
        decreases buf@.len() - sent, patience,
    {
        let ghost earlier = calls;
        let ghost carried = part.abuf@;
        let rest = vstd::slice::slice_subrange(buf, sent, buf.len());
        let step = part.write(slf, rest);
        proof {
            calls = earlier.push(WriteCall { data: rest@, ancillary: carried, outcome: step });
            assert(calls.drop_last() =~= earlier);
            assert(rest@ =~= buf@.skip(sent as int));
            if (*old(slf)).traces_writes() {
                assert((*slf).writes() =~= (*old(slf)).writes() + calls);
            }
        }
        let verdict = write_all_verdict(sent, buf.len() - sent, patience, step);
        if let Ok(n) = step {
            sent += n;
        }
        match verdict {
            Some(done) => {
                r = done;
                break;
            },
            None => {
                if step.is_err() {
                    patience = patience - 1;
                }
            },
        }
    }
    r
}

/// Methods derived from the interface of [`WriteAncillary`]. Every writer has them.
pub trait WriteAncillaryExt: WriteAncillary {
    /// Sends all of `buf`, in as many writes as it takes, and the ancillary payload `abuf` with
    /// the first of them: once a write has succeeded the ancillary payload is out, and every
    /// further write carries an empty one. A write that was interrupted has sent nothing and
    /// is made again as it was, ancillary payload included. Nothing at all is sent for an
    /// empty `buf`.
    ///
    /// An error tells how far the operation had come.
    fn write_all_ancillary(&mut self, buf: &[u8], abuf: CmsgRef<'_>) -> (r: Result<
        (),
        WriteAllError,
    >)
        ensures
            exists|calls: Seq<WriteCall>|
                {
                    &&& #[trigger] write_all_outcome(buf@, abuf@, calls, r)
                    &&& recorded_writes(&*old(self), &*final(self), calls)
                },
    {
        write_all(self, buf, abuf)
    }

    /// Sends all of the rendered text `text`, as its UTF-8 bytes, and the ancillary payload
    /// `abuf` with the first write, as
    /// [`write_all_ancillary`](WriteAncillaryExt::write_all_ancillary) does.
    fn write_fmt_ancillary(&mut self, text: &str, abuf: CmsgRef<'_>) -> (r: Result<
        (),
        WriteAllError,
    >)
        ensures
            exists|calls: Seq<WriteCall>|
                {
                    &&& #[trigger] write_all_outcome(text.spec_bytes(), abuf@, calls, r)
                    &&& recorded_writes(&*old(self), &*final(self), calls)
                },
    {
        write_all(self, text.as_bytes(), abuf)
    }
}

impl<T: WriteAncillary + ?Sized> WriteAncillaryExt for T {

}

} // verus!

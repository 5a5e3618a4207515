//! A reader or writer with a transcript.
//!
//! [`Traced`] wraps a reader or a writer and keeps, for proofs, a record of every call of a
//! primitive that goes through it. With a traced reader or writer the contracts of the
//! derived operations tell which calls were made on it, each with what it was handed and what
//! came of it. At run time the wrapper does nothing but pass the calls on.

use crate::ancillary_io::appended;
use crate::ancillary_io::ReadAncillary;
use crate::ancillary_io::ReadAncillarySuccess;
use crate::ancillary_io::WriteAncillary;
use crate::cmsg::CmsgMut;
use crate::cmsg::CmsgRef;
use crate::error::IoError;
use crate::runs::counted;
use crate::runs::read_call;
use crate::runs::ReadCall;
use crate::runs::WriteCall;
use crate::vectored::concat;
use crate::vectored::lemma_selected_len;
use crate::vectored::lemma_selected_starts_concat;
use crate::vectored::selected;
use crate::vectored::segments;
use crate::vectored::shared_segments;
use vstd::prelude::*;

verus! {

/// A reader or writer together with the transcript of the calls made through it.
pub struct Traced<T> {
    inner: T,
    reads: Ghost<Seq<ReadCall>>,
    writes: Ghost<Seq<WriteCall>>,
}

impl<T> Traced<T> {
    /// The reader or writer that is wrapped.
    pub closed spec fn inner(&self) -> T {
        self.inner
    }

    /// The reads that went through this wrapper, in order.
    pub closed spec fn read_transcript(&self) -> Seq<ReadCall> {
        self.reads@
    }

    /// The writes that went through this wrapper, in order.
    pub closed spec fn write_transcript(&self) -> Seq<WriteCall> {
        self.writes@
    }

    /// Wraps `inner`, with empty transcripts.
    pub fn new(inner: T) -> (traced: Traced<T>)
        ensures
            traced.inner() == inner,
            traced.read_transcript() == Seq::<ReadCall>::empty(),
            traced.write_transcript() == Seq::<WriteCall>::empty(),
    {
        Traced { inner, reads: Ghost(Seq::empty()), writes: Ghost(Seq::empty()) }
    }

    /// The reader or writer that is wrapped.
    pub fn get_ref(&self) -> (inner: &T)
        ensures
            *inner == self.inner(),
    {
        &self.inner
    }

    /// Gives the wrapped reader or writer back and forgets the transcripts.
    pub fn into_inner(self) -> (inner: T)
        ensures
            inner == self.inner(),
    {
        self.inner
    }
}

impl<AB: CmsgMut + ?Sized, T: ReadAncillary<AB>> ReadAncillary<AB> for Traced<T> {
    open spec fn traces_reads(&self) -> bool {
        true
    }

    open spec fn reads(&self) -> Seq<ReadCall> {
        self.read_transcript()
    }

    open spec fn scatters(&self) -> bool {
        self.inner().scatters()
    }

    fn read_ancillary(&mut self, buf: &mut [u8], abuf: &mut AB) -> (r: Result<
        ReadAncillarySuccess,
        IoError,
    >)
        ensures
            final(self).write_transcript() == old(self).write_transcript(),
    {
        let ghost held = abuf.contents();
        let r = self.inner.read_ancillary(buf, abuf);
        proof {
            let more = abuf.contents().skip(held.len() as int);
            self.reads@ = self.reads@.push(read_call(old(buf)@.len(), buf@, more, counted(r)));
        }
        r
    }

    /// Passes the call on to the vectored primitive of the wrapped reader, and records it as
    /// that reader would: as a read that was offered all the buffers where the reader
    /// scatters, and as a read that was offered the first buffer that is not empty otherwise.
    fn read_ancillary_vectored(&mut self, bufs: &mut [&mut [u8]], abuf: &mut AB) -> (r: Result<
        ReadAncillarySuccess,
        IoError,
    >)
        ensures
            final(self).write_transcript() == old(self).write_transcript(),
    {
        let ghost held = abuf.contents();
        let ghost before = segments(bufs@);
        let r = self.inner.read_ancillary_vectored(bufs, abuf);
        proof {
            let after = segments(bufs@);
            let more = abuf.contents().skip(held.len() as int);
            if old(self).inner.scatters() {
                let call = read_call(concat(before).len(), concat(after), more, counted(r));
                self.reads@ = self.reads@.push(call);
            } else {
                let call = read_call(selected(before).len(), selected(after), more, counted(r));
                self.reads@ = self.reads@.push(call);
                lemma_selected_len(before, after);
                lemma_selected_starts_concat(after);
                if let Ok(sc) = r {
                    assert(concat(after).take(sc.main as int) =~= selected(after).take(
                        sc.main as int,
                    ));
                }
            }
        }
        r
    }
}

impl<T: WriteAncillary> WriteAncillary for Traced<T> {
    open spec fn traces_writes(&self) -> bool {
        true
    }

    open spec fn writes(&self) -> Seq<WriteCall> {
        self.write_transcript()
    }

    open spec fn gathers(&self) -> bool {
        self.inner().gathers()
    }

    fn write_ancillary(&mut self, buf: &[u8], abuf: CmsgRef<'_>) -> (r: Result<usize, IoError>)
        ensures
            final(self).read_transcript() == old(self).read_transcript(),
    {
        let r = self.inner.write_ancillary(buf, abuf);
        proof {
            let call = WriteCall { data: buf@, ancillary: abuf@, outcome: r };
            self.writes@ = self.writes@.push(call);
        }
        r
    }

    /// Passes the call on to the vectored primitive of the wrapped writer, and records it as
    /// that writer would: as a write that was handed all the buffers where the writer gathers,
    /// and as a write that was handed the first buffer that is not empty otherwise.
    fn write_ancillary_vectored(&mut self, bufs: &[&[u8]], abuf: CmsgRef<'_>) -> (r: Result<
        usize,
        IoError,
    >)
        ensures
            final(self).read_transcript() == old(self).read_transcript(),
    {
        let r = self.inner.write_ancillary_vectored(bufs, abuf);
        proof {
            let data = if old(self).inner.gathers() {
                concat(shared_segments(bufs@))
            } else {
                selected(shared_segments(bufs@))
            };
            self.writes@ = self.writes@.push(WriteCall { data, ancillary: abuf@, outcome: r });
        }
        r
    }
}

} // verus!

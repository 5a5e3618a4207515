//! Lists of buffers, and the emulation of vectored transfers with single-buffer ones.
//!
//! A vectored transfer works on a list of buffer segments. Where no native one is at hand it
//! is emulated: the single-buffer primitive is called on the first segment that is not empty,
//! and the other segments are left alone. This does less than a true scatter or gather
//! transfer, and it is meant to: a caller that gets back a count shorter than the list simply
//! calls again. In the other direction a single-buffer transfer is a vectored one on a list of
//! one segment. On such a list the two directions undo each other.

use crate::ancillary_io::ancillary_filled;
use crate::ancillary_io::appended;
use crate::ancillary_io::recorded_read;
use crate::ancillary_io::recorded_write;
use crate::ancillary_io::ReadAncillary;
use crate::ancillary_io::ReadAncillarySuccess;
use crate::ancillary_io::WriteAncillary;
use crate::cmsg::CmsgMut;
use crate::cmsg::CmsgRef;
use crate::error::IoError;
use crate::runs::counted;
use crate::runs::read_call;
use crate::runs::WriteCall;
use vstd::prelude::*;

verus! {

/// The contents of a list of buffer segments.
pub open spec fn segments(bufs: Seq<&mut [u8]>) -> Seq<Seq<u8>> {
    Seq::new(bufs.len(), |j: int| (*bufs[j])@)
}

/// The contents of a list of read-only buffer segments.
pub open spec fn shared_segments(bufs: Seq<&[u8]>) -> Seq<Seq<u8>> {
    Seq::new(bufs.len(), |j: int| bufs[j]@)
}

/// All segments joined in order: what a true scatter or gather transfer works on.
pub open spec fn concat(segs: Seq<Seq<u8>>) -> Seq<u8>
    decreases segs.len(),
{
    if segs.len() == 0 {
        Seq::empty()
    } else {
        segs[0] + concat(segs.skip(1))
    }
}

/// Whether `i` is the place of the first segment that is not empty.
pub open spec fn is_first_nonempty(segs: Seq<Seq<u8>>, i: int) -> bool {
    &&& 0 <= i < segs.len()
    &&& segs[i].len() > 0
    &&& forall|j: int| 0 <= j < i ==> segs[j].len() == 0
}

/// The first segment that is not empty, or the empty sequence where there is none: what an
/// emulated vectored transfer works on.
pub open spec fn selected(segs: Seq<Seq<u8>>) -> Seq<u8>
    decreases segs.len(),
{
    if segs.len() == 0 {
        Seq::empty()
    } else if segs[0].len() > 0 {
        segs[0]
    } else {
        selected(segs.skip(1))
    }
}

/// The selected segment is the one at the first non-empty place, and the joined contents
/// start with it: the segments before it add nothing.
pub proof fn lemma_first_nonempty(segs: Seq<Seq<u8>>, i: int)
    requires
        is_first_nonempty(segs, i),
    ensures
        selected(segs) == segs[i],
        concat(segs) == segs[i] + concat(segs.skip(i + 1)),
    decreases i,
{
    if i > 0 {
        let rest = segs.skip(1);
        lemma_first_nonempty(rest, i - 1);
        assert(rest.skip(i) =~= segs.skip(i + 1));
    }
}

/// Where every segment is empty, so are the selected segment and the joined contents.
pub proof fn lemma_all_empty(segs: Seq<Seq<u8>>)
    requires
        forall|j: int| 0 <= j < segs.len() ==> segs[j].len() == 0,
    ensures
        selected(segs) == Seq::<u8>::empty(),
        concat(segs) == Seq::<u8>::empty(),
    decreases segs.len(),
{
    if segs.len() > 0 {
        lemma_all_empty(segs.skip(1));
    }
}

/// The joined contents start with the selected segment.
pub proof fn lemma_selected_starts_concat(segs: Seq<Seq<u8>>)
    ensures
        selected(segs).len() <= concat(segs).len(),
        concat(segs).take(selected(segs).len() as int) == selected(segs),
    decreases segs.len(),
{
    if segs.len() > 0 {
        lemma_selected_starts_concat(segs.skip(1));
        if segs[0].len() > 0 {
            assert(concat(segs).take(segs[0].len() as int) =~= segs[0]);
        } else {
            assert(concat(segs) =~= concat(segs.skip(1)));
        }
    } else {
        assert(concat(segs).take(0) =~= selected(segs));
    }
}

/// Which segment is selected depends on the lengths of the segments alone: lists of segments
/// of the same lengths have selected segments of the same length.
pub proof fn lemma_selected_len(one: Seq<Seq<u8>>, other: Seq<Seq<u8>>)
    requires
        one.len() == other.len(),
        forall|j: int| 0 <= j < one.len() ==> one[j].len() == other[j].len(),
    ensures
        selected(one).len() == selected(other).len(),
    decreases one.len(),
{
    if one.len() > 0 {
        lemma_selected_len(one.skip(1), other.skip(1));
    }
}

/// A list of one buffer is that buffer, whether its segments are joined or the first
/// non-empty one is picked. So a single-buffer transfer that is wrapped as a vectored transfer
/// of one segment, and unwrapped again by the emulation, works on the very bytes of the
/// direct call.
pub proof fn lemma_single_segment_round_trip(buf: Seq<u8>)
    ensures
        selected(seq![buf]) == buf,
        concat(seq![buf]) == buf,
{
    let segs = seq![buf];
    assert(segs[0] + concat(segs.skip(1)) =~= buf);
    if buf.len() == 0 {
        assert(selected(segs.skip(1)) == Seq::<u8>::empty());
    }
}

/// The place of the first buffer in `bufs` that is not empty.
pub fn first_nonempty_mut(bufs: &[&mut [u8]]) -> (found: Option<usize>)
    ensures
        match found {
            Some(i) => is_first_nonempty(segments(bufs@), i as int),
            None => forall|j: int|
                0 <= j < bufs@.len() ==> (#[trigger] segments(bufs@)[j]).len() == 0,
        },
{
    let mut i: usize = 0;
    while i < bufs.len()
        invariant
            i <= bufs@.len(),
            forall|j: int| 0 <= j < i ==> (#[trigger] segments(bufs@)[j]).len() == 0,
        decreases bufs@.len() - i,
    {
        if bufs[i].len() > 0 {
            return Some(i);
        }
        i += 1;
    }
    None
}

/// The place of the first buffer in `bufs` that is not empty.
pub fn first_nonempty(bufs: &[&[u8]]) -> (found: Option<usize>)
    ensures
        match found {
            Some(i) => is_first_nonempty(shared_segments(bufs@), i as int),
            None => forall|j: int|
                0 <= j < bufs@.len() ==> (#[trigger] shared_segments(bufs@)[j]).len() == 0,
        },
{
    let mut i: usize = 0;
    while i < bufs.len()
        invariant
            i <= bufs@.len(),
            forall|j: int| 0 <= j < i ==> (#[trigger] shared_segments(bufs@)[j]).len() == 0,
        decreases bufs@.len() - i,
    {
        if bufs[i].len() > 0 {
            return Some(i);
        }
        i += 1;
    }
    None
}

/// Emulates a scatter read with the single-buffer primitive: reads into the first buffer of
/// `bufs` that is not empty, or into an empty buffer where there is none, and leaves every
/// other buffer untouched. The payload count is within the length of that first buffer.
pub fn read_vectored_by_first<AB: CmsgMut + ?Sized, RA: ReadAncillary<AB> + ?Sized>(
    slf: &mut RA,
    bufs: &mut [&mut [u8]],
    abuf: &mut AB,
) -> (r: Result<ReadAncillarySuccess, IoError>)
    requires
        old(abuf).wf(),
    ensures
        final(bufs)@.len() == old(bufs)@.len(),
        forall|j: int|
            0 <= j < old(bufs)@.len() ==> {
                &&& final(#[trigger] final(bufs)@[j])@ == final(old(bufs)@[j])@
                &&& (*final(bufs)@[j])@.len() == (*old(bufs)@[j])@.len()
            },
        forall|j: int|
            0 <= j < old(bufs)@.len() && !is_first_nonempty(segments(old(bufs)@), j) ==> (
            #[trigger] segments(final(bufs)@)[j]) == segments(old(bufs)@)[j],
        r matches Ok(sc) ==> sc.main <= selected(segments(old(bufs)@)).len(),
        ancillary_filled(&*old(abuf), &*final(abuf), r),
        recorded_read::<AB, RA>(
            &*old(slf),
            &*final(slf),
            read_call(
                selected(segments(old(bufs)@)).len(),
                selected(segments(final(bufs)@)),
                appended(&*old(abuf), &*final(abuf)),
                counted(r),
            ),
        ),
{
    match first_nonempty_mut(bufs) {
        Some(i) => {
            let ghost before = segments(bufs@);
            let buf: &mut [u8] = &mut *bufs[i];
            let r = slf.read_ancillary(buf, abuf);
            proof {
                let after = segments(bufs@);
                assert(after[i as int].len() == before[i as int].len());
                assert forall|j: int| 0 <= j < i implies after[j].len() == 0 by {
                    assert(after[j] == before[j]);
                }
                lemma_first_nonempty(before, i as int);
                lemma_first_nonempty(after, i as int);
            }
            r
        },
        None => {
            proof {
                lemma_all_empty(segments(bufs@));
            }
            let mut nothing: [u8; 0] = [];
            let r = slf.read_ancillary(&mut nothing, abuf);
            proof {
                if let Ok(sc) = r {
                    assert(nothing@.take(sc.main as int) =~= selected(segments(bufs@)).take(
                        sc.main as int,
                    ));
                }
            }
            r
        },
    }
}

/// Performs a single-buffer read through the vectored primitive, by handing it `buf` as a list
/// of one buffer. It meets the contract of
/// [`read_ancillary`](ReadAncillary::read_ancillary), so a reader whose native operation is the
/// vectored one can implement the single-buffer primitive with it.
pub fn read_in_terms_of_vectored<AB: CmsgMut + ?Sized, RA: ReadAncillary<AB> + ?Sized>(
    slf: &mut RA,
    buf: &mut [u8],
    abuf: &mut AB,
) -> (r: Result<ReadAncillarySuccess, IoError>)
    requires
        old(abuf).wf(),
    ensures
        final(buf)@.len() == old(buf)@.len(),
        r matches Ok(sc) ==> sc.main <= old(buf)@.len(),
        ancillary_filled(&*old(abuf), &*final(abuf), r),
        recorded_read::<AB, RA>(
            &*old(slf),
            &*final(slf),
            read_call(
                old(buf)@.len(),
                final(buf)@,
                appended(&*old(abuf), &*final(abuf)),
                counted(r),
            ),
        ),
{
    let mut bufs: [&mut [u8]; 1] = [buf];
    proof {
        assert(segments(bufs@) =~= seq![old(buf)@]);
        lemma_single_segment_round_trip(old(buf)@);
    }
    let r = slf.read_ancillary_vectored(&mut bufs, abuf);
    proof {
        assert(has_resolved(bufs@[0]));
        assert(segments(bufs@) =~= seq![(*bufs@[0])@]);
        lemma_single_segment_round_trip((*bufs@[0])@);
        if (*old(slf)).traces_reads() {
            assert((*slf).reads() =~= (*slf).reads().drop_last().push((*slf).reads().last()));
        }
    }
    r
}

/// Emulates a gather write with the single-buffer primitive: sends from the first buffer of
/// `bufs` that is not empty, or from an empty buffer where there is none. The count is within
/// the length of that first buffer.
pub fn write_vectored_by_first<WA: WriteAncillary + ?Sized>(
    slf: &mut WA,
    bufs: &[&[u8]],
    abuf: CmsgRef<'_>,
) -> (r: Result<usize, IoError>)
    ensures
        r matches Ok(n) ==> n <= selected(shared_segments(bufs@)).len(),
        recorded_write(
            &*old(slf),
            &*final(slf),
            WriteCall { data: selected(shared_segments(bufs@)), ancillary: abuf@, outcome: r },
        ),
{
    match first_nonempty(bufs) {
        Some(i) => {
            proof {
                lemma_first_nonempty(shared_segments(bufs@), i as int);
            }
            slf.write_ancillary(bufs[i], abuf)
        },
        None => {
            proof {
                lemma_all_empty(shared_segments(bufs@));
            }
            let nothing: [u8; 0] = [];
            let r = slf.write_ancillary(&nothing, abuf);
            assert(nothing@ =~= Seq::<u8>::empty());
            r
        },
    }
}

/// Performs a single-buffer write through the vectored primitive, by handing it `buf` as a
/// list of one buffer. It meets the contract of
/// [`write_ancillary`](WriteAncillary::write_ancillary), so a writer whose native operation is
/// the vectored one can implement the single-buffer primitive with it.
pub fn write_in_terms_of_vectored<WA: WriteAncillary + ?Sized>(
    slf: &mut WA,
    buf: &[u8],
    abuf: CmsgRef<'_>,
) -> (r: Result<usize, IoError>)
    ensures
        r matches Ok(n) ==> n <= buf@.len(),
        recorded_write(
            &*old(slf),
            &*final(slf),
            WriteCall { data: buf@, ancillary: abuf@, outcome: r },
        ),
{
    let bufs: [&[u8]; 1] = [buf];
    proof {
        assert(shared_segments(bufs@) =~= seq![buf@]);
        lemma_single_segment_round_trip(buf@);
    }
    let r = slf.write_ancillary_vectored(&bufs, abuf);
    proof {
        if (*old(slf)).traces_writes() {
            assert((*slf).writes() =~= (*slf).writes().drop_last().push((*slf).writes().last()));
        }
    }
    r
}

} // verus!

//! Runs: what the calls of a derived operation look like, and what the operation makes of them.
//!
//! A derived operation calls a primitive again and again. A run is the sequence of those
//! calls, each a record of what the call was handed and what came of it. The records exist
//! in contracts and proofs only. For each derived operation a spec function says which runs
//! it can make and what it returns for each; the laws at the end of this module are proved
//! from those functions alone.

use crate::ancillary_io::ReadAncillarySuccess;
use crate::error::IoError;
use crate::error::IoErrorKind;
use crate::error::WriteAllError;
use vstd::prelude::*;

verus! {

/// What one successful read handed over: the payload bytes that it placed at the start of the
/// main buffer and the bytes that it appended to the ancillary buffer.
pub struct ReadDelivery {
    /// The payload bytes.
    pub main: Seq<u8>,
    /// The bytes of ancillary data.
    pub ancillary: Seq<u8>,
}

/// One call of the reading primitive: how many bytes of main buffer the call was offered, and
/// what came of it.
pub struct ReadCall {
    /// The length of the main buffer that the call was handed.
    pub offered: nat,
    /// What the call delivered, or its error.
    pub outcome: Result<ReadDelivery, IoError>,
}

/// The record of a read that was offered `offered` bytes of main buffer, left `placed` there,
/// appended `appended` to the ancillary buffer and returned `r`.
pub open spec fn read_call(
    offered: nat,
    placed: Seq<u8>,
    appended: Seq<u8>,
    r: Result<usize, IoError>,
) -> ReadCall {
    ReadCall {
        offered,
        outcome: match r {
            Ok(n) => Ok(ReadDelivery { main: placed.take(n as int), ancillary: appended }),
            Err(e) => Err(e),
        },
    }
}

/// The payload count of a read's result, or its error.
pub open spec fn counted(r: Result<ReadAncillarySuccess, IoError>) -> Result<usize, IoError> {
    match r {
        Ok(sc) => Ok(sc.main),
        Err(e) => Err(e),
    }
}

/// The payload that a run of reads delivered, in order.
pub open spec fn gathered(calls: Seq<ReadCall>) -> Seq<u8>
    decreases calls.len(),
{
    if calls.len() == 0 {
        Seq::empty()
    } else {
        gathered(calls.drop_last()) + match calls.last().outcome {
            Ok(d) => d.main,
            Err(_) => Seq::empty(),
        }
    }
}

/// The ancillary data that a run of reads delivered, in order.
pub open spec fn gathered_ancillary(calls: Seq<ReadCall>) -> Seq<u8>
    decreases calls.len(),
{
    if calls.len() == 0 {
        Seq::empty()
    } else {
        gathered_ancillary(calls.drop_last()) + match calls.last().outcome {
            Ok(d) => d.ancillary,
            Err(_) => Seq::empty(),
        }
    }
}

/// Whether a read delivered payload, so that a derived operation that has not got all it wants
/// reads on. A read without payload means the end of the stream; a failed read ends the
/// operation with its error.
pub open spec fn delivers(call: ReadCall) -> bool {
    call.outcome matches Ok(d) && d.main.len() > 0
}

/// How many bytes of main buffer the read-to-end operations offer to each read.
pub const READ_CHUNK: usize = 8192;

/// How many interrupted calls a derived operation sits out. A call that fails as interrupted
/// has transferred nothing and is made again with the same arguments; the operation gives up
/// with that error only on the interrupted call after this many, so that it ends in any case.
pub const MAX_INTERRUPTIONS: usize = usize::MAX;

/// The error of a read-to-end operation whose main buffer cannot take another chunk.
pub open spec fn main_buffer_full() -> IoError {
    IoError { kind: IoErrorKind::OutOfMemory, raw_os_error: None }
}

/// The error of an exact read that met the end of the stream too early.
pub open spec fn stream_ended_early() -> IoError {
    IoError { kind: IoErrorKind::UnexpectedEof, raw_os_error: None }
}

/// The error of a write that accepted no bytes.
pub open spec fn wrote_nothing() -> IoError {
    IoError { kind: IoErrorKind::WriteZero, raw_os_error: None }
}

/// Whether a call failed as interrupted: it transferred nothing and is worth repeating.
pub open spec fn interrupted<T>(outcome: Result<T, IoError>) -> bool {
    outcome matches Err(e) && e.kind == IoErrorKind::Interrupted
}

/// How many reads of a run failed as interrupted.
pub open spec fn read_interruptions(calls: Seq<ReadCall>) -> nat
    decreases calls.len(),
{
    if calls.len() == 0 {
        0
    } else {
        read_interruptions(calls.drop_last()) + if interrupted(calls.last().outcome) {
            1nat
        } else {
            0nat
        }
    }
}

/// Whether a derived read that has not got all it wants reads on after the run `calls`: its
/// last read delivered payload, or was interrupted and is made again. An interrupted read is
/// made again unless [`MAX_INTERRUPTIONS`] reads of the run were interrupted before it.
pub open spec fn reads_on(calls: Seq<ReadCall>) -> bool {
    &&& calls.len() > 0
    &&& {
        ||| delivers(calls.last())
        ||| interrupted(calls.last().outcome) && read_interruptions(calls) <= MAX_INTERRUPTIONS
    }
}

/// The requests for room that a read-to-end operation makes of the ancillary buffer when it
/// grows it with the main buffer: one of [`READ_CHUNK`] bytes before each of its `reads` reads.
pub open spec fn chunk_requests(reads: nat) -> Seq<nat> {
    Seq::new(reads, |i: int| READ_CHUNK as nat)
}

/// Whether `calls` are the reads that a read-to-end operation makes one after the other: each
/// is made after a read that lets the operation read on, and is offered [`READ_CHUNK`] bytes.
pub open spec fn read_to_end_calls(calls: Seq<ReadCall>) -> bool
    decreases calls.len(),
{
    calls.len() == 0 || {
        let earlier = calls.drop_last();
        &&& read_to_end_calls(earlier)
        &&& earlier.len() > 0 ==> reads_on(earlier)
        &&& calls.last().offered == READ_CHUNK
    }
}

/// The runs of a read-to-end operation, and what it returns for each. The main buffer held
/// `start` bytes before.
///
/// The operation succeeds exactly when its last read succeeds without payload, which is the
/// end of the stream, and then returns the sums over all reads. It fails with the error of its
/// last read where that read fails and is not made again. It fails as [`main_buffer_full`],
/// without a further read, where the length of the main buffer cannot be counted a chunk
/// further.
pub open spec fn read_to_end_outcome(
    start: nat,
    calls: Seq<ReadCall>,
    r: Result<ReadAncillarySuccess, IoError>,
) -> bool {
    &&& read_to_end_calls(calls)
    &&& match r {
        Ok(total) => {
            &&& calls.len() > 0
            &&& calls.last().outcome is Ok
            &&& !delivers(calls.last())
            &&& total.main == gathered(calls).len()
            &&& total.ancillary == gathered_ancillary(calls).len()
        },
        Err(e) => if calls.len() > 0 && !reads_on(calls) {
            calls.last().outcome == Err::<ReadDelivery, IoError>(e)
        } else {
            e == main_buffer_full() && start + gathered(calls).len() + READ_CHUNK > usize::MAX
        },
    }
}

/// What a read-to-end operation leaves behind: its run is one of
/// [`read_to_end_outcome`], the main buffer went from `before` to `after` by taking the
/// payload of the run at its end, and the ancillary buffer went from `held` to `holds` by
/// taking the run's ancillary data at its end. What was read before a failure stays.
pub open spec fn read_to_end_run(
    before: Seq<u8>,
    after: Seq<u8>,
    held: Seq<u8>,
    holds: Seq<u8>,
    calls: Seq<ReadCall>,
    r: Result<ReadAncillarySuccess, IoError>,
) -> bool {
    &&& read_to_end_outcome(before.len(), calls, r)
    &&& after == before + gathered(calls)
    &&& holds == held + gathered_ancillary(calls)
}

/// Whether `calls` are the reads that an exact read of `want` bytes makes one after the other:
/// each is made after a read that lets the operation read on, while less than `want` bytes
/// have come, and is offered the part of the buffer that is still to be filled.
pub open spec fn read_exact_calls(want: nat, calls: Seq<ReadCall>) -> bool
    decreases calls.len(),
{
    calls.len() == 0 || {
        let earlier = calls.drop_last();
        &&& read_exact_calls(want, earlier)
        &&& earlier.len() > 0 ==> reads_on(earlier)
        &&& gathered(earlier).len() < want
        &&& calls.last().offered == want - gathered(earlier).len()
    }
}

/// The runs of an exact read, and what it returns for each. The buffer to fill is `want`
/// bytes long.
///
/// The operation succeeds exactly when the reads filled the buffer, and then returns the sums
/// over all reads; for an empty buffer that is at once, without a read. Where the last read
/// succeeds without payload, the stream has ended early and the operation fails as
/// [`stream_ended_early`]; where the last read fails and is not made again, the operation
/// fails with its error.
pub open spec fn read_exact_outcome(
    want: nat,
    calls: Seq<ReadCall>,
    r: Result<ReadAncillarySuccess, IoError>,
) -> bool {
    &&& read_exact_calls(want, calls)
    &&& gathered(calls).len() <= want
    &&& match r {
        Ok(total) => {
            &&& gathered(calls).len() == want
            &&& calls.len() > 0 ==> delivers(calls.last())
            &&& total.main == gathered(calls).len()
            &&& total.ancillary == gathered_ancillary(calls).len()
        },
        Err(e) => {
            &&& calls.len() > 0
            &&& !reads_on(calls)
            &&& match calls.last().outcome {
                Ok(_) => e == stream_ended_early(),
                Err(cause) => e == cause,
            }
        },
    }
}

/// What an exact read leaves behind: its run is one of [`read_exact_outcome`], the buffer
/// `after` is as long as it was and starts with the payload of the run, and the ancillary
/// buffer went from `held` to `holds` by taking the run's ancillary data at its end.
pub open spec fn read_exact_run(
    want: nat,
    after: Seq<u8>,
    held: Seq<u8>,
    holds: Seq<u8>,
    calls: Seq<ReadCall>,
    r: Result<ReadAncillarySuccess, IoError>,
) -> bool {
    &&& read_exact_outcome(want, calls, r)
    &&& after.len() == want
    &&& after.take(gathered(calls).len() as int) == gathered(calls)
    &&& holds == held + gathered_ancillary(calls)
}

/// One call of the writing primitive: the payload bytes and the ancillary payload that the
/// call was handed, and what came of it.
pub struct WriteCall {
    /// The payload bytes that the call was handed.
    pub data: Seq<u8>,
    /// The ancillary payload that the call was handed.
    pub ancillary: Seq<u8>,
    /// How many payload bytes the call sent, or its error.
    pub outcome: Result<usize, IoError>,
}

/// How many payload bytes a run of writes sent.
pub open spec fn written(calls: Seq<WriteCall>) -> nat
    decreases calls.len(),
{
    if calls.len() == 0 {
        0
    } else {
        written(calls.drop_last()) + match calls.last().outcome {
            Ok(n) => n as nat,
            Err(_) => 0,
        }
    }
}

/// Whether one of the writes succeeded. A successful write has sent the ancillary payload
/// that it carried.
pub open spec fn accepted(calls: Seq<WriteCall>) -> bool
    decreases calls.len(),
{
    calls.len() > 0 && (accepted(calls.drop_last()) || calls.last().outcome is Ok)
}

/// How many of the writes sent an ancillary payload that was not empty.
pub open spec fn ancillary_transmissions(calls: Seq<WriteCall>) -> nat
    decreases calls.len(),
{
    if calls.len() == 0 {
        0
    } else {
        ancillary_transmissions(calls.drop_last()) + if calls.last().outcome is Ok
            && calls.last().ancillary.len() > 0 {
            1nat
        } else {
            0nat
        }
    }
}

/// How many writes of a run failed as interrupted.
pub open spec fn write_interruptions(calls: Seq<WriteCall>) -> nat
    decreases calls.len(),
{
    if calls.len() == 0 {
        0
    } else {
        write_interruptions(calls.drop_last()) + if interrupted(calls.last().outcome) {
            1nat
        } else {
            0nat
        }
    }
}

/// Whether a write sent payload.
pub open spec fn advances(call: WriteCall) -> bool {
    call.outcome matches Ok(n) && n > 0
}

/// Whether a write-all operation that has not sent everything writes on after the run
/// `calls`: its last write sent payload, or was interrupted and is made again. An interrupted
/// write is made again unless [`MAX_INTERRUPTIONS`] writes of the run were interrupted before
/// it.
pub open spec fn writes_on(calls: Seq<WriteCall>) -> bool {
    &&& calls.len() > 0
    &&& {
        ||| advances(calls.last())
        ||| interrupted(calls.last().outcome) && write_interruptions(calls)
            <= MAX_INTERRUPTIONS
    }
}

/// Whether `calls` are the writes that a write-all operation on `buf` and `abuf` makes one
/// after the other: each is made after a write that lets the operation write on, while some
/// of `buf` is still unsent, and is handed all that is unsent. Every write carries the
/// ancillary payload until one has succeeded, and every write after that carries none.
pub open spec fn write_all_calls(buf: Seq<u8>, abuf: Seq<u8>, calls: Seq<WriteCall>) -> bool
    decreases calls.len(),
{
    calls.len() == 0 || {
        let earlier = calls.drop_last();
        &&& write_all_calls(buf, abuf, earlier)
        &&& earlier.len() > 0 ==> writes_on(earlier)
        &&& written(earlier) < buf.len()
        &&& calls.last().data == buf.skip(written(earlier) as int)
        &&& calls.last().ancillary == if accepted(earlier) {
            Seq::<u8>::empty()
        } else {
            abuf
        }
        &&& calls.last().outcome matches Ok(n) ==> n <= calls.last().data.len()
    }
}

/// The runs of a write-all operation, and what it returns for each.
///
/// The operation succeeds exactly when the writes sent all of `buf`; for an empty `buf` that
/// is at once, without a write. Otherwise its last write either failed and is not made again,
/// and the operation reports that error, or accepted no bytes, and the operation reports
/// [`wrote_nothing`]. With the error it reports how many bytes the writes sent, and whether a
/// write succeeded, which is when the ancillary payload went out.
pub open spec fn write_all_outcome(
    buf: Seq<u8>,
    abuf: Seq<u8>,
    calls: Seq<WriteCall>,
    r: Result<(), WriteAllError>,
) -> bool {
    &&& write_all_calls(buf, abuf, calls)
    &&& written(calls) <= buf.len()
    &&& match r {
        Ok(()) => {
            &&& written(calls) == buf.len()
            &&& calls.len() > 0 ==> advances(calls.last())
        },
        Err(e) => {
            &&& calls.len() > 0
            &&& !writes_on(calls)
            &&& e.cause == match calls.last().outcome {
                Ok(_) => wrote_nothing(),
                Err(cause) => cause,
            }
            &&& e.written == written(calls)
            &&& e.ancillary_sent == accepted(calls)
        },
    }
}

/// Whether `calls` read a stream that holds `payload` before it ends: every successful read
/// hands over the bytes of `payload` that follow those of the earlier reads, and hands over
/// none only where none are left.
pub open spec fn reads_stream(payload: Seq<u8>, calls: Seq<ReadCall>) -> bool
    decreases calls.len(),
{
    calls.len() == 0 || {
        let earlier = calls.drop_last();
        &&& reads_stream(payload, earlier)
        &&& calls.last().outcome matches Ok(d) ==> {
            &&& gathered(earlier).len() + d.main.len() <= payload.len()
            &&& d.main == payload.subrange(
                gathered(earlier).len() as int,
                (gathered(earlier).len() + d.main.len()) as int,
            )
            &&& d.main.len() == 0 ==> gathered(earlier).len() == payload.len()
        }
    }
}

/// Reads of a stream gather a prefix of its payload, and all of it once a read has come back
/// successful and empty.
pub proof fn lemma_reads_stream_gathers(payload: Seq<u8>, calls: Seq<ReadCall>)
    requires
        reads_stream(payload, calls),
    ensures
        gathered(calls).len() <= payload.len(),
        gathered(calls) == payload.take(gathered(calls).len() as int),
        calls.len() > 0 && calls.last().outcome is Ok && !delivers(calls.last()) ==> gathered(
            calls,
        ) == payload,
    decreases calls.len(),
{
    if calls.len() > 0 {
        let earlier = calls.drop_last();
        lemma_reads_stream_gathers(payload, earlier);
        assert(gathered(calls) =~= payload.take(gathered(calls).len() as int));
        if calls.last().outcome is Ok && !delivers(calls.last()) {
            assert(gathered(calls) =~= payload);
        }
    } else {
        assert(gathered(calls) =~= payload.take(0));
    }
}

/// Whether no read of the run failed other than as interrupted, and no more reads were
/// interrupted than a derived operation sits out.
pub open spec fn reads_without_failure(calls: Seq<ReadCall>) -> bool {
    &&& forall|i: int|
        0 <= i < calls.len() ==> (#[trigger] calls[i]).outcome is Ok || interrupted(
            calls[i].outcome,
        )
    &&& read_interruptions(calls) <= MAX_INTERRUPTIONS
}

/// The two read-to-end operations put the same payload into the main buffer when they read
/// the same stream. Let a stream hold `payload` before it ends, and let two read-to-end
/// operations read it, one growing the ancillary buffer and one not, on main buffers that held
/// `before` and can take the payload and a chunk more. If the one that does not grow
/// succeeds, and the reads of the other do not fail, then the other succeeds too, both main
/// buffers end as `before` followed by `payload`, and both operations report the same payload
/// count. What differs is only what becomes of the ancillary buffers.
pub proof fn lemma_read_to_end_same_payload(
    payload: Seq<u8>,
    before: Seq<u8>,
    after_growing: Seq<u8>,
    held_growing: Seq<u8>,
    holds_growing: Seq<u8>,
    growing: Seq<ReadCall>,
    r_growing: Result<ReadAncillarySuccess, IoError>,
    after_fixed: Seq<u8>,
    held_fixed: Seq<u8>,
    holds_fixed: Seq<u8>,
    fixed: Seq<ReadCall>,
    r_fixed: Result<ReadAncillarySuccess, IoError>,
)
    requires
        read_to_end_run(before, after_growing, held_growing, holds_growing, growing, r_growing),
        read_to_end_run(before, after_fixed, held_fixed, holds_fixed, fixed, r_fixed),
        reads_stream(payload, growing),
        reads_stream(payload, fixed),
        reads_without_failure(growing),
        before.len() + payload.len() + READ_CHUNK <= usize::MAX,
        r_fixed is Ok,
    ensures
        r_growing is Ok,
        after_growing == before + payload,
        after_fixed == after_growing,
        r_growing->Ok_0.main == r_fixed->Ok_0.main,
{
    lemma_reads_stream_gathers(payload, growing);
    lemma_reads_stream_gathers(payload, fixed);
    if growing.len() > 0 {
        assert(growing.last() == growing[growing.len() - 1]);
    }
}

/// The counts that a derived read reports are sums over its reads: one more read adds its
/// payload count to the one and its ancillary count to the other.
pub proof fn lemma_gathered_accumulates(calls: Seq<ReadCall>, next: ReadCall)
    ensures
        gathered(calls.push(next)).len() == gathered(calls).len() + match next.outcome {
            Ok(d) => d.main.len(),
            Err(_) => 0,
        },
        gathered_ancillary(calls.push(next)).len() == gathered_ancillary(calls).len()
            + match next.outcome {
            Ok(d) => d.ancillary.len(),
            Err(_) => 0,
        },
{
    assert(calls.push(next).drop_last() =~= calls);
}

/// However many writes a write-all operation makes and however it ends, the ancillary payload
/// goes out at most once: once if it is not empty and a write succeeded, and never otherwise.
pub proof fn lemma_ancillary_goes_out_once(buf: Seq<u8>, abuf: Seq<u8>, calls: Seq<WriteCall>)
    requires
        write_all_calls(buf, abuf, calls),
    ensures
        ancillary_transmissions(calls) == if accepted(calls) && abuf.len() > 0 {
            1nat
        } else {
            0nat
        },
    decreases calls.len(),
{
    if calls.len() > 0 {
        lemma_ancillary_goes_out_once(buf, abuf, calls.drop_last());
    }
}

/// Writes that sent payload include one that succeeded.
pub proof fn lemma_written_was_accepted(calls: Seq<WriteCall>)
    requires
        written(calls) > 0,
    ensures
        accepted(calls),
    decreases calls.len(),
{
    if calls.len() > 0 && written(calls.drop_last()) > 0 {
        lemma_written_was_accepted(calls.drop_last());
    }
}

/// Whether no write of the run failed other than as interrupted or accepted nothing, and no
/// more writes were interrupted than a write-all operation sits out.
pub open spec fn writes_without_failure(calls: Seq<WriteCall>) -> bool {
    &&& forall|i: int|
        0 <= i < calls.len() ==> advances(#[trigger] calls[i]) || interrupted(calls[i].outcome)
    &&& write_interruptions(calls) <= MAX_INTERRUPTIONS
}

/// On a stream that never fails other than by interrupting and never refuses payload, a
/// write-all operation succeeds and its writes send exactly as many bytes as `buf` holds. If
/// there is payload to send and an ancillary payload to go with it, the ancillary payload
/// goes out exactly once, however many writes it takes and however many of them are
/// interrupted.
pub proof fn lemma_write_all_sends_everything(
    buf: Seq<u8>,
    abuf: Seq<u8>,
    calls: Seq<WriteCall>,
    r: Result<(), WriteAllError>,
)
    requires
        write_all_outcome(buf, abuf, calls, r),
        writes_without_failure(calls),
    ensures
        r is Ok,
        written(calls) == buf.len(),
        buf.len() > 0 && abuf.len() > 0 ==> ancillary_transmissions(calls) == 1,
{
    lemma_ancillary_goes_out_once(buf, abuf, calls);
    if calls.len() > 0 {
        assert(calls.last() == calls[calls.len() - 1]);
    }
    if buf.len() > 0 {
        lemma_written_was_accepted(calls);
    }
}

} // verus!

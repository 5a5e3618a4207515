//! A connection and its two halves.
//!
//! A [`UdStream`] stands for one live duplex connection and owns its descriptor. It can be
//! split into a half that reads and a half that writes, in two ways. [`UdStream::split`]
//! lends the connection to two borrowed halves for as long as the borrow lasts.
//! [`UdStream::into_split`] gives the connection up for two owned halves, which can go
//! separate ways. Each owned half carries the identity of the connection it came from, and
//! [`UdStream::reunite`] puts two of them together again only if those identities match.
//! Nothing is lost where they do not: the error holds both halves.
//!
//! The transfers themselves are made by the code that owns the operating system's resources;
//! this module keeps track of who holds what.

use vstd::prelude::*;

verus! {

/// The directions of a connection that a shutdown closes.
#[derive(Copy, Clone, Debug, PartialEq, Eq, Hash, Structural)]
pub enum Shutdown {
    /// The reading direction.
    Read,
    /// The writing direction.
    Write,
    /// Both directions.
    Both,
}

/// A live duplex connection.
#[derive(Debug, PartialEq, Eq)]
pub struct UdStream {
    descriptor: i32,
}

/// The reading half of a connection that is lent out.
#[derive(Debug)]
pub struct BorrowedReadHalf<'a> {
    stream: &'a UdStream,
}

/// The writing half of a connection that is lent out.
#[derive(Debug)]
pub struct BorrowedWriteHalf<'a> {
    stream: &'a UdStream,
}

/// The reading half of a connection that was given up for its halves.
#[derive(Debug, PartialEq, Eq)]
pub struct OwnedReadHalf {
    origin: i32,
}

/// The writing half of a connection that was given up for its halves.
#[derive(Debug, PartialEq, Eq)]
pub struct OwnedWriteHalf {
    origin: i32,
}

/// Error indicating that a read half and a write half were not from the same stream, and thus
/// could not be reunited. It holds the two halves as they were handed in.
#[derive(Debug, PartialEq, Eq)]
pub struct ReuniteError(pub OwnedReadHalf, pub OwnedWriteHalf);

impl ReuniteError {
    /// What went wrong, in words.
    pub fn message(&self) -> (text: &'static str)
        ensures
            text@ == "tried to reunite halves of different streams"@,
    {
        "tried to reunite halves of different streams"
    }
}

impl<'a> BorrowedReadHalf<'a> {
    /// The descriptor of the connection that this half reads from.
    pub closed spec fn descriptor(&self) -> i32 {
        self.stream.descriptor
    }

    /// The descriptor of the connection that this half reads from.
    pub fn as_raw_descriptor(&self) -> (descriptor: i32)
        ensures
            descriptor == self.descriptor(),
    {
        self.stream.descriptor
    }
}

impl<'a> BorrowedWriteHalf<'a> {
    /// The descriptor of the connection that this half writes to.
    pub closed spec fn descriptor(&self) -> i32 {
        self.stream.descriptor
    }

    /// The descriptor of the connection that this half writes to.
    pub fn as_raw_descriptor(&self) -> (descriptor: i32)
        ensures
            descriptor == self.descriptor(),
    {
        self.stream.descriptor
    }
}

impl OwnedReadHalf {
    /// The identity of the connection that this half came from: its descriptor.
    pub closed spec fn origin(&self) -> i32 {
        self.origin
    }

    /// The descriptor of the connection that this half reads from.
    pub fn as_raw_descriptor(&self) -> (descriptor: i32)
        ensures
            descriptor == self.origin(),
    {
        self.origin
    }

    /// What dropping this half does to the connection: it closes the reading direction and
    /// leaves the writing direction open.
    pub fn shutdown_on_drop(&self) -> (how: Shutdown)
        ensures
            how == Shutdown::Read,
    {
        Shutdown::Read
    }
}

impl OwnedWriteHalf {
    /// The identity of the connection that this half came from: its descriptor.
    pub closed spec fn origin(&self) -> i32 {
        self.origin
    }

    /// The descriptor of the connection that this half writes to.
    pub fn as_raw_descriptor(&self) -> (descriptor: i32)
        ensures
            descriptor == self.origin(),
    {
        self.origin
    }

    /// What dropping this half does to the connection: it closes the writing direction and
    /// leaves the reading direction open.
    pub fn shutdown_on_drop(&self) -> (how: Shutdown)
        ensures
            how == Shutdown::Write,
    {
        Shutdown::Write
    }
}

impl UdStream {
    /// The descriptor that the connection owns. Two live connections never share one.
    pub closed spec fn descriptor(&self) -> i32 {
        self.descriptor
    }

    /// The owned halves that the connection splits into.
    pub closed spec fn halves(self) -> (OwnedReadHalf, OwnedWriteHalf) {
        (OwnedReadHalf { origin: self.descriptor }, OwnedWriteHalf { origin: self.descriptor })
    }

    /// What putting `read` and `write` together gives: the connection that both came from, or,
    /// where they came from different connections, an error that holds the two of them.
    pub closed spec fn reunion(read: OwnedReadHalf, write: OwnedWriteHalf) -> Result<
        UdStream,
        ReuniteError,
    > {
        if read.origin == write.origin {
            Ok(UdStream { descriptor: read.origin })
        } else {
            Err(ReuniteError(read, write))
        }
    }

    /// The connection that owns `descriptor`. The descriptor now belongs to the connection.
    pub fn from_raw_descriptor(descriptor: i32) -> (stream: UdStream)
        ensures
            stream.descriptor() == descriptor,
    {
        UdStream { descriptor }
    }

    /// The descriptor that the connection owns.
    pub fn as_raw_descriptor(&self) -> (descriptor: i32)
        ensures
            descriptor == self.descriptor(),
    {
        self.descriptor
    }

    /// Borrows a stream into a read half and a write half, which can be used to read and write
    /// the stream concurrently. The halves cannot outlive the borrow, and the stream is as it
    /// was when the borrow ends.
    pub fn split(&mut self) -> (halves: (BorrowedReadHalf<'_>, BorrowedWriteHalf<'_>))
        ensures
            halves.0.descriptor() == old(self).descriptor(),
            halves.1.descriptor() == old(self).descriptor(),
            *final(self) == *old(self),
    {
        let stream: &UdStream = &*self;
        (BorrowedReadHalf { stream }, BorrowedWriteHalf { stream })
    }

    /// Splits a stream into a read half and a write half, which can be used to read and write
    /// the stream concurrently. Unlike the halves of [`split`](UdStream::split), the owned
    /// halves can be moved to separate tasks. Both carry the identity of this stream.
    pub fn into_split(self) -> (halves: (OwnedReadHalf, OwnedWriteHalf))
        ensures
            halves == self.halves(),
            halves.0.origin() == self.descriptor(),
            halves.1.origin() == self.descriptor(),
    {
        (OwnedReadHalf { origin: self.descriptor }, OwnedWriteHalf { origin: self.descriptor })
    }

    /// Attempts to put two owned halves of a stream back together and recover the stream
    /// that they came from. Succeeds only if the two halves originated from the same call to
    /// [`into_split`](UdStream::into_split); otherwise the error gives both halves back as
    /// they were.
    pub fn reunite(read: OwnedReadHalf, write: OwnedWriteHalf) -> (r: Result<
        UdStream,
        ReuniteError,
    >)
        ensures
            r == UdStream::reunion(read, write),
            r is Ok <==> read.origin() == write.origin(),
            r matches Ok(stream) ==> stream.descriptor() == read.origin(),
            r matches Err(e) ==> e.0 == read && e.1 == write,
    {
        if read.origin == write.origin {
            Ok(UdStream { descriptor: read.origin })
        } else {
            Err(ReuniteError(read, write))
        }
    }
}

/// Reuniting undoes splitting: the two halves of a stream reunite to that stream.
pub proof fn lemma_reunite_restores(stream: UdStream)
    ensures
        UdStream::reunion(stream.halves().0, stream.halves().1) == Ok::<UdStream, ReuniteError>(
            stream,
        ),
{
}

/// Halves of different streams never reunite, in either pairing, and the error holds the
/// very halves that were handed in.
pub proof fn lemma_reunite_refuses_strangers(one: UdStream, other: UdStream)
    requires
        one.descriptor() != other.descriptor(),
    ensures
        UdStream::reunion(one.halves().0, other.halves().1) == Err::<UdStream, ReuniteError>(
            ReuniteError(one.halves().0, other.halves().1),
        ),
        UdStream::reunion(other.halves().0, one.halves().1) == Err::<UdStream, ReuniteError>(
            ReuniteError(other.halves().0, one.halves().1),
        ),
{
}

/// What reuniting does is decided by the origins of the halves alone: it succeeds exactly for
/// halves of one origin, gives the stream of that origin, and otherwise gives both halves
/// back.
pub proof fn lemma_reunion_by_origin(read: OwnedReadHalf, write: OwnedWriteHalf)
    ensures
        UdStream::reunion(read, write) is Ok <==> read.origin() == write.origin(),
        UdStream::reunion(read, write) matches Ok(stream) ==> stream.descriptor() == read.origin(),
        UdStream::reunion(read, write) matches Err(e) ==> e.0 == read && e.1 == write,
{
}

} // verus!

//! Buffers for ancillary data: serialized control messages that travel beside the payload.
//!
//! A buffer that receives ancillary data is a [`CmsgMut`]: a region with a capacity, of which a
//! prefix holds valid bytes. There are two kinds. [`CmsgMutBuf`] works on storage of a fixed
//! size; [`CmsgVecBuf`] can be asked to grow. A payload to be sent is a [`CmsgRef`].
//!
//! A full buffer is not an error. Whatever does not fit is left out, and the count that a fill
//! returns tells how much went in.

use vstd::prelude::*;

verus! {

/// The smaller of two numbers.
pub open spec fn min_nat(a: nat, b: nat) -> nat {
    if a <= b {
        a
    } else {
        b
    }
}

/// The larger of two numbers.
pub open spec fn max_nat(a: nat, b: nat) -> nat {
    if a >= b {
        a
    } else {
        b
    }
}

/// A buffer that receives ancillary data.
pub trait CmsgMut {
    /// The valid bytes that the buffer holds.
    spec fn contents(&self) -> Seq<u8>;

    /// How many bytes the buffer can hold without growing.
    spec fn spec_capacity(&self) -> nat;

    /// The requests for room made of this buffer so far, each with the number of bytes that
    /// was asked for, granted or not. The record exists in proofs only.
    spec fn requests(&self) -> Seq<nat>;

    /// The buffer's invariant. Every constructor establishes it and every method keeps it.
    spec fn wf(&self) -> bool;

    /// A well-formed buffer holds no more than its capacity, and its capacity is a `usize`.
    proof fn lemma_within_capacity(&self)
        requires
            self.wf(),
        ensures
            self.contents().len() <= self.spec_capacity() <= usize::MAX,
    ;

    /// The number of valid bytes.
    fn len(&self) -> (n: usize)
        requires
            self.wf(),
        ensures
            n == self.contents().len(),
    ;

    /// The number of bytes that the buffer can hold without growing.
    fn capacity(&self) -> (n: usize)
        requires
            self.wf(),
        ensures
            n == self.spec_capacity(),
    ;

    /// The valid bytes.
    fn as_bytes(&self) -> (bytes: &[u8])
        requires
            self.wf(),
        ensures
            bytes@ == self.contents(),
    ;

    /// Asks for room for `additional` more bytes, growing the buffer by no more than that
    /// needs: it never shrinks, and it grows to no more than its contents and `additional`
    /// bytes. This is a hint: a buffer that cannot grow stays as it is. The result is the free
    /// space that is now there, counted up to `additional`. Granted or not, the request is
    /// recorded; no other method records one.
    fn reserve_up_to_exact(&mut self, additional: usize) -> (reserved: usize)
        requires
            old(self).wf(),
        ensures
            (*final(self)).wf(),
            (*final(self)).contents() == (*old(self)).contents(),
            (*final(self)).requests() == (*old(self)).requests().push(additional as nat),
            (*final(self)).spec_capacity() >= (*old(self)).spec_capacity(),
            (*final(self)).spec_capacity() <= max_nat(
                (*old(self)).spec_capacity(),
                (*old(self)).contents().len() + additional as nat,
            ),
            reserved == min_nat(
                additional as nat,
                ((*final(self)).spec_capacity() - (*final(self)).contents().len()) as nat,
            ),
    ;

    /// Appends as much of `src` as the free space takes, never growing the buffer, and returns
    /// how many bytes that was.
    fn fill(&mut self, src: &[u8]) -> (stored: usize)
        requires
            old(self).wf(),
        ensures
            (*final(self)).wf(),
            (*final(self)).spec_capacity() == (*old(self)).spec_capacity(),
            (*final(self)).requests() == (*old(self)).requests(),
            stored == min_nat(
                src@.len(),
                ((*old(self)).spec_capacity() - (*old(self)).contents().len()) as nat,
            ),
            (*final(self)).contents() == (*old(self)).contents() + src@.take(stored as int),
    ;

    /// Keeps the first `len` valid bytes and drops the rest. A `len` beyond the valid bytes
    /// changes nothing.
    fn truncate(&mut self, len: usize)
        requires
            old(self).wf(),
        ensures
            (*final(self)).wf(),
            (*final(self)).spec_capacity() == (*old(self)).spec_capacity(),
            (*final(self)).requests() == (*old(self)).requests(),
            (*final(self)).contents() == (*old(self)).contents().take(
                min_nat(len as nat, (*old(self)).contents().len()) as int,
            ),
    ;

    /// Drops all valid bytes.
    fn clear(&mut self)
        requires
            old(self).wf(),
        ensures
            (*final(self)).wf(),
            (*final(self)).spec_capacity() == (*old(self)).spec_capacity(),
            (*final(self)).requests() == (*old(self)).requests(),
            (*final(self)).contents() == Seq::<u8>::empty(),
    ;
}

/// An ancillary buffer over storage of a fixed size.
pub struct CmsgMutBuf {
    storage: Vec<u8>,
    capacity: usize,
    len: usize,
    requests: Ghost<Seq<nat>>,
}

impl CmsgMutBuf {
    /// An empty buffer that uses all of `storage`. What `storage` held is overwritten as the
    /// buffer fills.
    pub fn new(storage: Vec<u8>) -> (buf: CmsgMutBuf)
        ensures
            buf.wf(),
            buf.contents() == Seq::<u8>::empty(),
            buf.spec_capacity() == storage@.len(),
            buf.requests() == Seq::<nat>::empty(),
    {
        let capacity = storage.len();
        CmsgMutBuf { storage, capacity, len: 0, requests: Ghost(Seq::empty()) }
    }

    /// An empty buffer with room for `capacity` bytes.
    pub fn with_capacity(capacity: usize) -> (buf: CmsgMutBuf)
        ensures
            buf.wf(),
            buf.contents() == Seq::<u8>::empty(),
            buf.spec_capacity() == capacity,
            buf.requests() == Seq::<nat>::empty(),
    {
        CmsgMutBuf {
            storage: vec![0u8; capacity],
            capacity,
            len: 0,
            requests: Ghost(Seq::empty()),
        }
    }

    /// Gives the storage back. The valid bytes stand at its start.
    pub fn into_storage(self) -> (storage: Vec<u8>)
        requires
            self.wf(),
        ensures
            storage@.len() == self.spec_capacity(),
            storage@.take(self.contents().len() as int) == self.contents(),
    {
        self.storage
    }
}

impl CmsgMut for CmsgMutBuf {
    closed spec fn contents(&self) -> Seq<u8> {
        self.storage@.take(self.len as int)
    }

    closed spec fn spec_capacity(&self) -> nat {
        self.capacity as nat
    }

    closed spec fn requests(&self) -> Seq<nat> {
        self.requests@
    }

    closed spec fn wf(&self) -> bool {
        self.len <= self.capacity && self.storage@.len() == self.capacity
    }

    proof fn lemma_within_capacity(&self) {
    }

    fn len(&self) -> (n: usize) {
        self.len
    }

    fn capacity(&self) -> (n: usize) {
        self.capacity
    }

    fn as_bytes(&self) -> (bytes: &[u8]) {
        vstd::slice::slice_subrange(self.storage.as_slice(), 0, self.len)
    }

    /// The storage cannot grow: the capacity stays, and the result is the free space counted
    /// up to `additional`.
    fn reserve_up_to_exact(&mut self, additional: usize) -> (reserved: usize)
        ensures
            final(self).spec_capacity() == old(self).spec_capacity(),
    {
        proof {
            self.requests@ = self.requests@.push(additional as nat);
        }
        let free = self.capacity - self.len;
        if additional <= free {
            additional
        } else {
            free
        }
    }

    fn fill(&mut self, src: &[u8]) -> (stored: usize) {
        let free = self.capacity - self.len;
        let stored = if src.len() <= free {
            src.len()
        } else {
            free
        };
        let start = self.len;
        let mut i: usize = 0;
        while i < stored
            invariant
                i <= stored,
                stored <= src@.len(),
                start + stored <= self.capacity,
                self.storage@.len() == self.capacity,
                self.capacity == old(self).capacity,
                self.requests@ == old(self).requests@,
                self.len == start,
                start == old(self).len,
                self.storage@.take(start as int) == old(self).storage@.take(start as int),
                self.storage@.subrange(start as int, start + i) == src@.take(i as int),
            decreases stored - i,
        {
            self.storage[start + i] = src[i];
            i += 1;
        }
        self.len = start + stored;
        stored
    }

    fn truncate(&mut self, len: usize) {
        if len < self.len {
            self.len = len;
        }
    }

    fn clear(&mut self) {
        self.len = 0;
    }
}

/// An ancillary buffer that can grow.
pub struct CmsgVecBuf {
    data: Vec<u8>,
    reserved: usize,
    requests: Ghost<Seq<nat>>,
}

impl CmsgVecBuf {
    /// An empty buffer without any room. It takes nothing until it is asked to reserve.
    pub fn new() -> (buf: CmsgVecBuf)
        ensures
            buf.wf(),
            buf.contents() == Seq::<u8>::empty(),
            buf.spec_capacity() == 0,
            buf.requests() == Seq::<nat>::empty(),
    {
        CmsgVecBuf { data: Vec::new(), reserved: 0, requests: Ghost(Seq::empty()) }
    }

    /// A buffer that holds `data` and has no free space.
    pub fn from_vec(data: Vec<u8>) -> (buf: CmsgVecBuf)
        ensures
            buf.wf(),
            buf.contents() == data@,
            buf.spec_capacity() == data@.len(),
            buf.requests() == Seq::<nat>::empty(),
    {
        let reserved = data.len();
        CmsgVecBuf { data, reserved, requests: Ghost(Seq::empty()) }
    }

    /// The valid bytes, as a vector.
    pub fn into_vec(self) -> (data: Vec<u8>)
        requires
            self.wf(),
        ensures
            data@ == self.contents(),
    {
        self.data
    }
}

impl CmsgMut for CmsgVecBuf {
    closed spec fn contents(&self) -> Seq<u8> {
        self.data@
    }

    closed spec fn spec_capacity(&self) -> nat {
        self.reserved as nat
    }

    closed spec fn requests(&self) -> Seq<nat> {
        self.requests@
    }

    closed spec fn wf(&self) -> bool {
        self.data@.len() <= self.reserved
    }

    proof fn lemma_within_capacity(&self) {
    }

    fn len(&self) -> (n: usize) {
        self.data.len()
    }

    fn capacity(&self) -> (n: usize) {
        self.reserved
    }

    fn as_bytes(&self) -> (bytes: &[u8]) {
        self.data.as_slice()
    }

    /// Grows the buffer so that `additional` more bytes fit, or as many as a `usize` can count.
    /// A buffer that has the room already stays as it is, and so does one for which the
    /// allocator refuses the memory.
    fn reserve_up_to_exact(&mut self, additional: usize) -> (reserved: usize)
        ensures
            ({
                let grown = min_nat(
                    (old(self).contents().len() + additional) as nat,
                    usize::MAX as nat,
                );
                let kept = old(self).spec_capacity();
                &&& final(self).spec_capacity() == kept || final(self).spec_capacity() == grown
                &&& grown <= kept ==> final(self).spec_capacity() == kept
            }),
    {
        proof {
            self.requests@ = self.requests@.push(additional as nat);
        }
        let len = self.data.len();
        let free = self.reserved - len;
        if additional <= free {
            return additional;
        }
        let wanted = if additional <= usize::MAX - len {
            additional
        } else {
            usize::MAX - len
        };
        match self.data.try_reserve(wanted) {
            Ok(()) => {
                self.reserved = len + wanted;
                wanted
            },
            Err(_) => free,
        }
    }

    fn fill(&mut self, src: &[u8]) -> (stored: usize) {
        let free = self.reserved - self.data.len();
        let stored = if src.len() <= free {
            src.len()
        } else {
            free
        };
        let part = vstd::slice::slice_subrange(src, 0, stored);
        self.data.extend_from_slice(part);
        stored
    }

    fn truncate(&mut self, len: usize) {
        self.data.truncate(len);
    }

    fn clear(&mut self) {
        self.data.clear();
    }
}

/// An ancillary payload to send: control messages in serialized form.
#[derive(Copy, Clone, Debug)]
pub struct CmsgRef<'a> {
    bytes: &'a [u8],
}

impl<'a> View for CmsgRef<'a> {
    type V = Seq<u8>;

    closed spec fn view(&self) -> Seq<u8> {
        self.bytes@
    }
}

impl<'a> CmsgRef<'a> {
    /// The payload without any control message.
    pub fn empty() -> (payload: CmsgRef<'a>)
        ensures
            payload@ == Seq::<u8>::empty(),
    {
        let bytes: &[u8] = &[];
        CmsgRef { bytes }
    }

    /// The payload made of `bytes`.
    pub fn from_bytes(bytes: &'a [u8]) -> (payload: CmsgRef<'a>)
        ensures
            payload@ == bytes@,
    {
        CmsgRef { bytes }
    }

    /// The bytes of the payload.
    pub fn inner(&self) -> (bytes: &'a [u8])
        ensures
            bytes@ == self@,
    {
        self.bytes
    }

    /// The number of bytes in the payload.
    pub fn len(&self) -> (n: usize)
        ensures
            n == self@.len(),
    {
        self.bytes.len()
    }

    /// Whether the payload holds no control message.
    pub fn is_empty(&self) -> (b: bool)
        ensures
            b == (self@.len() == 0),
    {
        self.bytes.len() == 0
    }

    /// Drops the first `amount` bytes of the payload, which have been dealt with.
    pub fn consume_bytes(&mut self, amount: usize)
        requires
            amount <= old(self)@.len(),
        ensures
            final(self)@ == old(self)@.skip(amount as int),
    {
        self.bytes = vstd::slice::slice_subrange(self.bytes, amount, self.bytes.len());
    }
}

} // verus!

use interprocess::ancillary_io::{
    ReadAncillary, ReadAncillaryExt, ReadAncillarySuccess, WriteAncillary, WriteAncillaryExt,
};
use interprocess::cmsg::{CmsgMut, CmsgMutBuf, CmsgRef};
use interprocess::error::IoError;
use interprocess::traced::Traced;

/// A loop-back connection that hands out what was written to it.
struct Echo {
    held: Vec<u8>,
    control: Vec<u8>,
    writes: usize,
}

impl WriteAncillary for Echo {
    fn write_ancillary(&mut self, buf: &[u8], abuf: CmsgRef<'_>) -> Result<usize, IoError> {
        let n = buf.len().min(3);
        self.held.extend_from_slice(&buf[..n]);
        self.control.extend_from_slice(abuf.inner());
        self.writes += 1;
        Ok(n)
    }
}

impl<AB: CmsgMut + ?Sized> ReadAncillary<AB> for Echo {
    fn read_ancillary(
        &mut self,
        buf: &mut [u8],
        abuf: &mut AB,
    ) -> Result<ReadAncillarySuccess, IoError> {
        let n = buf.len().min(self.held.len());
        buf[..n].copy_from_slice(&self.held[..n]);
        self.held.drain(..n);
        let stored = abuf.fill(&self.control);
        self.control.drain(..stored);
        Ok(ReadAncillarySuccess { main: n, ancillary: stored })
    }
}

#[test]
fn a_traced_connection_transfers_like_the_bare_one() {
    let mut traced = Traced::new(Echo { held: Vec::new(), control: Vec::new(), writes: 0 });
    let control = [4u8, 2];
    traced.write_all_ancillary(b"traced!", CmsgRef::from_bytes(&control)).expect("write");
    assert_eq!(traced.get_ref().held, b"traced!");
    assert_eq!(traced.get_ref().control, control);
    assert_eq!(traced.get_ref().writes, 3);

    let mut received = Vec::new();
    let mut abuf = CmsgMutBuf::with_capacity(8);
    let total = traced.read_to_end_with_ancillary(&mut received, &mut abuf).expect("read");
    assert_eq!(received, b"traced!");
    assert_eq!(total, ReadAncillarySuccess { main: 7, ancillary: 2 });
    assert_eq!(abuf.as_bytes(), &control);

    let echo = traced.into_inner();
    assert!(echo.held.is_empty());
}

#[test]
fn a_traced_connection_passes_vectored_calls_on() {
    let mut traced = Traced::new(Echo { held: b"abcdef".to_vec(), control: Vec::new(), writes: 0 });
    let (mut first, mut second) = ([0u8; 0], [0u8; 4]);
    let mut abuf = CmsgMutBuf::with_capacity(0);
    let r = {
        let mut bufs = [&mut first[..], &mut second[..]];
        traced.read_ancillary_vectored(&mut bufs, &mut abuf)
    };
    assert_eq!(r, Ok(ReadAncillarySuccess { main: 4, ancillary: 0 }));
    assert_eq!(&second, b"abcd");
    let (a, b): (&[u8], &[u8]) = (b"", b"xy");
    assert_eq!(traced.write_ancillary_vectored(&[a, b], CmsgRef::empty()), Ok(2));
    assert_eq!(traced.get_ref().held, b"efxy");
}

use interprocess::ancillary_io::{ReadAncillary, ReadAncillarySuccess, WriteAncillary};
use interprocess::cmsg::{CmsgMut, CmsgMutBuf, CmsgRef};
use interprocess::error::IoError;
use interprocess::vectored::{
    first_nonempty, first_nonempty_mut, read_in_terms_of_vectored, read_vectored_by_first,
    write_in_terms_of_vectored, write_vectored_by_first,
};

/// A reader that hands out the bytes it holds, and a writer that keeps what it is handed.
struct Tape {
    bytes: Vec<u8>,
    control: Vec<u8>,
    offered: Vec<usize>,
}

impl Tape {
    fn holding(bytes: &[u8]) -> Tape {
        Tape { bytes: bytes.to_vec(), control: Vec::new(), offered: Vec::new() }
    }
}

impl<AB: CmsgMut + ?Sized> ReadAncillary<AB> for Tape {
    fn read_ancillary(
        &mut self,
        buf: &mut [u8],
        _abuf: &mut AB,
    ) -> Result<ReadAncillarySuccess, IoError> {
        self.offered.push(buf.len());
        let n = buf.len().min(self.bytes.len());
        buf[..n].copy_from_slice(&self.bytes[..n]);
        self.bytes.drain(..n);
        Ok(ReadAncillarySuccess { main: n, ancillary: 0 })
    }
}

impl WriteAncillary for Tape {
    fn write_ancillary(&mut self, buf: &[u8], abuf: CmsgRef<'_>) -> Result<usize, IoError> {
        self.offered.push(buf.len());
        self.bytes.extend_from_slice(buf);
        self.control.extend_from_slice(abuf.inner());
        Ok(buf.len())
    }
}

/// A reader with a scatter read of its own, which fills the buffers one after the other.
struct Scatter {
    bytes: Vec<u8>,
}

impl<AB: CmsgMut + ?Sized> ReadAncillary<AB> for Scatter {
    fn scatters(&self) -> bool {
        true
    }

    fn read_ancillary(
        &mut self,
        buf: &mut [u8],
        abuf: &mut AB,
    ) -> Result<ReadAncillarySuccess, IoError> {
        read_in_terms_of_vectored(self, buf, abuf)
    }

    fn read_ancillary_vectored(
        &mut self,
        bufs: &mut [&mut [u8]],
        _abuf: &mut AB,
    ) -> Result<ReadAncillarySuccess, IoError> {
        let mut main = 0;
        for buf in bufs.iter_mut() {
            let n = buf.len().min(self.bytes.len());
            buf[..n].copy_from_slice(&self.bytes[..n]);
            self.bytes.drain(..n);
            main += n;
        }
        Ok(ReadAncillarySuccess { main, ancillary: 0 })
    }
}

#[test]
fn the_first_buffer_that_is_not_empty_is_found() {
    let (a, b, c): (&[u8], &[u8], &[u8]) = (b"", b"", b"xyz");
    assert_eq!(first_nonempty(&[a, b, c]), Some(2));
    assert_eq!(first_nonempty(&[c, a]), Some(0));
    assert_eq!(first_nonempty(&[a, b]), None);
    assert_eq!(first_nonempty(&[]), None);

    let (mut p, mut q, mut r) = ([0u8; 0], [0u8; 2], [0u8; 3]);
    assert_eq!(first_nonempty_mut(&[&mut p[..], &mut q[..], &mut r[..]]), Some(1));
    let mut s = [0u8; 0];
    assert_eq!(first_nonempty_mut(&[&mut s[..]]), None);
}

#[test]
fn an_emulated_scatter_read_fills_the_first_buffer_only() {
    let mut reader = Tape::holding(b"abcdefgh");
    let (mut first, mut second, mut third) = ([0u8; 0], [b'.'; 3], [b'.'; 4]);
    let mut abuf = CmsgMutBuf::with_capacity(4);
    let r = {
        let mut bufs = [&mut first[..], &mut second[..], &mut third[..]];
        reader.read_ancillary_vectored(&mut bufs, &mut abuf)
    };
    assert_eq!(r, Ok(ReadAncillarySuccess { main: 3, ancillary: 0 }));
    assert_eq!(&second, b"abc");
    assert_eq!(&third, b"....");
    assert_eq!(reader.offered, vec![3]);

    let r = {
        let mut bufs = [&mut first[..], &mut third[..]];
        read_vectored_by_first(&mut reader, &mut bufs, &mut abuf)
    };
    assert_eq!(r, Ok(ReadAncillarySuccess { main: 4, ancillary: 0 }));
    assert_eq!(&third, b"defg");
}

#[test]
fn an_emulated_scatter_read_into_nothing_reads_nothing() {
    let mut reader = Tape::holding(b"abc");
    let (mut first, mut second) = ([0u8; 0], [0u8; 0]);
    let mut abuf = CmsgMutBuf::with_capacity(4);
    let mut bufs = [&mut first[..], &mut second[..]];
    let r = reader.read_ancillary_vectored(&mut bufs, &mut abuf);
    assert_eq!(r, Ok(ReadAncillarySuccess { main: 0, ancillary: 0 }));
    assert_eq!(reader.offered, vec![0]);
    assert_eq!(reader.bytes, b"abc");
}

#[test]
fn an_emulated_gather_write_sends_the_first_buffer_only() {
    let mut writer = Tape::holding(b"");
    let control = [3u8];
    let (a, b, c): (&[u8], &[u8], &[u8]) = (b"", b"first", b"second");
    let r = writer.write_ancillary_vectored(&[a, b, c], CmsgRef::from_bytes(&control));
    assert_eq!(r, Ok(5));
    assert_eq!(writer.bytes, b"first");
    assert_eq!(writer.control, control);
    let r = write_vectored_by_first(&mut writer, &[a, a], CmsgRef::empty());
    assert_eq!(r, Ok(0));
    assert_eq!(writer.offered, vec![5, 0]);
}

#[test]
fn a_list_of_one_buffer_round_trips() {
    let mut direct = Tape::holding(b"round trip");
    let mut wrapped = Tape::holding(b"round trip");
    let (mut buf_direct, mut buf_wrapped) = ([0u8; 6], [0u8; 6]);
    let mut abuf = CmsgMutBuf::with_capacity(4);
    let r_direct = direct.read_ancillary(&mut buf_direct, &mut abuf);
    let r_wrapped = read_in_terms_of_vectored(&mut wrapped, &mut buf_wrapped, &mut abuf);
    assert_eq!(r_wrapped, r_direct);
    assert_eq!(buf_wrapped, buf_direct);
    assert_eq!(&buf_wrapped, b"round ");
    assert_eq!(wrapped.offered, direct.offered);

    let mut empty_direct = [0u8; 0];
    let mut empty_wrapped = [0u8; 0];
    assert_eq!(
        read_in_terms_of_vectored(&mut wrapped, &mut empty_wrapped, &mut abuf),
        direct.read_ancillary(&mut empty_direct, &mut abuf)
    );

    let mut sink_direct = Tape::holding(b"");
    let mut sink_wrapped = Tape::holding(b"");
    let control = [1u8, 2];
    let w_direct = sink_direct.write_ancillary(b"payload", CmsgRef::from_bytes(&control));
    let w_wrapped =
        write_in_terms_of_vectored(&mut sink_wrapped, b"payload", CmsgRef::from_bytes(&control));
    assert_eq!(w_wrapped, w_direct);
    assert_eq!(sink_wrapped.bytes, sink_direct.bytes);
    assert_eq!(sink_wrapped.control, sink_direct.control);
}

#[test]
fn a_native_scatter_read_serves_the_single_buffer_primitive() {
    let mut reader = Scatter { bytes: b"scattered".to_vec() };
    let mut abuf = CmsgMutBuf::with_capacity(4);
    let (mut first, mut second) = ([0u8; 2], [0u8; 3]);
    let r = {
        let mut bufs = [&mut first[..], &mut second[..]];
        reader.read_ancillary_vectored(&mut bufs, &mut abuf)
    };
    assert_eq!(r, Ok(ReadAncillarySuccess { main: 5, ancillary: 0 }));
    assert_eq!((&first, &second), (b"sc", b"att"));
    let mut buf = [0u8; 3];
    let r = reader.read_ancillary(&mut buf, &mut abuf);
    assert_eq!(r, Ok(ReadAncillarySuccess { main: 3, ancillary: 0 }));
    assert_eq!(&buf, b"ere");
}

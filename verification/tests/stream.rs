use interprocess::stream::{ReuniteError, Shutdown, UdStream};

#[test]
fn halves_of_one_stream_reunite() {
    let stream = UdStream::from_raw_descriptor(7);
    let (read, write) = stream.into_split();
    assert_eq!(read.as_raw_descriptor(), 7);
    assert_eq!(write.as_raw_descriptor(), 7);
    let back = UdStream::reunite(read, write).expect("halves of one stream");
    assert_eq!(back, UdStream::from_raw_descriptor(7));
    assert_eq!(back.as_raw_descriptor(), 7);
}

#[test]
fn halves_of_different_streams_do_not_reunite() {
    let (read_a, write_a) = UdStream::from_raw_descriptor(7).into_split();
    let (read_b, write_b) = UdStream::from_raw_descriptor(8).into_split();
    match UdStream::reunite(read_a, write_b) {
        Ok(_) => panic!("halves of different streams reunited"),
        Err(ReuniteError(read, write)) => {
            assert_eq!(read.as_raw_descriptor(), 7);
            assert_eq!(write.as_raw_descriptor(), 8);
            assert!(UdStream::reunite(read, write_a).is_ok());
            assert!(UdStream::reunite(read_b, write).is_ok());
        }
    }
}

#[test]
fn a_stream_can_be_split_again_after_reuniting() {
    let (read, write) = UdStream::from_raw_descriptor(3).into_split();
    let stream = UdStream::reunite(read, write).expect("halves of one stream");
    let (read, write) = stream.into_split();
    assert_eq!(UdStream::reunite(read, write), Ok(UdStream::from_raw_descriptor(3)));
}

#[test]
fn borrowed_halves_give_the_stream_back() {
    let mut stream = UdStream::from_raw_descriptor(5);
    {
        let (read, write) = stream.split();
        assert_eq!(read.as_raw_descriptor(), 5);
        assert_eq!(write.as_raw_descriptor(), 5);
    }
    assert_eq!(stream, UdStream::from_raw_descriptor(5));
    let (read, write) = stream.split();
    assert_eq!(read.as_raw_descriptor(), write.as_raw_descriptor());
}

#[test]
fn dropping_a_half_closes_its_own_direction() {
    let (read, write) = UdStream::from_raw_descriptor(5).into_split();
    assert_eq!(read.shutdown_on_drop(), Shutdown::Read);
    assert_eq!(write.shutdown_on_drop(), Shutdown::Write);
    assert_ne!(read.shutdown_on_drop(), Shutdown::Both);
}

#[test]
fn the_reunite_error_says_what_went_wrong() {
    let (read, _) = UdStream::from_raw_descriptor(1).into_split();
    let (_, write) = UdStream::from_raw_descriptor(2).into_split();
    let e = UdStream::reunite(read, write).expect_err("halves of different streams");
    assert_eq!(e.message(), "tried to reunite halves of different streams");
}

use interprocess::cmsg::{CmsgMut, CmsgMutBuf, CmsgRef, CmsgVecBuf};

#[test]
fn a_fixed_buffer_takes_what_fits() {
    let mut buf = CmsgMutBuf::with_capacity(4);
    assert_eq!((buf.len(), buf.capacity()), (0, 4));
    assert_eq!(buf.fill(&[1, 2, 3]), 3);
    assert_eq!(buf.fill(&[4, 5, 6]), 1);
    assert_eq!(buf.as_bytes(), &[1, 2, 3, 4]);
    assert_eq!(buf.fill(&[7]), 0);
    assert_eq!((buf.len(), buf.capacity()), (4, 4));
}

#[test]
fn a_fixed_buffer_uses_the_storage_it_is_given() {
    let mut buf = CmsgMutBuf::new(vec![0xAA; 3]);
    assert_eq!((buf.len(), buf.capacity()), (0, 3));
    assert_eq!(buf.as_bytes(), &[] as &[u8]);
    assert_eq!(buf.fill(&[1, 2]), 2);
    assert_eq!(buf.as_bytes(), &[1, 2]);
}

#[test]
fn a_fixed_buffer_gives_its_storage_back() {
    let mut buf = CmsgMutBuf::new(vec![0xAA; 4]);
    buf.fill(&[1, 2]);
    assert_eq!(buf.into_storage(), vec![1, 2, 0xAA, 0xAA]);
}

#[test]
fn a_fixed_buffer_cannot_reserve() {
    let mut buf = CmsgMutBuf::with_capacity(5);
    assert_eq!(buf.reserve_up_to_exact(3), 3);
    assert_eq!(buf.reserve_up_to_exact(9), 5);
    buf.fill(&[1, 2, 3, 4]);
    assert_eq!(buf.reserve_up_to_exact(9), 1);
    buf.fill(&[5]);
    assert_eq!(buf.reserve_up_to_exact(9), 0);
    assert_eq!(buf.capacity(), 5);
    assert_eq!(buf.as_bytes(), &[1, 2, 3, 4, 5]);
}

#[test]
fn a_growable_buffer_grows_only_when_asked() {
    let mut buf = CmsgVecBuf::new();
    assert_eq!((buf.len(), buf.capacity()), (0, 0));
    assert_eq!(buf.fill(&[1, 2, 3]), 0);
    assert_eq!(buf.reserve_up_to_exact(2), 2);
    assert_eq!(buf.capacity(), 2);
    assert_eq!(buf.fill(&[1, 2, 3]), 2);
    assert_eq!(buf.as_bytes(), &[1, 2]);
    assert_eq!(buf.reserve_up_to_exact(4), 4);
    assert_eq!(buf.capacity(), 6);
    assert_eq!(buf.reserve_up_to_exact(1), 1);
    assert_eq!(buf.capacity(), 6);
    assert_eq!(buf.fill(&[3, 4, 5, 6, 7]), 4);
    assert_eq!(buf.into_vec(), vec![1, 2, 3, 4, 5, 6]);
}

#[test]
fn a_growable_buffer_starts_from_a_vector() {
    let mut buf = CmsgVecBuf::from_vec(vec![9, 8]);
    assert_eq!((buf.len(), buf.capacity()), (2, 2));
    assert_eq!(buf.fill(&[7]), 0);
    assert_eq!(buf.reserve_up_to_exact(1), 1);
    assert_eq!(buf.fill(&[7]), 1);
    assert_eq!(buf.as_bytes(), &[9, 8, 7]);
}

#[test]
fn buffers_truncate_and_clear() {
    let mut fixed = CmsgMutBuf::with_capacity(4);
    fixed.fill(&[1, 2, 3]);
    fixed.truncate(5);
    assert_eq!(fixed.as_bytes(), &[1, 2, 3]);
    fixed.truncate(1);
    assert_eq!(fixed.as_bytes(), &[1]);
    assert_eq!(fixed.fill(&[7, 8, 9, 10]), 3);
    assert_eq!(fixed.as_bytes(), &[1, 7, 8, 9]);
    fixed.clear();
    assert_eq!((fixed.len(), fixed.capacity()), (0, 4));

    let mut growable = CmsgVecBuf::from_vec(vec![1, 2, 3]);
    growable.truncate(2);
    assert_eq!(growable.as_bytes(), &[1, 2]);
    assert_eq!(growable.capacity(), 3);
    growable.clear();
    assert_eq!((growable.len(), growable.capacity()), (0, 3));
}

#[test]
fn a_payload_is_consumed_from_the_front() {
    let bytes = [1u8, 2, 3, 4];
    let mut payload = CmsgRef::from_bytes(&bytes);
    assert_eq!((payload.len(), payload.is_empty()), (4, false));
    payload.consume_bytes(1);
    assert_eq!(payload.inner(), &[2, 3, 4]);
    payload.consume_bytes(3);
    assert!(payload.is_empty());
    payload.consume_bytes(0);
    assert_eq!(payload.len(), 0);
    assert!(CmsgRef::empty().is_empty());
}

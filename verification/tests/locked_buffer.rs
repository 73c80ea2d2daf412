use enclave::memory::locked_buffer::{zeroize_all_registered, Registry};
use enclave::error::Error;
use enclave::memory::{zeroize_all, LockedBuffer, SecureBuffer};
use enclave::secret::SecretBytes;

#[test]
fn buffers_have_ids_and_contents() {
    let mut reg = Registry::new();
    let a = LockedBuffer::new(&mut reg, 4).unwrap();
    let b = LockedBuffer::from_bytes(&mut reg, b"hello").unwrap();
    let c = LockedBuffer::random(&mut reg, 32).unwrap();
    assert_eq!((a.id, b.id, c.id), (1, 2, 3));
    assert_eq!(a.bytes_zeroizing(&reg).as_slice(), &[0, 0, 0, 0]);
    assert_eq!(b.bytes_zeroizing(&reg).as_slice(), b"hello");
    assert_ne!(c.bytes_zeroizing(&reg).as_slice(), &[0_u8; 32]);
    assert_eq!(a.size(&reg), 4);
    assert_eq!(c.size(&reg), 32);
    assert_eq!(a.debug_text(), "LockedBuffer { id: 1 }");
}

#[test]
fn freeze_melt_scramble_wipe() {
    let mut reg = Registry::new();
    let other = LockedBuffer::from_bytes(&mut reg, b"other").unwrap();
    let a = LockedBuffer::from_bytes(&mut reg, &[9; 32]).unwrap();
    a.freeze(&mut reg).unwrap();
    assert_eq!(a.bytes_zeroizing(&reg).as_slice(), &[9; 32]);
    a.melt(&mut reg).unwrap();
    a.freeze(&mut reg).unwrap();
    a.scramble(&mut reg).unwrap();
    assert_ne!(a.bytes_zeroizing(&reg).as_slice(), &[9; 32]);
    a.freeze(&mut reg).unwrap();
    a.wipe(&mut reg);
    assert_eq!(a.bytes_zeroizing(&reg).as_slice(), &[0; 32]);
    assert_eq!(other.bytes_zeroizing(&reg).as_slice(), b"other");
}

#[test]
fn shutdown_wipes_everything() {
    let mut reg = Registry::new();
    let a = LockedBuffer::from_bytes(&mut reg, b"one").unwrap();
    let b = LockedBuffer::from_bytes(&mut reg, b"four").unwrap();
    b.freeze(&mut reg).unwrap();
    zeroize_all(&mut reg);
    assert_eq!(a.bytes_zeroizing(&reg).as_slice(), &[0; 3]);
    assert_eq!(b.bytes_zeroizing(&reg).as_slice(), &[0; 4]);
    // A buffer that was filled again is wiped again.
    for wipe_all in [zeroize_all, zeroize_all_registered] {
        let drawn = SecretBytes::new(vec![1, 2, 3]);
        a.scramble_from(&mut reg, Ok(drawn)).unwrap();
        assert_eq!(a.bytes_zeroizing(&reg).as_slice(), &[1, 2, 3]);
        a.freeze(&mut reg).unwrap();
        wipe_all(&mut reg);
        assert_eq!(a.bytes_zeroizing(&reg).as_slice(), &[0; 3]);
    }
}

#[test]
fn drawn_bytes_are_what_the_buffer_holds() {
    let mut reg = Registry::new();
    let failed = || Err("no entropy".to_string());
    let buf = SecureBuffer::new(2).unwrap();
    let a = LockedBuffer::random_from(&mut reg, buf, Ok(SecretBytes::new(vec![7, 8]))).unwrap();
    assert_eq!(a.bytes_zeroizing(&reg).as_slice(), &[7, 8]);
    a.freeze(&mut reg).unwrap();
    assert!(matches!(
        a.scramble_from(&mut reg, failed()),
        Err(Error::Memory(text)) if text == "scramble OsRng: no entropy"
    ));
    assert_eq!(a.bytes_zeroizing(&reg).as_slice(), &[7, 8]);
    let buf = SecureBuffer::new(2).unwrap();
    assert!(LockedBuffer::random_from(&mut reg, buf, failed()).is_err());
    assert_eq!(LockedBuffer::new(&mut reg, 1).unwrap().id, 2);
}

#[test]
fn repeated_wipes_of_registered_buffers() {
    let mut reg = Registry::new();
    let a = LockedBuffer::from_bytes(&mut reg, &[7; 64]).unwrap();
    zeroize_all_registered(&mut reg);
    assert_eq!(a.bytes_zeroizing(&reg).as_slice(), &[0; 64]);
    a.scramble(&mut reg).unwrap();
    zeroize_all_registered(&mut reg);
    assert_eq!(a.bytes_zeroizing(&reg).as_slice(), &[0; 64]);
}

#[test]
fn released_buffers_leave_the_others() {
    let mut reg = Registry::new();
    let a = LockedBuffer::from_bytes(&mut reg, b"a").unwrap();
    let b = LockedBuffer::from_bytes(&mut reg, b"b").unwrap();
    let c = LockedBuffer::from_bytes(&mut reg, b"c").unwrap();
    let (intact, region) = b.release(&mut reg);
    assert!(intact);
    assert!(region.as_slice().iter().all(|&b| b == 0));
    assert_eq!(a.bytes_zeroizing(&reg).as_slice(), b"a");
    assert_eq!(c.bytes_zeroizing(&reg).as_slice(), b"c");
    let d = LockedBuffer::new(&mut reg, 1).unwrap();
    assert_eq!(d.id, 4);
}

#[test]
fn absurd_lengths_are_not_registered() {
    let mut reg = Registry::new();
    assert!(LockedBuffer::new(&mut reg, usize::MAX).is_err());
    assert!(LockedBuffer::random(&mut reg, isize::MAX as usize).is_err());
    assert_eq!(LockedBuffer::new(&mut reg, 0).unwrap().id, 1);
}

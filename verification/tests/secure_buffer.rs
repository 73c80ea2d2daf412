use enclave::error::Error;
use enclave::memory::memcall::{os_alloc, os_free, page_size, MemError, Region};
use enclave::secret::SecretBytes;
use enclave::memory::secure_buffer::{
    canary_from, place_canaries, random_canary, scramble_result, BufferLayout, SecureBuffer,
    CANARY_LEN,
};

#[test]
fn new_buffer_is_zero_and_mutable() {
    let buf = SecureBuffer::new(100).unwrap();
    assert_eq!(buf.size(), 100);
    assert!(buf.is_alive());
    assert!(buf.is_mutable());
    assert!(buf.is_locked());
    assert_eq!(buf.as_slice(), &[0_u8; 100]);
    assert_eq!(buf.inner_range(), (4096, 4096));
}

#[test]
fn layout_is_page_aligned() {
    let layout = BufferLayout::plan(5000, 4096).unwrap();
    assert_eq!(layout.inner_rounded, 8192);
    assert_eq!(layout.alloc_len, 16384);
    assert_eq!(layout.inner_offset, 4096);
    assert_eq!(layout.post_guard_offset, 12288);
    assert_eq!(BufferLayout::plan(0, 4096).unwrap().inner_rounded, 0);
    assert_eq!(BufferLayout::plan(4096, 4096).unwrap().inner_rounded, 4096);
    assert!(BufferLayout::plan(usize::MAX, 4096).is_none());
}

#[test]
fn freeze_and_melt_keep_the_data() {
    let mut buf = SecureBuffer::new(3).unwrap();
    buf.bytes().copy_from_slice(b"abc");
    buf.freeze().unwrap();
    assert!(!buf.is_mutable());
    assert_eq!(buf.as_slice(), b"abc");
    buf.melt().unwrap();
    assert!(buf.is_mutable());
    assert_eq!(buf.as_slice(), b"abc");
}

#[test]
fn failed_protection_is_reported() {
    let mut buf = SecureBuffer::new(3).unwrap();
    let failed = || Err(MemError::Protect("denied".to_string()));
    assert!(matches!(
        buf.freeze_with(failed()),
        Err(Error::Memory(text)) if text == "freeze: protect: denied"
    ));
    assert!(buf.is_mutable());
    buf.freeze().unwrap();
    assert!(matches!(
        buf.melt_with(failed()),
        Err(Error::Memory(text)) if text == "melt: protect: denied"
    ));
    assert!(!buf.is_mutable());
}

#[test]
fn scramble_melts_and_fills() {
    let mut buf = SecureBuffer::new(64).unwrap();
    buf.freeze().unwrap();
    buf.scramble().unwrap();
    assert!(buf.is_mutable());
    assert_ne!(buf.as_slice(), &[0_u8; 64]);
    buf.freeze().unwrap();
    buf.scramble_from(Ok(SecretBytes::new(vec![3; 64]))).unwrap();
    assert!(buf.is_mutable());
    assert_eq!(buf.as_slice(), &[3_u8; 64]);
    assert!(buf.scramble_from(Err("no entropy".to_string())).is_err());
    assert_eq!(buf.as_slice(), &[3_u8; 64]);
    assert!(scramble_result(Ok(())).is_ok());
    assert!(matches!(
        scramble_result(Err("no entropy".to_string())),
        Err(Error::Memory(text)) if text == "scramble OsRng: no entropy"
    ));
}

#[test]
fn destroyed_buffer_is_dead() {
    let mut buf = SecureBuffer::new(8).unwrap();
    buf.fill(b"12345678");
    assert!(buf.destroy());
    assert!(!buf.is_alive());
    assert!(buf.destroy());
    assert!(matches!(
        buf.freeze(),
        Err(Error::Memory(text)) if text == "SecureBuffer::freeze on dead buffer"
    ));
    assert!(matches!(
        buf.melt(),
        Err(Error::Memory(text)) if text == "SecureBuffer::melt on dead buffer"
    ));
    assert!(matches!(
        buf.scramble(),
        Err(Error::Memory(text)) if text == "SecureBuffer::melt on dead buffer"
    ));
    let region = buf.into_region();
    assert!(region.as_slice().iter().all(|&b| b == 0));
    assert_eq!(region.as_slice().len(), 3 * 4096);
}

#[test]
fn zeroize_wipes() {
    let mut buf = SecureBuffer::new(4).unwrap();
    buf.fill(&[1, 2, 3, 4]);
    buf.zeroize();
    assert_eq!(buf.as_slice(), &[0, 0, 0, 0]);
    buf.fill(&[5, 6, 7, 8]);
    let (intact, region) = buf.dispose();
    assert!(intact);
    assert_eq!(region.as_slice().len(), 3 * 4096);
    assert!(region.as_slice().iter().all(|&b| b == 0));
    assert!(os_free(region).is_ok());
}

#[test]
fn canaries() {
    assert_eq!(random_canary(0xab).len(), CANARY_LEN);
    assert_ne!(random_canary(0xab), random_canary(0xab));
    assert_eq!(canary_from(Ok(vec![5; CANARY_LEN]), 0xab), vec![5; CANARY_LEN]);
    assert_eq!(
        canary_from(Err("no entropy".to_string()), 0xcd),
        vec![0xcd; CANARY_LEN]
    );
}

fn mapped() -> Region {
    Region::Mapped(Box::leak(vec![0_u8; 3 * 4096].into_boxed_slice()))
}

fn assemble(
    region: Region,
    locked: Result<(), MemError>,
    pre_guard: Result<(), MemError>,
    post_guard: Result<(), MemError>,
) -> Result<SecureBuffer, Error> {
    let (pre, post) = (vec![1_u8; CANARY_LEN], vec![2_u8; CANARY_LEN]);
    SecureBuffer::assemble(10, 4096, Ok(region), pre, post, locked, pre_guard, post_guard)
}

#[test]
fn mapped_memory_can_back_a_buffer() {
    let mut region = mapped();
    place_canaries(
        &mut region,
        10,
        4096,
        &vec![1; CANARY_LEN],
        &vec![2; CANARY_LEN],
    );
    assert!(region.as_slice()[..4096].iter().all(|&b| b == 1));
    assert!(region.as_slice()[4096..8192].iter().all(|&b| b == 0));
    assert!(region.as_slice()[8192..].iter().all(|&b| b == 2));
    let mut buf = assemble(region, Ok(()), Ok(()), Ok(())).unwrap();
    assert!(buf.is_locked());
    buf.fill(b"0123456789");
    assert_eq!(buf.as_slice(), b"0123456789");
    buf.freeze().unwrap();
    let (intact, region) = buf.dispose();
    assert!(intact);
    assert!(region.as_slice().iter().all(|&b| b == 0));
}

#[test]
fn an_overwritten_guard_page_is_noticed() {
    for at in [0, 4095, 8192, 3 * 4096 - 1] {
        let mut region = mapped();
        place_canaries(
            &mut region,
            10,
            4096,
            &vec![1; CANARY_LEN],
            &vec![2; CANARY_LEN],
        );
        region.as_mut_slice()[at] ^= 0x80;
        let mut buf = assemble(region, Ok(()), Ok(()), Ok(())).unwrap();
        assert!(!buf.destroy());
        assert!(!buf.is_alive());
    }
}

#[test]
fn a_buffer_is_locked_and_guarded_or_not_made() {
    let lock = || Err(MemError::Lock("no quota".to_string()));
    let protect = || Err(MemError::Protect("denied".to_string()));
    assert!(matches!(
        assemble(mapped(), lock(), Ok(()), protect()),
        Err(Error::Memory(text)) if text == "SecureBuffer::new lock: lock: no quota"
    ));
    assert!(matches!(
        assemble(mapped(), Ok(()), protect(), Ok(())),
        Err(Error::Memory(text)) if text == "SecureBuffer::new guard: protect: denied"
    ));
    assert!(matches!(
        assemble(mapped(), Ok(()), Ok(()), protect()),
        Err(Error::Memory(text)) if text == "SecureBuffer::new guard: protect: denied"
    ));
}

#[test]
fn failed_allocation_is_reported() {
    let result = SecureBuffer::assemble(
        1,
        4096,
        Err(MemError::Alloc("out of memory".to_string())),
        vec![0; CANARY_LEN],
        vec![0; CANARY_LEN],
        Ok(()),
        Ok(()),
        Ok(()),
    );
    assert!(matches!(
        result,
        Err(Error::Memory(text)) if text == "SecureBuffer::new alloc: alloc: out of memory"
    ));
    assert!(matches!(
        SecureBuffer::new(isize::MAX as usize),
        Err(Error::Memory(text))
            if text == "SecureBuffer::new alloc: alloc: invalid parameters to Layout::from_size_align"
    ));
}

#[test]
fn memory_errors_have_texts() {
    assert_eq!(MemError::Alloc("x".into()).message(), "alloc: x");
    assert_eq!(MemError::Lock("x".into()).message(), "lock: x");
    assert_eq!(MemError::Unlock("x".into()).message(), "unlock: x");
    assert_eq!(MemError::Protect("x".into()).message(), "protect: x");
    assert_eq!(MemError::Free("x".into()).message(), "free: x");
}

#[test]
fn portable_primitives() {
    assert_eq!(page_size(), 4096);
    let region = os_alloc(7).unwrap();
    assert_eq!(region.as_slice(), &[0_u8; 7]);
    assert!(os_free(region).is_ok());
    assert!(os_alloc(usize::MAX).is_err());
}

#[test]
fn buffer_description() {
    let mut buf = SecureBuffer::new(12).unwrap();
    assert_eq!(buf.debug_text(), "SecureBuffer { inner_len: 12, state: Mutable }");
    buf.freeze().unwrap();
    assert_eq!(buf.debug_text(), "SecureBuffer { inner_len: 12, state: Frozen }");
    buf.destroy();
    assert_eq!(buf.debug_text(), "SecureBuffer { inner_len: 12, state: Dead }");
}

use enclave::error::Error;
use enclave::memory::coffer::Coffer;
use enclave::memory::secure_buffer::SecureBuffer;
use enclave::secret::SecretBytes;

#[test]
fn installed_key_comes_back() {
    let master: Vec<u8> = (0_u8..32).collect();
    let right = [0x5a_u8; 32];
    let left_buf = SecureBuffer::new(32).unwrap();
    let right_buf = SecureBuffer::new(32).unwrap();
    let mut coffer = Coffer::install(&master, &right, left_buf, right_buf).unwrap();
    assert_eq!(coffer.master_key().unwrap().as_slice(), master.as_slice());
    assert_eq!(coffer.master_key().unwrap().as_slice(), master.as_slice());
}

#[test]
fn generated_keys_are_stable_and_differ() {
    let mut a = Coffer::generate().unwrap();
    let mut b = Coffer::generate().unwrap();
    let first = a.master_key().unwrap();
    let again = a.master_key().unwrap();
    assert_eq!(first.as_slice(), again.as_slice());
    assert_eq!(first.len(), 32);
    assert_ne!(first.as_slice(), b.master_key().unwrap().as_slice());
    assert_ne!(first.as_slice(), &[0_u8; 32]);
}

#[test]
fn failed_draws_are_reported() {
    let key = || Ok(SecretBytes::new(vec![1_u8; 32]));
    let failed = || Err("no entropy".to_string());
    assert!(matches!(
        Coffer::from_draws(failed(), key()),
        Err(Error::Memory(text)) if text == "coffer keygen OsRng: no entropy"
    ));
    assert!(matches!(
        Coffer::from_draws(key(), failed()),
        Err(Error::Memory(text)) if text == "coffer right OsRng: no entropy"
    ));
    assert!(Coffer::from_draws(key(), key()).is_ok());
}

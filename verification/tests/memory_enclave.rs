use aes_gcm::aead::Aead;
use aes_gcm::KeyInit;
use enclave::error::Error;
use enclave::memory::coffer::Coffer;
use enclave::memory::memory_enclave::{nonce_prefix, MemoryEnclave, SealContext};
use enclave::memory::secure_buffer::SecureBuffer;
use enclave::secret::SecretBytes;

const NONCE_LEN: usize = 12;
const TAG_LEN: usize = 16;

fn context() -> SealContext {
    SealContext::generate(4242).expect("random bytes")
}

fn fixed_context() -> SealContext {
    let master = SecretBytes::new(vec![7_u8; 32]);
    let right = SecretBytes::new(vec![9_u8; 32]);
    let coffer = Coffer::from_draws(Ok(master), Ok(right)).unwrap();
    SealContext::new(coffer, vec![1, 2, 3, 4])
}

#[test]
fn seal_open_roundtrip() {
    let mut ctx = context();
    let plaintext = b"super secret value";
    let enc = MemoryEnclave::seal(&mut ctx, plaintext).expect("seal failed");
    assert_eq!(enc.plaintext_len(), plaintext.len());
    let buf = enc.open(&mut ctx).expect("open failed");
    assert_eq!(buf.as_slice(), plaintext);
}

#[test]
fn seal_open_empty() {
    let mut ctx = context();
    let enc = MemoryEnclave::seal(&mut ctx, b"").expect("seal empty failed");
    assert_eq!(enc.plaintext_len(), 0);
    let buf = enc.open(&mut ctx).expect("open empty failed");
    assert_eq!(buf.as_slice(), b"");
}

#[test]
fn seal_open_large() {
    let mut ctx = context();
    let plaintext = vec![0xAB_u8; 4096];
    let enc = MemoryEnclave::seal(&mut ctx, &plaintext).expect("seal large failed");
    let buf = enc.open(&mut ctx).expect("open large failed");
    assert_eq!(buf.as_slice(), plaintext.as_slice());
}

#[test]
fn tampered_ciphertext_fails() {
    let mut ctx = context();
    let plaintext = b"tamper test";
    let mut enc = MemoryEnclave::seal(&mut ctx, plaintext).expect("seal failed");
    // Flip a byte in the ciphertext (after the nonce).
    enc.ciphertext[NONCE_LEN] ^= 0xFF;
    let result = enc.open(&mut ctx);
    assert!(matches!(result, Err(Error::DecryptFailed { .. })));
}

#[test]
fn truncated_ciphertext_fails() {
    let mut ctx = context();
    let enc = MemoryEnclave::seal(&mut ctx, b"short").expect("seal failed");
    // Create a version with a too-short ciphertext blob.
    let truncated = MemoryEnclave {
        id: enc.id,
        ciphertext: vec![0_u8; NONCE_LEN + TAG_LEN - 1],
        plaintext_len: 5,
    };
    let result = truncated.open(&mut ctx);
    assert!(matches!(result, Err(Error::Memory(_))));
}

#[test]
fn unique_ids() {
    let mut ctx = context();
    let a = MemoryEnclave::seal(&mut ctx, b"a").expect("seal a");
    let b = MemoryEnclave::seal(&mut ctx, b"b").expect("seal b");
    assert_ne!(a.id(), b.id());
}

#[test]
fn multiple_opens_identical() {
    let mut ctx = context();
    let plaintext = b"open me twice";
    let enc = MemoryEnclave::seal(&mut ctx, plaintext).expect("seal failed");
    let buf1 = enc.open(&mut ctx).expect("open 1");
    let buf2 = enc.open(&mut ctx).expect("open 2");
    assert_eq!(buf1.as_slice(), buf2.as_slice());
}

#[test]
fn seal_buffer_roundtrip() {
    let mut ctx = context();
    let secret = b"buffered secret";
    let mut sbuf = SecureBuffer::new(secret.len()).expect("sbuf alloc");
    sbuf.bytes().copy_from_slice(secret);
    let enc = MemoryEnclave::seal_buffer(&mut ctx, &mut sbuf).expect("seal_buffer");
    // sbuf should be re-frozen after seal_buffer.
    assert!(sbuf.is_alive());
    assert!(!sbuf.is_mutable());
    let out = enc.open(&mut ctx).expect("open after seal_buffer");
    assert_eq!(out.as_slice(), secret);
}

#[test]
fn debug_does_not_leak_plaintext() {
    let mut ctx = context();
    let enc = MemoryEnclave::seal(&mut ctx, b"top secret").expect("seal");
    let debug = enc.debug_text();
    assert!(!debug.contains("top secret"));
    assert!(debug.contains("MemoryEnclave"));
    assert_eq!(debug, "MemoryEnclave { id: 1, plaintext_len: 10 }");
}

#[test]
fn different_plaintexts_different_ciphertexts() {
    let mut ctx = context();
    let a = MemoryEnclave::seal(&mut ctx, b"aaa").expect("seal a");
    let b = MemoryEnclave::seal(&mut ctx, b"bbb").expect("seal b");
    assert_ne!(a.ciphertext, b.ciphertext);
}

#[test]
fn same_plaintext_different_nonces() {
    // Due to counter-based nonces, sealing the same plaintext twice
    // must produce different ciphertexts (different nonces).
    let mut ctx = context();
    let a = MemoryEnclave::seal(&mut ctx, b"same").expect("seal a");
    let b = MemoryEnclave::seal(&mut ctx, b"same").expect("seal b");
    assert_ne!(a.ciphertext, b.ciphertext);
}

#[test]
fn blob_layout_and_counters() {
    let mut ctx = fixed_context();
    let a = MemoryEnclave::seal(&mut ctx, b"one").unwrap();
    let b = MemoryEnclave::seal(&mut ctx, b"two").unwrap();
    assert_eq!(a.ciphertext.len(), 12 + 3 + 16);
    assert_eq!(&a.ciphertext[..12], &[1, 2, 3, 4, 0, 0, 0, 0, 0, 0, 0, 0]);
    assert_eq!(&b.ciphertext[..12], &[1, 2, 3, 4, 1, 0, 0, 0, 0, 0, 0, 0]);
    assert_eq!(a.id(), 1);
    assert_eq!(b.id(), 2);
}

#[test]
fn blob_is_what_the_cipher_makes() {
    let mut ctx = fixed_context();
    assert_eq!(ctx.master_key().unwrap().as_slice(), &[7_u8; 32]);
    let a = MemoryEnclave::seal(&mut ctx, b"cross check").unwrap();
    let cipher = aes_gcm::Aes256Gcm::new_from_slice(&[7_u8; 32]).unwrap();
    let nonce: [u8; 12] = [1, 2, 3, 4, 0, 0, 0, 0, 0, 0, 0, 0];
    let expected = cipher
        .encrypt(&aes_gcm::Nonce::from(nonce), b"cross check".as_slice())
        .unwrap();
    assert_eq!(&a.ciphertext[12..], expected.as_slice());
}

#[test]
fn other_key_does_not_open() {
    let mut ctx = fixed_context();
    let mut other = context();
    let enc = MemoryEnclave::seal(&mut ctx, b"mine").unwrap();
    assert!(matches!(
        enc.open(&mut other),
        Err(Error::DecryptFailed { detail }) if detail == "MemoryEnclave::open: authentication failed"
    ));
}

#[test]
fn sealing_a_dead_buffer_fails() {
    let mut ctx = context();
    let mut buf = SecureBuffer::new(4).unwrap();
    buf.destroy();
    let result = MemoryEnclave::seal_buffer(&mut ctx, &mut buf);
    assert!(matches!(
        result,
        Err(Error::Memory(text)) if text == "SecureBuffer::melt on dead buffer"
    ));
}

#[test]
fn opened_buffer_is_frozen() {
    let mut ctx = context();
    let enc = MemoryEnclave::seal(&mut ctx, b"x").unwrap();
    let buf = enc.open(&mut ctx).unwrap();
    assert!(buf.is_alive());
    assert!(!buf.is_mutable());
}

#[test]
fn nonce_prefix_falls_back_to_the_process() {
    assert_eq!(nonce_prefix(Ok(vec![9, 8, 7, 6]), 0), vec![9, 8, 7, 6]);
    assert_eq!(
        nonce_prefix(Err("no entropy".to_string()), 0x0403_0201),
        vec![1, 2, 3, 4]
    );
}

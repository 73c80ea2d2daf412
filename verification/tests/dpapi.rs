use enclave::dpapi_encrypt::{
    check_format, decrypt, derive_key, encrypt, encrypt_with, SecretKey, MIN_CIPHERTEXT_LEN,
};
use enclave::dpapi_store::{
    load_secret_key, Deletion, DpapiEncryptor, Generation, PublicKeyLookup, StoreCall, StoreReply,
};
use enclave::error::Error;
use enclave::secret::SecretBytes;
use enclave::types::{AccessPolicy, KeyType};
use std::path::PathBuf;

fn from_hex(text: &str) -> Vec<u8> {
    (0..text.len() / 2)
        .map(|i| u8::from_str_radix(&text[2 * i..2 * i + 2], 16).unwrap())
        .collect()
}

fn key(fill: u8) -> SecretKey {
    SecretKey::from_bytes(SecretBytes::new(vec![fill; 32])).unwrap()
}

const PUBLIC: &str = "040217e617f0b6443928278f96999e69a23a4f2c152bdf6d6cdf66e5b80282d4ed194a7debcb97712d2dda3ca85aa8765a56f45fc758599652f2897c65306e5794";
const FRAME: &str = "0104d65a93977caa3d1b081852ff57a79e465f1660577304baead505dd3a48589cf350185e895372df6221ea3a137557e473fddb6755f05bd507c3c533fce9c91285000102030405060708090a0b255ec662c29f697588025cd6330bec76524de678f85927a6d543594d";
const SHARED: &str = "ccfc261f58193c98ca4ad4a53bbac6f0ee29bc4d48438090446908622ca79af6";
const DERIVED: &str = "63db8e02cee48bb19469a4f3f2d80fa435d51118d1b1d8898b0f4122ba0cbfad";

#[test]
fn known_frame() {
    let nonce: Vec<u8> = (0_u8..12).collect();
    let public = from_hex(PUBLIC);
    assert_eq!(key(0x11).public_key(), public);
    let frame = encrypt_with(&public, b"known answer", &key(0x22), &nonce).unwrap();
    assert_eq!(frame, from_hex(FRAME));
    assert_eq!(decrypt(&key(0x11), &frame).unwrap(), b"known answer");
}

#[test]
fn known_derived_key() {
    let frame = from_hex(FRAME);
    let derived = derive_key(&from_hex(SHARED), &frame[1..66]);
    assert_eq!(derived.as_slice(), from_hex(DERIVED).as_slice());
}

#[test]
fn encrypt_decrypt_roundtrip() {
    let secret = SecretKey::random();
    for plaintext in [b"".as_slice(), b"x", &[0x42; 1000]] {
        let a = encrypt(&secret.public_key(), plaintext).unwrap();
        let b = encrypt(&secret.public_key(), plaintext).unwrap();
        assert_eq!(a.len(), MIN_CIPHERTEXT_LEN + plaintext.len());
        assert_ne!(a, b);
        assert_eq!(decrypt(&secret, &a).unwrap(), plaintext);
        assert_eq!(decrypt(&secret, &b).unwrap(), plaintext);
    }
}

fn decrypt_detail(secret: &SecretKey, ciphertext: &[u8]) -> String {
    match decrypt(secret, ciphertext) {
        Err(Error::DecryptFailed { detail }) => detail,
        _ => panic!("expected DecryptFailed"),
    }
}

#[test]
fn every_changed_byte_is_refused() {
    let good = from_hex(FRAME);
    for i in 0..good.len() {
        let mut bad = good.clone();
        bad[i] ^= 1;
        decrypt_detail(&key(0x11), &bad);
    }
}

#[test]
fn frames_carry_uncompressed_points() {
    let frame = encrypt(&key(0x11).public_key(), b"p").unwrap();
    assert_eq!(&frame[..2], &[1, 4]);
}

#[test]
fn bad_ciphertexts() {
    let secret = key(0x11);
    let good = from_hex(FRAME);
    assert_eq!(decrypt_detail(&secret, &good[..93]), "ciphertext too short");
    assert_eq!(decrypt_detail(&secret, b""), "ciphertext too short");
    let mut bad = good.clone();
    bad[0] = 0xfe;
    assert_eq!(decrypt_detail(&secret, &bad), "unsupported version: 0xfe");
    assert!(check_format(&bad).is_err());
    let mut bad = good.clone();
    bad[1] = 7;
    assert_eq!(
        decrypt_detail(&secret, &bad),
        "invalid ephemeral key: elliptic curve point encoding error"
    );
    let mut bad = good.clone();
    bad[40] ^= 1;
    assert_eq!(decrypt_detail(&secret, &bad), "invalid ephemeral key point");
    let mut bad = good.clone();
    bad[80] ^= 1;
    assert_eq!(decrypt_detail(&secret, &bad), "AES-GCM: aead::Error");
    assert_eq!(decrypt_detail(&key(0x12), &good), "AES-GCM: aead::Error");
}

fn encrypt_detail(public: &[u8]) -> String {
    match encrypt(public, b"p") {
        Err(Error::EncryptFailed { detail }) => detail,
        _ => panic!("expected EncryptFailed"),
    }
}

#[test]
fn bad_public_keys() {
    assert_eq!(
        encrypt_detail(b""),
        "invalid public key: elliptic curve point encoding error"
    );
    assert_eq!(
        encrypt_detail(&[4; 64]),
        "invalid public key: elliptic curve point encoding error"
    );
    assert_eq!(encrypt_detail(&[4; 65]), "invalid public key point");
    assert_eq!(encrypt_detail(&[0]), "invalid public key point");
}

#[test]
fn bad_secret_keys() {
    let load = |bytes: Vec<u8>| match SecretKey::from_bytes(SecretBytes::new(bytes)) {
        Err(Error::KeyOperation { operation, detail }) => (operation, detail),
        _ => panic!("expected KeyOperation"),
    };
    assert_eq!(
        load(vec![1; 31]),
        (
            "dpapi_decrypt_key".to_string(),
            "decrypted key has unexpected length 31, expected 32".to_string()
        )
    );
    for scalar in [vec![0; 32], vec![0xff; 32]] {
        assert_eq!(
            load(scalar),
            ("load_secret_key".to_string(), "crypto error".to_string())
        );
    }
    // The group order itself is out, one below it is in.
    let order = from_hex("ffffffff00000000ffffffffffffffffbce6faada7179e84f3b9cac2fc632551");
    let mut below = order.clone();
    below[31] -= 1;
    assert!(SecretKey::from_bytes(SecretBytes::new(order)).is_err());
    assert!(SecretKey::from_bytes(SecretBytes::new(below)).is_ok());
}

#[test]
fn directories_and_file_names() {
    let plain = DpapiEncryptor::new("app");
    let default_dir = PathBuf::from("/default");
    assert_eq!(plain.app_name(), "app");
    assert_eq!(plain.keys_dir(&default_dir), &default_dir);
    assert_eq!(plain.key_path("my-label"), "my-label.key");
    assert!(plain.is_available());
    let other = DpapiEncryptor::with_keys_dir("app", PathBuf::from("/keys"));
    assert_eq!(other.keys_dir(&default_dir), &PathBuf::from("/keys"));
}

fn begin_generation() -> Generation {
    match DpapiEncryptor::new("app").generate("l", Ok(()), KeyType::Encryption, AccessPolicy::Any) {
        Ok(g) => g,
        Err(_) => panic!(),
    }
}

/// Advance through the calls up to the first write.
fn protected_generation() -> Generation {
    let mut g = begin_generation();
    assert_eq!(g.call(), StoreCall::EnsureDir);
    assert!(g.advance(StoreReply::Done).is_none());
    assert_eq!(g.call(), StoreCall::Lock);
    assert!(g.advance(StoreReply::Done).is_none());
    assert_eq!(g.call(), StoreCall::KeyFileExists);
    assert!(g.advance(StoreReply::Found(false)).is_none());
    assert_eq!(g.call(), StoreCall::KeyFilesExist);
    assert!(g.secret().is_none());
    assert!(g.advance(StoreReply::Found(false)).is_none());
    assert_eq!(g.call(), StoreCall::Protect);
    assert_eq!(g.secret().unwrap().len(), 32);
    assert!(g.advance(StoreReply::Bytes(b"protected".to_vec())).is_none());
    assert_eq!(g.call(), StoreCall::WriteKeyFile);
    assert_eq!(g.protected(), b"protected");
    g
}

#[test]
fn generation_with_and_without_metadata_key() {
    for hmac_key in [None, Some(SecretBytes::new(vec![3; 32]))] {
        let with_key = hmac_key.is_some();
        let mut g = protected_generation();
        assert!(g.advance(StoreReply::Done).is_none());
        assert_eq!(g.call(), StoreCall::RestrictKeyFile);
        assert!(g.advance(StoreReply::Done).is_none());
        assert_eq!(g.call(), StoreCall::SavePublicKey);
        assert!(g.advance(StoreReply::Done).is_none());
        assert_eq!(g.call(), StoreCall::LoadHmacKey);
        assert!(g.advance(StoreReply::HmacKey(hmac_key)).is_none());
        if with_key {
            assert_eq!(g.call(), StoreCall::SaveMetaWithHmac);
            assert_eq!(g.hmac_key(), Some([3_u8; 32].as_slice()));
        } else {
            assert_eq!(g.call(), StoreCall::SaveMeta);
            assert!(g.hmac_key().is_none());
        }
        assert_eq!(g.label(), "l");
        assert_eq!(g.key_type(), KeyType::Encryption);
        assert_eq!(g.policy(), AccessPolicy::Any);
        let public = g.advance(StoreReply::Done).unwrap().unwrap();
        assert_eq!(public.as_slice(), g.public_key());
        // What is encrypted for the new key, its secret decrypts.
        let secret =
            SecretKey::from_bytes(SecretBytes::copy_of(g.secret().unwrap())).unwrap();
        assert_eq!(secret.public_key(), public);
        let frame = encrypt(&public, b"to the new key").unwrap();
        assert_eq!(decrypt(&secret, &frame).unwrap(), b"to the new key");
    }
}

#[test]
fn generation_refusals() {
    let backend = DpapiEncryptor::new("app");
    let policy = AccessPolicy::Unrestricted;
    assert!(matches!(
        backend.generate("l", Ok(()), KeyType::Signing, policy),
        Err(Error::KeyOperation { operation, detail })
            if operation == "generate" && detail == "DpapiEncryptor only supports encryption keys"
    ));
    let bad = || Err(Error::InvalidLabel { reason: "empty".to_string() });
    assert!(matches!(
        backend.generate("", bad(), KeyType::Signing, policy),
        Err(Error::InvalidLabel { .. })
    ));
    for second in [false, true] {
        let mut g = begin_generation();
        g.advance(StoreReply::Done);
        g.advance(StoreReply::Done);
        if second {
            assert!(g.advance(StoreReply::Found(false)).is_none());
        }
        assert!(matches!(
            g.advance(StoreReply::Found(true)),
            Some(Err(Error::DuplicateLabel { label })) if label == "l"
        ));
    }
    let mut g = protected_generation();
    assert!(matches!(
        g.advance(StoreReply::Failed(Error::Io("disk full".to_string()))),
        Some(Err(Error::Io(text))) if text == "disk full"
    ));
}

fn begin_deletion() -> Deletion {
    match DpapiEncryptor::new("app").delete_key("l", Ok(())) {
        Ok(d) => d,
        Err(_) => panic!(),
    }
}

#[test]
fn deletion_of_a_whole_key() {
    let mut d = begin_deletion();
    assert_eq!(d.call(), StoreCall::KeyFileExists);
    assert!(d.advance(StoreReply::Found(true)).is_none());
    assert_eq!(d.call(), StoreCall::Lock);
    assert!(d.advance(StoreReply::Done).is_none());
    assert_eq!(d.call(), StoreCall::KeyFileExists);
    assert!(d.advance(StoreReply::Found(true)).is_none());
    assert_eq!(d.call(), StoreCall::RemoveKeyFile);
    assert!(d.advance(StoreReply::Done).is_none());
    assert_eq!(d.call(), StoreCall::DeleteKeyFiles);
    assert!(matches!(
        d.advance(StoreReply::Failed(Error::KeyNotFound { label: "l".into() })),
        Some(Ok(()))
    ));
}

#[test]
fn deletion_without_a_key_file() {
    let mut d = begin_deletion();
    assert!(d.advance(StoreReply::Found(false)).is_none());
    assert_eq!(d.call(), StoreCall::KeyFilesExist);
    assert!(d.advance(StoreReply::Found(true)).is_none());
    assert!(d.advance(StoreReply::Done).is_none());
    assert!(d.advance(StoreReply::Found(false)).is_none());
    assert_eq!(d.call(), StoreCall::DeleteKeyFiles);
    assert!(matches!(
        d.advance(StoreReply::Failed(Error::NotAvailable)),
        Some(Err(Error::NotAvailable))
    ));

    let mut d = begin_deletion();
    assert!(d.advance(StoreReply::Found(false)).is_none());
    assert!(matches!(
        d.advance(StoreReply::Found(false)),
        Some(Err(Error::KeyNotFound { label })) if label == "l"
    ));
}

fn begin_lookup() -> PublicKeyLookup {
    match DpapiEncryptor::new("app").public_key("l", Ok(())) {
        Ok(l) => l,
        Err(_) => panic!(),
    }
}

#[test]
fn public_key_is_saved_or_derived() {
    let mut l = begin_lookup();
    assert_eq!(l.call(), StoreCall::LoadPublicKey);
    assert_eq!(
        l.advance(StoreReply::Bytes(vec![1, 2])).unwrap().unwrap(),
        vec![1, 2]
    );

    let mut l = begin_lookup();
    assert!(l.advance(StoreReply::Failed(Error::NotAvailable)).is_none());
    assert_eq!(l.call(), StoreCall::ReadKeyFile);
    assert!(l.advance(StoreReply::Bytes(b"protected".to_vec())).is_none());
    assert_eq!(l.call(), StoreCall::Unprotect);
    assert_eq!(l.protected(), b"protected");
    assert_eq!(
        l.advance(StoreReply::Bytes(vec![0x11; 32])).unwrap().unwrap(),
        from_hex(PUBLIC)
    );
}

#[test]
fn key_loading_failures() {
    let mut load = load_secret_key("l");
    assert!(matches!(
        load.advance(StoreReply::Missing),
        Some(Err(Error::KeyNotFound { label })) if label == "l"
    ));
    let mut load = load_secret_key("l");
    assert!(load.advance(StoreReply::Bytes(vec![])).is_none());
    assert!(matches!(
        load.advance(StoreReply::Bytes(vec![5; 33])),
        Some(Err(Error::KeyOperation { .. }))
    ));
    let mut load = load_secret_key("l");
    assert!(matches!(
        load.advance(StoreReply::Failed(Error::Io("link".into()))),
        Some(Err(Error::Io(_)))
    ));
}

#[test]
fn encryption_and_decryption_through_the_store() {
    let backend = DpapiEncryptor::new("app");
    let mut e = backend.encrypt("l", Ok(())).unwrap_or_else(|_| panic!());
    assert_eq!(e.call(), StoreCall::LoadPublicKey);
    let frame = e
        .advance(StoreReply::Bytes(from_hex(PUBLIC)), b"stored")
        .unwrap()
        .unwrap();
    let mut d = backend
        .decrypt("l", Ok(()), &frame)
        .unwrap_or_else(|_| panic!());
    assert_eq!(d.call(), StoreCall::ReadKeyFile);
    assert!(d.advance(StoreReply::Bytes(b"p".to_vec()), &frame).is_none());
    assert_eq!(d.protected(), b"p");
    assert_eq!(
        d.advance(StoreReply::Bytes(vec![0x11; 32]), &frame)
            .unwrap()
            .unwrap(),
        b"stored"
    );
    // The format is looked at before any file.
    assert!(matches!(
        backend.decrypt("l", Ok(()), b"short"),
        Err(Error::DecryptFailed { detail }) if detail == "ciphertext too short"
    ));
    assert!(matches!(
        backend.decrypt("", Err(Error::InvalidLabel { reason: "empty".into() }), b"short"),
        Err(Error::InvalidLabel { .. })
    ));
}

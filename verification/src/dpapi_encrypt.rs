//! Software ECIES encryption with keys protected by per-user DPAPI.
//!
//! This is not the normal Windows backend: it serves hosts without a TPM. The
//! private P-256 key is stored on disk, protected by DPAPI. A ciphertext is
//! `[0x01][65-byte ephemeral public key][12-byte nonce][ciphertext][16-byte tag]`.

use crate::crypto::{
    self, aes_gcm_decrypt, aes_gcm_encrypt, p256_check_encoding, p256_check_point,
    p256_check_secret, p256_diffie_hellman, p256_public_key, p256_random_secret, sha256,
    thread_random, KEY_LEN, NONCE_LEN, POINT_LEN,
};
use crate::error::{Error, ErrorView};
use crate::secret::SecretBytes;
use crate::text::{self, bytes_to_hex, concat, decimal};
use vstd::prelude::*;
use vstd::slice::{slice_subrange, slice_to_vec};

verus! {

/// First byte of a ciphertext.
pub const ECIES_VERSION: u8 = 0x01;

/// Length of the shortest ciphertext: version, point, nonce and tag.
pub const MIN_CIPHERTEXT_LEN: usize = 94;

/// A P-256 secret scalar, wiped when dropped.
pub struct SecretKey {
    bytes: SecretBytes,
}

impl View for SecretKey {
    type V = Seq<u8>;

    closed spec fn view(&self) -> Seq<u8> {
        self.bytes@
    }
}

impl SecretKey {
    /// The scalar is in range.
    #[verifier::type_invariant]
    spec fn valid(self) -> bool {
        crypto::p256_secret(self.bytes@)
    }

    /// Some secret key, from the operating system's generator.
    pub fn random() -> (r: SecretKey)
        ensures
            crypto::p256_secret(r@),
    {
        SecretKey { bytes: SecretBytes::new(p256_random_secret()) }
    }

    /// The key that `bytes` hold. They must be a scalar from 1 up to the group
    /// order, in 32 bytes.
    pub fn from_bytes(bytes: SecretBytes) -> (r: Result<SecretKey, Error>)
        ensures
            r is Ok <==> crypto::p256_secret(bytes@),
            r matches Ok(key) ==> key@ == bytes@,
            r matches Err(e) ==> e@ == key_error(bytes@),
    {
        if bytes.len() != KEY_LEN {
            let head = concat("decrypted key has unexpected length ", decimal(bytes.len() as u64).as_str());
            return Err(
                Error::KeyOperation {
                    operation: "dpapi_decrypt_key".to_owned(),
                    detail: concat(head.as_str(), ", expected 32"),
                },
            );
        }
        match p256_check_secret(bytes.as_slice()) {
            Ok(()) => Ok(SecretKey { bytes }),
            Err(e) => Err(
                Error::KeyOperation { operation: "load_secret_key".to_owned(), detail: e },
            ),
        }
    }

    /// The scalar, big-endian.
    pub fn as_slice(&self) -> (r: &[u8])
        ensures
            r@ == self@,
            crypto::p256_secret(self@),
    {
        proof {
            use_type_invariant(self);
        }
        self.bytes.as_slice()
    }

    /// The public key, as an uncompressed SEC1 point.
    pub fn public_key(&self) -> (r: Vec<u8>)
        ensures
            r@ == crypto::p256_public(self@),
            r@.len() == POINT_LEN,
            crypto::sec1_shaped(r@),
            crypto::p256_point(r@),
    {
        p256_public_key(self.as_slice())
    }
}

/// Why `bytes` are not a secret key.
pub open spec fn key_error(bytes: Seq<u8>) -> ErrorView {
    if bytes.len() != KEY_LEN {
        ErrorView::KeyOperation {
            operation: "dpapi_decrypt_key"@,
            detail: "decrypted key has unexpected length "@ + text::decimal_of(bytes.len())
                + ", expected 32"@,
        }
    } else {
        ErrorView::KeyOperation { operation: "load_secret_key"@, detail: "crypto error"@ }
    }
}

/// The AES key for a shared secret and an ephemeral public key.
pub open spec fn derived_key(shared: Seq<u8>, eph_pub: Seq<u8>) -> Seq<u8> {
    crypto::sha256_of(shared + seq![0u8, 0u8, 0u8, 1u8] + eph_pub)
}

/// Derive the AES key from a shared secret and an ephemeral public key.
pub fn derive_key(shared: &[u8], eph_pub: &[u8]) -> (r: SecretBytes)
    ensures
        r@ == derived_key(shared@, eph_pub@),
        r@.len() == KEY_LEN,
{
    let mut input: Vec<u8> = slice_to_vec(shared);
    input.push(0);
    input.push(0);
    input.push(0);
    input.push(1);
    input.extend_from_slice(eph_pub);
    assert(input@ =~= shared@ + seq![0u8, 0u8, 0u8, 1u8] + eph_pub@);
    let input = SecretBytes::new(input);
    SecretBytes::new(sha256(input.as_slice()))
}

/// The ciphertext of `plaintext` for the holder of `public`, made with the
/// ephemeral key `eph` and with `nonce`.
pub open spec fn frame(
    eph: Seq<u8>,
    nonce: Seq<u8>,
    public: Seq<u8>,
    plaintext: Seq<u8>,
) -> Seq<u8> {
    seq![ECIES_VERSION] + crypto::p256_public(eph) + nonce + crypto::aes_gcm_of(
        derived_key(crypto::p256_shared(eph, public), crypto::p256_public(eph)),
        nonce,
        plaintext,
    )
}

/// The parts of a frame have the lengths of the format.
pub open spec fn frame_fits(
    eph: Seq<u8>,
    nonce: Seq<u8>,
    public: Seq<u8>,
    plaintext: Seq<u8>,
) -> bool {
    &&& crypto::p256_secret(eph)
    &&& crypto::p256_public(eph).len() == POINT_LEN
    &&& crypto::sec1_shaped(crypto::p256_public(eph))
    &&& nonce.len() == NONCE_LEN
    &&& plaintext.len() <= crypto::max_plaintext()
    &&& frame(eph, nonce, public, plaintext).len() == MIN_CIPHERTEXT_LEN + plaintext.len()
}

/// Why `plaintext` cannot be encrypted for `public`, if so.
pub open spec fn encrypt_error(public: Seq<u8>, plaintext: Seq<u8>) -> Option<ErrorView> {
    if !crypto::sec1_shaped(public) {
        Some(
            ErrorView::EncryptFailed {
                detail: "invalid public key: "@ + "elliptic curve point encoding error"@,
            },
        )
    } else if !crypto::p256_point(public) {
        Some(ErrorView::EncryptFailed { detail: "invalid public key point"@ })
    } else if plaintext.len() > crypto::max_plaintext() {
        Some(ErrorView::EncryptFailed { detail: "AES-GCM: "@ + "aead::Error"@ })
    } else {
        None
    }
}

/// Encrypt `plaintext` for the holder of `public`, with the given ephemeral key
/// and nonce.
pub fn encrypt_with(public: &[u8], plaintext: &[u8], eph: &SecretKey, nonce: &[u8]) -> (r: Result<
    Vec<u8>,
    Error,
>)
    requires
        nonce@.len() == NONCE_LEN,
    ensures
        match encrypt_error(public@, plaintext@) {
            Some(e) => r is Err && r->Err_0@ == e,
            None => r is Ok && r->Ok_0@ == frame(eph@, nonce@, public@, plaintext@) && frame_fits(
                eph@,
                nonce@,
                public@,
                plaintext@,
            ),
        },
{
    match p256_check_encoding(public) {
        Ok(()) => {},
        Err(e) => {
            return Err(Error::EncryptFailed { detail: concat("invalid public key: ", e.as_str()) });
        },
    }
    if !p256_check_point(public) {
        return Err(Error::EncryptFailed { detail: "invalid public key point".to_owned() });
    }
    let eph_pub: Vec<u8> = eph.public_key();
    let shared = SecretBytes::new(p256_diffie_hellman(eph.as_slice(), public));
    let key = derive_key(shared.as_slice(), eph_pub.as_slice());
    let encrypted = match aes_gcm_encrypt(key.as_slice(), nonce, plaintext) {
        Ok(c) => c,
        Err(e) => {
            return Err(Error::EncryptFailed { detail: concat("AES-GCM: ", e.as_str()) });
        },
    };
    let mut output: Vec<u8> = Vec::new();
    output.push(ECIES_VERSION);
    output.extend_from_slice(eph_pub.as_slice());
    output.extend_from_slice(nonce);
    output.extend_from_slice(encrypted.as_slice());
    assert(output@ =~= frame(eph@, nonce@, public@, plaintext@));
    Ok(output)
}

/// `ciphertext` is an encryption of `plaintext` for the holder of `public`.
pub open spec fn encrypted_for(public: Seq<u8>, plaintext: Seq<u8>, ciphertext: Seq<u8>) -> bool {
    exists|eph: Seq<u8>, nonce: Seq<u8>| #[trigger]
        frame(eph, nonce, public, plaintext) == ciphertext && frame_fits(
            eph,
            nonce,
            public,
            plaintext,
        )
}

/// Encrypt `plaintext` for the holder of `public`, with a fresh ephemeral key
/// and a fresh nonce.
pub fn encrypt(public: &[u8], plaintext: &[u8]) -> (r: Result<Vec<u8>, Error>)
    ensures
        match encrypt_error(public@, plaintext@) {
            Some(e) => r is Err && r->Err_0@ == e,
            None => r is Ok && encrypted_for(public@, plaintext@, r->Ok_0@),
        },
{
    let eph = SecretKey::random();
    let mut nonce: Vec<u8> = vec![0u8; NONCE_LEN];
    thread_random(nonce.as_mut_slice());
    encrypt_with(public, plaintext, &eph, nonce.as_slice())
}

/// Why `ciphertext` does not have the format, if so.
pub open spec fn format_error(ciphertext: Seq<u8>) -> Option<ErrorView> {
    if ciphertext.len() < MIN_CIPHERTEXT_LEN {
        Some(ErrorView::DecryptFailed { detail: "ciphertext too short"@ })
    } else if ciphertext[0] != ECIES_VERSION {
        Some(
            ErrorView::DecryptFailed {
                detail: "unsupported version: 0x"@ + text::hex_of(seq![ciphertext[0]]),
            },
        )
    } else {
        None
    }
}

/// Check the length and the version of `ciphertext`.
pub fn check_format(ciphertext: &[u8]) -> (r: Result<(), Error>)
    ensures
        match format_error(ciphertext@) {
            Some(e) => r is Err && r->Err_0@ == e,
            None => r is Ok,
        },
{
    if ciphertext.len() < MIN_CIPHERTEXT_LEN {
        return Err(Error::DecryptFailed { detail: "ciphertext too short".to_owned() });
    }
    if ciphertext[0] != ECIES_VERSION {
        let version: Vec<u8> = vec![ciphertext[0]];
        assert(version@ =~= seq![ciphertext@[0]]);
        let hex = bytes_to_hex(version.as_slice());
        return Err(
            Error::DecryptFailed { detail: concat("unsupported version: 0x", hex.as_str()) },
        );
    }
    Ok(())
}

/// The ephemeral public key in a ciphertext.
pub open spec fn eph_part(ciphertext: Seq<u8>) -> Seq<u8> {
    ciphertext.subrange(1, 66)
}

/// The nonce in a ciphertext.
pub open spec fn nonce_part(ciphertext: Seq<u8>) -> Seq<u8> {
    ciphertext.subrange(66, 78)
}

/// The AES-GCM output in a ciphertext.
pub open spec fn sealed_part(ciphertext: Seq<u8>) -> Seq<u8> {
    ciphertext.subrange(78, ciphertext.len() as int)
}

/// The result of decrypting `ciphertext` with `secret`.
pub open spec fn decrypt_result(secret: Seq<u8>, ciphertext: Seq<u8>) -> Result<
    Seq<u8>,
    ErrorView,
> {
    let eph = eph_part(ciphertext);
    let key = derived_key(crypto::p256_shared(secret, eph), eph);
    if format_error(ciphertext) is Some {
        Err(format_error(ciphertext)->0)
    } else if !crypto::sec1_shaped(eph) {
        Err(
            ErrorView::DecryptFailed {
                detail: "invalid ephemeral key: "@ + "elliptic curve point encoding error"@,
            },
        )
    } else if !crypto::p256_point(eph) {
        Err(ErrorView::DecryptFailed { detail: "invalid ephemeral key point"@ })
    } else {
        match crypto::aes_gcm_opened(key, nonce_part(ciphertext), sealed_part(ciphertext)) {
            Some(p) => Ok(p),
            None => Err(ErrorView::DecryptFailed { detail: "AES-GCM: "@ + "aead::Error"@ }),
        }
    }
}

/// `r` is what decrypting `ciphertext` with `secret` results in. A ciphertext
/// that was made for the key gives its plaintext back, and a plaintext comes
/// back only where its encryption is in the ciphertext. Where a plaintext comes
/// back, the same ciphertext with another tag or another nonce is refused.
pub open spec fn decrypts(
    secret: Seq<u8>,
    ciphertext: Seq<u8>,
    r: Result<Seq<u8>, ErrorView>,
) -> bool {
    let eph = eph_part(ciphertext);
    let key = derived_key(crypto::p256_shared(secret, eph), eph);
    &&& r == decrypt_result(secret, ciphertext)
    &&& r matches Ok(p) ==> p.len() <= crypto::max_plaintext() ==> sealed_part(ciphertext)
        == crypto::aes_gcm_of(key, nonce_part(ciphertext), p)
    &&& forall|p: Seq<u8>| #[trigger]
        encrypted_for(crypto::p256_public(secret), p, ciphertext) ==> r
            == Ok::<Seq<u8>, ErrorView>(p)
    &&& r is Ok ==> forall|other: Seq<u8>| #[trigger]
        crypto::retagged(ciphertext, other) ==> decrypt_result(secret, other) == Err::<
            Seq<u8>,
            ErrorView,
        >(ErrorView::DecryptFailed { detail: "AES-GCM: "@ + "aead::Error"@ })
    &&& r is Ok ==> forall|other: Seq<u8>| #[trigger]
        renonced(ciphertext, other) ==> decrypt_result(secret, other) == Err::<Seq<u8>, ErrorView>(
            ErrorView::DecryptFailed { detail: "AES-GCM: "@ + "aead::Error"@ },
        )
}

/// `b` is `a` with another nonce and otherwise the same.
pub open spec fn renonced(a: Seq<u8>, b: Seq<u8>) -> bool {
    &&& a.len() == b.len()
    &&& a.len() >= MIN_CIPHERTEXT_LEN
    &&& a.subrange(0, 66) == b.subrange(0, 66)
    &&& sealed_part(a) == sealed_part(b)
    &&& a != b
}

/// A result by its view.
pub open spec fn bytes_result(r: Result<Vec<u8>, Error>) -> Result<Seq<u8>, ErrorView> {
    match r {
        Ok(v) => Ok(v@),
        Err(e) => Err(e@),
    }
}

/// Decrypt `ciphertext` with `secret`.
pub fn decrypt(secret: &SecretKey, ciphertext: &[u8]) -> (r: Result<Vec<u8>, Error>)
    ensures
        decrypts(secret@, ciphertext@, bytes_result(r)),
{
    let ghost public = crypto::p256_public(secret@);
    proof {
        lemma_frame_parts(public, ciphertext@);
    }
    match check_format(ciphertext) {
        Ok(()) => {},
        Err(e) => {
            return Err(e);
        },
    }
    let eph_pub = slice_subrange(ciphertext, 1, 66);
    let nonce = slice_subrange(ciphertext, 66, 78);
    let encrypted = slice_subrange(ciphertext, 78, ciphertext.len());
    match p256_check_encoding(eph_pub) {
        Ok(()) => {},
        Err(e) => {
            return Err(
                Error::DecryptFailed { detail: concat("invalid ephemeral key: ", e.as_str()) },
            );
        },
    }
    if !p256_check_point(eph_pub) {
        return Err(Error::DecryptFailed { detail: "invalid ephemeral key point".to_owned() });
    }
    let shared = SecretBytes::new(p256_diffie_hellman(secret.as_slice(), eph_pub));
    let key = derive_key(shared.as_slice(), eph_pub);
    proof {
        lemma_retagged_parts(ciphertext@);
        lemma_renonced_parts(ciphertext@);
    }
    match aes_gcm_decrypt(key.as_slice(), nonce, encrypted) {
        Ok(p) => Ok(p),
        Err(e) => Err(Error::DecryptFailed { detail: concat("AES-GCM: ", e.as_str()) }),
    }
}

/// The parts of a ciphertext that was made for `public`.
proof fn lemma_frame_parts(public: Seq<u8>, ciphertext: Seq<u8>)
    ensures
        forall|eph: Seq<u8>, nonce: Seq<u8>, p: Seq<u8>| #[trigger]
            frame(eph, nonce, public, p) == ciphertext && frame_fits(eph, nonce, public, p) ==> {
                &&& format_error(ciphertext) is None
                &&& eph_part(ciphertext) == crypto::p256_public(eph)
                &&& nonce_part(ciphertext) == nonce
                &&& sealed_part(ciphertext) == crypto::aes_gcm_of(
                    derived_key(crypto::p256_shared(eph, public), crypto::p256_public(eph)),
                    nonce,
                    p,
                )
            },
{
    assert forall|eph: Seq<u8>, nonce: Seq<u8>, p: Seq<u8>| #[trigger]
        frame(eph, nonce, public, p) == ciphertext && frame_fits(eph, nonce, public, p) implies {
        &&& format_error(ciphertext) is None
        &&& eph_part(ciphertext) == crypto::p256_public(eph)
        &&& nonce_part(ciphertext) == nonce
        &&& sealed_part(ciphertext) == crypto::aes_gcm_of(
            derived_key(crypto::p256_shared(eph, public), crypto::p256_public(eph)),
            nonce,
            p,
        )
    } by {
        let sealed = crypto::aes_gcm_of(
            derived_key(crypto::p256_shared(eph, public), crypto::p256_public(eph)),
            nonce,
            p,
        );
        assert(eph_part(ciphertext) =~= crypto::p256_public(eph));
        assert(nonce_part(ciphertext) =~= nonce);
        assert(sealed_part(ciphertext) =~= sealed);
    }
}

/// A ciphertext with another tag has the same parts but for the tag.
proof fn lemma_retagged_parts(ciphertext: Seq<u8>)
    requires
        format_error(ciphertext) is None,
    ensures
        forall|other: Seq<u8>| #[trigger]
            crypto::retagged(ciphertext, other) ==> {
                &&& format_error(other) is None
                &&& eph_part(other) == eph_part(ciphertext)
                &&& nonce_part(other) == nonce_part(ciphertext)
                &&& crypto::retagged(sealed_part(ciphertext), sealed_part(other))
            },
{
    assert forall|other: Seq<u8>| #[trigger] crypto::retagged(ciphertext, other) implies {
        &&& format_error(other) is None
        &&& eph_part(other) == eph_part(ciphertext)
        &&& nonce_part(other) == nonce_part(ciphertext)
        &&& crypto::retagged(sealed_part(ciphertext), sealed_part(other))
    } by {
        let n = ciphertext.len() - 16;
        let head = ciphertext.subrange(0, n);
        assert(head == other.subrange(0, n));
        assert forall|i: int| 0 <= i < n implies ciphertext[i] == other[i] by {
            assert(head[i] == other.subrange(0, n)[i]);
        }
        assert(eph_part(other) =~= eph_part(ciphertext));
        assert(nonce_part(other) =~= nonce_part(ciphertext));
        let a = sealed_part(ciphertext);
        let b = sealed_part(other);
        assert(a.subrange(0, a.len() - 16) =~= b.subrange(0, b.len() - 16));
        if a == b {
            assert forall|i: int| 0 <= i < ciphertext.len() implies ciphertext[i] == other[i] by {
                if i >= 78 {
                    assert(a[i - 78] == b[i - 78]);
                }
            }
            assert(ciphertext =~= other);
        }
    }
}

/// A ciphertext with another nonce has the same parts but for the nonce.
proof fn lemma_renonced_parts(ciphertext: Seq<u8>)
    requires
        format_error(ciphertext) is None,
    ensures
        forall|other: Seq<u8>| #[trigger]
            renonced(ciphertext, other) ==> {
                &&& format_error(other) is None
                &&& eph_part(other) == eph_part(ciphertext)
                &&& nonce_part(other) != nonce_part(ciphertext)
                &&& nonce_part(other).len() == NONCE_LEN
                &&& sealed_part(other) == sealed_part(ciphertext)
            },
{
    assert forall|other: Seq<u8>| #[trigger] renonced(ciphertext, other) implies {
        &&& format_error(other) is None
        &&& eph_part(other) == eph_part(ciphertext)
        &&& nonce_part(other) != nonce_part(ciphertext)
        &&& nonce_part(other).len() == NONCE_LEN
        &&& sealed_part(other) == sealed_part(ciphertext)
    } by {
        let head = ciphertext.subrange(0, 66);
        assert forall|i: int| 0 <= i < 66 implies ciphertext[i] == other[i] by {
            assert(head[i] == other.subrange(0, 66)[i]);
        }
        assert(eph_part(other) =~= eph_part(ciphertext));
        if nonce_part(other) == nonce_part(ciphertext) {
            assert forall|i: int| 0 <= i < ciphertext.len() implies ciphertext[i] == other[i] by {
                if 66 <= i < 78 {
                    assert(nonce_part(other)[i - 66] == nonce_part(ciphertext)[i - 66]);
                } else if i >= 78 {
                    assert(sealed_part(other)[i - 78] == sealed_part(ciphertext)[i - 78]);
                }
            }
            assert(ciphertext =~= other);
        }
    }
}

/// Every failure to decrypt with a key is reported as such.
pub proof fn law_failures_are_decrypt_failures(secret: Seq<u8>, ciphertext: Seq<u8>)
    ensures
        decrypt_result(secret, ciphertext) matches Err(e) ==> e is DecryptFailed,
{
}

/// A ciphertext that was changed after it was made is refused where the change is
/// in the version, in the nonce alone, in the tag alone or in the length below the
/// shortest; where it is in the encrypted bytes and not in the ephemeral key or
/// the nonce, it never gives the plaintext again.
pub proof fn law_changed_ciphertext(
    secret: Seq<u8>,
    plaintext: Seq<u8>,
    ciphertext: Seq<u8>,
    r: Result<Seq<u8>, ErrorView>,
    changed: Seq<u8>,
    after: Result<Seq<u8>, ErrorView>,
)
    requires
        encrypted_for(crypto::p256_public(secret), plaintext, ciphertext),
        decrypts(secret, ciphertext, r),
        decrypts(secret, changed, after),
        changed != ciphertext,
    ensures
        format_error(changed) is Some ==> after is Err && after->Err_0 is DecryptFailed,
        crypto::retagged(ciphertext, changed) ==> after is Err && after->Err_0 is DecryptFailed,
        renonced(ciphertext, changed) ==> after is Err && after->Err_0 is DecryptFailed,
        eph_part(changed) == eph_part(ciphertext) && nonce_part(changed) == nonce_part(ciphertext)
            ==> after != Ok::<Seq<u8>, ErrorView>(plaintext),
{
    lemma_frame_parts(crypto::p256_public(secret), ciphertext);
    let (eph, nonce) = choose|eph: Seq<u8>, nonce: Seq<u8>| #[trigger]
        frame(eph, nonce, crypto::p256_public(secret), plaintext) == ciphertext && frame_fits(
            eph,
            nonce,
            crypto::p256_public(secret),
            plaintext,
        );
    assert(plaintext.len() <= crypto::max_plaintext());
    if eph_part(changed) == eph_part(ciphertext) && nonce_part(changed) == nonce_part(ciphertext)
        && after == Ok::<Seq<u8>, ErrorView>(plaintext) {
        assert(sealed_part(changed) == sealed_part(ciphertext));
        assert(changed.len() == ciphertext.len());
        assert forall|i: int| 0 <= i < changed.len() implies changed[i] == ciphertext[i] by {
            if 1 <= i < 66 {
                assert(eph_part(changed)[i - 1] == eph_part(ciphertext)[i - 1]);
            } else if 66 <= i < 78 {
                assert(nonce_part(changed)[i - 66] == nonce_part(ciphertext)[i - 66]);
            } else if i >= 78 {
                assert(sealed_part(changed)[i - 78] == sealed_part(ciphertext)[i - 78]);
            }
        }
        assert(changed =~= ciphertext);
    }
}

/// Decrypting gives back what was encrypted: whatever ephemeral key and nonce
/// were drawn, the holder of the secret key gets the plaintext.
pub proof fn law_decrypt_undoes_encrypt(
    secret: Seq<u8>,
    plaintext: Seq<u8>,
    ciphertext: Seq<u8>,
    r: Result<Seq<u8>, ErrorView>,
)
    requires
        encrypted_for(crypto::p256_public(secret), plaintext, ciphertext),
        decrypts(secret, ciphertext, r),
    ensures
        r == Ok::<Seq<u8>, ErrorView>(plaintext),
{
}

/// The AES key is the SHA-256 digest of the shared secret, the four bytes of the
/// counter 1, and the ephemeral public key, one behind the other.
pub proof fn law_derived_key(shared: Seq<u8>, eph_pub: Seq<u8>)
    ensures
        derived_key(shared, eph_pub) == crypto::sha256_of(
            shared + (seq![0u8, 0u8, 0u8, 1u8] + eph_pub),
        ),
{
    assert(shared + seq![0u8, 0u8, 0u8, 1u8] + eph_pub =~= shared + (seq![0u8, 0u8, 0u8, 1u8]
        + eph_pub));
}

/// A ciphertext, byte by byte: the version 1; the ephemeral public key, which begins
/// with 4; the nonce; and the AES-256-GCM encryption of all of the plaintext under the
/// digest of the shared secret, the counter 1 and the ephemeral public key.
pub proof fn law_wire_format(eph: Seq<u8>, nonce: Seq<u8>, public: Seq<u8>, plaintext: Seq<u8>)
    requires
        frame_fits(eph, nonce, public, plaintext),
    ensures
        ({
            let wire = frame(eph, nonce, public, plaintext);
            let eph_pub = crypto::p256_public(eph);
            let key = crypto::sha256_of(
                crypto::p256_shared(eph, public) + (seq![0u8, 0u8, 0u8, 1u8] + eph_pub),
            );
            &&& crypto::p256_secret(eph)
            &&& nonce.len() == 12
            &&& wire.len() == 94 + plaintext.len()
            &&& wire[0] == 1
            &&& wire[1] == 4
            &&& wire.subrange(1, 66) == eph_pub
            &&& wire.subrange(66, 78) == nonce
            &&& wire.subrange(78, wire.len() as int) == crypto::aes_gcm_of(key, nonce, plaintext)
        }),
{
    let wire = frame(eph, nonce, public, plaintext);
    let eph_pub = crypto::p256_public(eph);
    law_derived_key(crypto::p256_shared(eph, public), eph_pub);
    lemma_frame_parts(public, wire);
    assert(wire.subrange(1, 66)[0] == wire[1]);
}

/// When encryption fails: never but for a public key that is not one, or a plaintext
/// longer than the cipher takes. The empty plaintext is not an exception.
pub proof fn law_encryption_failures(public: Seq<u8>, plaintext: Seq<u8>)
    ensures
        encrypt_error(public, plaintext) is None <==> crypto::sec1_shaped(public)
            && crypto::p256_point(public) && plaintext.len() <= 0x10_0000_0000,
        !crypto::sec1_shaped(public) ==> encrypt_error(public, plaintext) == Some(
            ErrorView::EncryptFailed {
                detail: "invalid public key: "@ + "elliptic curve point encoding error"@,
            },
        ),
        crypto::sec1_shaped(public) && !crypto::p256_point(public) ==> encrypt_error(
            public,
            plaintext,
        ) == Some(ErrorView::EncryptFailed { detail: "invalid public key point"@ }),
{
}

/// When a ciphertext does not have the format: where it is shorter than version,
/// point, nonce and tag together, or its version is not 1.
pub proof fn law_format_failures(ciphertext: Seq<u8>)
    ensures
        format_error(ciphertext) is None <==> ciphertext.len() >= 94 && ciphertext[0] == 1,
        ciphertext.len() < 94 ==> format_error(ciphertext) == Some(
            ErrorView::DecryptFailed { detail: "ciphertext too short"@ },
        ),
        ciphertext.len() >= 94 && ciphertext[0] != 1 ==> format_error(ciphertext) == Some(
            ErrorView::DecryptFailed {
                detail: "unsupported version: 0x"@ + text::hex_of(seq![ciphertext[0]]),
            },
        ),
{
}

/// Decryption, for every key and every ciphertext of the format: it fails where the
/// ephemeral key is not one; else it is what AES-256-GCM makes of the part behind the
/// nonce, under the digest of the shared secret, the counter 1 and the ephemeral key.
pub proof fn law_decryption_goes_by_the_cipher(secret: Seq<u8>, ciphertext: Seq<u8>)
    requires
        ciphertext.len() >= 94,
        ciphertext[0] == 1,
    ensures
        ({
            let eph = ciphertext.subrange(1, 66);
            let key = crypto::sha256_of(
                crypto::p256_shared(secret, eph) + (seq![0u8, 0u8, 0u8, 1u8] + eph),
            );
            let opened = crypto::aes_gcm_opened(
                key,
                ciphertext.subrange(66, 78),
                ciphertext.subrange(78, ciphertext.len() as int),
            );
            &&& crypto::sec1_shaped(eph) && crypto::p256_point(eph) && opened is Some
                ==> decrypt_result(secret, ciphertext) == Ok::<Seq<u8>, ErrorView>(opened->0)
            &&& crypto::sec1_shaped(eph) && crypto::p256_point(eph) && opened is None
                ==> decrypt_result(secret, ciphertext) == Err::<Seq<u8>, ErrorView>(
                ErrorView::DecryptFailed { detail: "AES-GCM: "@ + "aead::Error"@ },
            )
            &&& !crypto::sec1_shaped(eph) ==> decrypt_result(secret, ciphertext) == Err::<
                Seq<u8>,
                ErrorView,
            >(
                ErrorView::DecryptFailed {
                    detail: "invalid ephemeral key: "@ + "elliptic curve point encoding error"@,
                },
            )
            &&& crypto::sec1_shaped(eph) && !crypto::p256_point(eph) ==> decrypt_result(
                secret,
                ciphertext,
            ) == Err::<Seq<u8>, ErrorView>(
                ErrorView::DecryptFailed { detail: "invalid ephemeral key point"@ },
            )
        }),
{
    let eph = ciphertext.subrange(1, 66);
    law_derived_key(crypto::p256_shared(secret, eph), eph);
}

/// Why bytes are not a secret key: their number, or else their value.
pub proof fn law_key_failures(bytes: Seq<u8>)
    ensures
        bytes.len() != 32 ==> key_error(bytes) == (ErrorView::KeyOperation {
            operation: "dpapi_decrypt_key"@,
            detail: "decrypted key has unexpected length "@ + text::decimal_of(bytes.len())
                + ", expected 32"@,
        }),
        bytes.len() == 32 ==> key_error(bytes) == (ErrorView::KeyOperation {
            operation: "load_secret_key"@,
            detail: "crypto error"@,
        }),
{
}

/// The view of a result keeps what it is a view of.
pub proof fn law_results_are_shown_as_they_are(r: Result<Vec<u8>, Error>)
    ensures
        r matches Ok(v) ==> bytes_result(r) == Ok::<Seq<u8>, ErrorView>(v@),
        r matches Err(e) ==> bytes_result(r) == Err::<Seq<u8>, ErrorView>(e@),
{
}

/// What counts as an encryption has the format: 94 bytes more than the plaintext, the
/// version 1, and an uncompressed point behind it.
pub proof fn law_encryptions(public: Seq<u8>, plaintext: Seq<u8>, ciphertext: Seq<u8>)
    requires
        encrypted_for(public, plaintext, ciphertext),
    ensures
        ciphertext.len() == 94 + plaintext.len(),
        ciphertext[0] == 1,
        ciphertext[1] == 4,
        plaintext.len() <= 0x10_0000_0000,
        exists|eph: Seq<u8>|
            #![trigger crypto::p256_public(eph)]
            crypto::p256_secret(eph) && ciphertext.subrange(1, 66) == crypto::p256_public(eph)
                && ciphertext.subrange(78, ciphertext.len() as int) == crypto::aes_gcm_of(
                crypto::sha256_of(
                    crypto::p256_shared(eph, public) + (seq![0u8, 0u8, 0u8, 1u8]
                        + crypto::p256_public(eph)),
                ),
                ciphertext.subrange(66, 78),
                plaintext,
            ),
{
    let (eph, nonce) = choose|eph: Seq<u8>, nonce: Seq<u8>| #[trigger]
        frame(eph, nonce, public, plaintext) == ciphertext && frame_fits(
            eph,
            nonce,
            public,
            plaintext,
        );
    law_wire_format(eph, nonce, public, plaintext);
    assert(ciphertext.subrange(1, 66) == crypto::p256_public(eph));
}

/// Two ciphertexts differ in the nonce alone exactly where they agree in front of it and
/// behind it and do not agree in it.
pub proof fn law_renonced(head: Seq<u8>, nonce: Seq<u8>, other: Seq<u8>, sealed: Seq<u8>)
    requires
        head.len() == 66,
        nonce.len() == 12,
        other.len() == 12,
        sealed.len() >= 16,
    ensures
        renonced(head + nonce + sealed, head + other + sealed) <==> nonce != other,
{
    let a = head + nonce + sealed;
    let b = head + other + sealed;
    assert(a.subrange(0, 66) =~= head);
    assert(b.subrange(0, 66) =~= head);
    assert(sealed_part(a) =~= sealed);
    assert(sealed_part(b) =~= sealed);
    assert(a.subrange(66, 78) =~= nonce);
    assert(b.subrange(66, 78) =~= other);
}

}

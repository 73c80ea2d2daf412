//! Calls into the cryptographic crates, each with the contract that the rest
//! of the library relies on.

use aes_gcm::aead::Aead;
use aes_gcm::KeyInit;
use elliptic_curve::sec1::{FromEncodedPoint, ToEncodedPoint};
use hmac::Mac;
use rand::{RngCore, TryRngCore};
use sha2::Digest;
use vstd::prelude::*;

verus! {

/// Length of an AES-256 key, a SHA-256 digest and a P-256 secret scalar.
pub const KEY_LEN: usize = 32;

/// Length of an AES-GCM nonce.
pub const NONCE_LEN: usize = 12;

/// Length of an AES-GCM tag.
pub const TAG_LEN: usize = 16;

/// Length of an uncompressed SEC1 point on P-256.
pub const POINT_LEN: usize = 65;

/// The longest plaintext that AES-GCM encrypts.
pub open spec fn max_plaintext() -> int {
    0x10_0000_0000
}

/// `rand::rngs::OsRng::try_fill_bytes` fills the slice from the operating
/// system's generator. Nothing is said of the bytes. On failure the text of the
/// error comes back, and the slice may hold anything of its length.
#[verifier::external_body]
pub(crate) fn os_random(dest: &mut [u8]) -> (r: Result<(), String>)
    ensures
        final(dest)@.len() == old(dest)@.len(),
{
    rand::rngs::OsRng.try_fill_bytes(dest).map_err(|e| e.to_string())
}

/// `rand::rng().fill_bytes` fills the slice from the thread's generator.
/// Nothing is said of the bytes. It panics where the operating system has no
/// random bytes to seed that generator with.
#[verifier::external_body]
pub(crate) fn thread_random(dest: &mut [u8])
    ensures
        final(dest)@.len() == old(dest)@.len(),
{
    rand::rng().fill_bytes(dest)
}

/// The SHA-256 digest of `data`.
pub uninterp spec fn sha256_of(data: Seq<u8>) -> Seq<u8>;

/// `sha2::Sha256::digest`: 32 bytes that depend on the input alone.
#[verifier::external_body]
pub(crate) fn sha256(data: &[u8]) -> (r: Vec<u8>)
    ensures
        r@ == sha256_of(data@),
        r@.len() == 32,
{
    sha2::Sha256::digest(data).to_vec()
}

/// The HMAC-SHA256 tag of `data` under `key`.
pub uninterp spec fn hmac_sha256_of(key: Seq<u8>, data: Seq<u8>) -> Seq<u8>;

/// `hmac::Hmac::<sha2::Sha256>`, keyed, fed once and finalized: 32 bytes that
/// depend on the key and the data alone. A key of any length is taken.
#[verifier::external_body]
pub(crate) fn hmac_sha256(key: &[u8], data: &[u8]) -> (r: Vec<u8>)
    ensures
        r@ == hmac_sha256_of(key@, data@),
        r@.len() == 32,
{
    let mut mac = <hmac::Hmac<sha2::Sha256> as Mac>::new_from_slice(key).expect("any length");
    mac.update(data);
    mac.finalize().into_bytes().to_vec()
}

/// The AES-256-GCM encryption of `plaintext`, without associated data: the
/// ciphertext and behind it the tag.
pub uninterp spec fn aes_gcm_of(key: Seq<u8>, nonce: Seq<u8>, plaintext: Seq<u8>) -> Seq<u8>;

/// `Aes256Gcm::encrypt`: it succeeds unless the plaintext is longer than the
/// mode allows, and the output is 16 bytes longer than the plaintext. The only
/// error it has is displayed as `aead::Error`.
#[verifier::external_body]
pub(crate) fn aes_gcm_encrypt(key: &[u8], nonce: &[u8], plaintext: &[u8]) -> (r: Result<
    Vec<u8>,
    String,
>)
    requires
        key@.len() == 32,
        nonce@.len() == 12,
    ensures
        r is Ok <==> plaintext@.len() <= max_plaintext(),
        r matches Ok(c) ==> c@ == aes_gcm_of(key@, nonce@, plaintext@) && c@.len()
            == plaintext@.len() + 16,
        r matches Err(e) ==> e@ == "aead::Error"@,
{
    let cipher = aes_gcm::Aes256Gcm::new_from_slice(key).expect("32 bytes");
    let nonce: [u8; 12] = nonce.try_into().expect("12 bytes");
    cipher.encrypt(&aes_gcm::Nonce::from(nonce), plaintext).map_err(|e| e.to_string())
}

/// `b` is `a` with another tag, the last 16 bytes, and otherwise the same.
pub open spec fn retagged(a: Seq<u8>, b: Seq<u8>) -> bool {
    &&& a.len() == b.len()
    &&& a.len() >= 16
    &&& a.subrange(0, a.len() - 16) == b.subrange(0, b.len() - 16)
    &&& a != b
}

/// What AES-256-GCM decryption makes of `ciphertext`: a plaintext, or nothing
/// where the tag does not match.
pub uninterp spec fn aes_gcm_opened(
    key: Seq<u8>,
    nonce: Seq<u8>,
    ciphertext: Seq<u8>,
) -> Option<Seq<u8>>;

/// `Aes256Gcm::decrypt` checks the tag and undoes the encryption. Its result
/// depends on its arguments alone; what it returns, if it can be encrypted, is a
/// plaintext whose encryption is the input, and it returns that plaintext for
/// every input which is an encryption. The tag is recomputed and compared as a
/// whole, so of all the tags behind one and the same ciphertext only one is
/// accepted. The nonce enters that tag through the encryption of one block alone,
/// added to a hash of the ciphertext, so under another nonce another tag is asked
/// for. The only error it has is displayed as `aead::Error`.
#[verifier::external_body]
pub(crate) fn aes_gcm_decrypt(key: &[u8], nonce: &[u8], ciphertext: &[u8]) -> (r: Result<
    Vec<u8>,
    String,
>)
    requires
        key@.len() == 32,
        nonce@.len() == 12,
    ensures
        r is Ok <==> aes_gcm_opened(key@, nonce@, ciphertext@) is Some,
        r matches Ok(p) ==> aes_gcm_opened(key@, nonce@, ciphertext@) == Some(p@),
        r matches Ok(p) ==> ciphertext@.len() == p@.len() + 16 && (p@.len() <= max_plaintext()
            ==> ciphertext@ == aes_gcm_of(key@, nonce@, p@)),
        forall|p: Seq<u8>|
            p.len() <= max_plaintext() && ciphertext@ == #[trigger] aes_gcm_of(key@, nonce@, p)
                ==> r is Ok && r->Ok_0@ == p,
        r is Ok ==> forall|other: Seq<u8>| #[trigger]
            retagged(ciphertext@, other) ==> aes_gcm_opened(key@, nonce@, other) is None,
        r is Ok ==> forall|other: Seq<u8>|
            other.len() == 12 && other != nonce@ ==> #[trigger] aes_gcm_opened(
                key@,
                other,
                ciphertext@,
            ) is None,
        r matches Err(e) ==> e@ == "aead::Error"@,
{
    let cipher = aes_gcm::Aes256Gcm::new_from_slice(key).expect("32 bytes");
    let nonce: [u8; 12] = nonce.try_into().expect("12 bytes");
    cipher.decrypt(&aes_gcm::Nonce::from(nonce), ciphertext).map_err(|e| e.to_string())
}

/// The integer that `bytes` writes in base 256, most significant byte first.
pub open spec fn big_endian(bytes: Seq<u8>) -> int
    decreases bytes.len(),
{
    if bytes.len() == 0 {
        0
    } else {
        big_endian(bytes.drop_last()) * 256 + bytes.last()
    }
}

/// The order of the P-256 group.
pub open spec fn p256_order() -> int {
    0xffffffff00000000ffffffffffffffffbce6faada7179e84f3b9cac2fc632551int
}

/// `bytes` is a P-256 secret scalar: 32 bytes, not zero, below the group order.
pub open spec fn p256_secret(bytes: Seq<u8>) -> bool {
    bytes.len() == 32 && 0 < big_endian(bytes) < p256_order()
}

/// `p256::SecretKey::from_slice`, on 32 bytes, accepts exactly the scalars from
/// 1 up to the group order. Its error is displayed as `crypto error`.
#[verifier::external_body]
pub(crate) fn p256_check_secret(bytes: &[u8]) -> (r: Result<(), String>)
    requires
        bytes@.len() == 32,
    ensures
        r is Ok <==> p256_secret(bytes@),
        r matches Err(e) ==> e@ == "crypto error"@,
{
    p256::SecretKey::from_slice(bytes).map(|_k| ()).map_err(|e| e.to_string())
}

/// `p256::SecretKey::random` over the operating system's generator gives some
/// secret scalar. It panics where the operating system has no random bytes.
#[verifier::external_body]
pub(crate) fn p256_random_secret() -> (r: Vec<u8>)
    ensures
        p256_secret(r@),
{
    p256::SecretKey::random(&mut elliptic_curve::rand_core::OsRng).to_bytes().to_vec()
}

/// The public key of a P-256 secret scalar, as an uncompressed SEC1 point.
pub uninterp spec fn p256_public(secret: Seq<u8>) -> Seq<u8>;

/// `p256::SecretKey::public_key`, encoded without compression: 65 bytes that
/// begin with 4 and name a point of the curve.
#[verifier::external_body]
pub(crate) fn p256_public_key(secret: &[u8]) -> (r: Vec<u8>)
    requires
        p256_secret(secret@),
    ensures
        r@ == p256_public(secret@),
        r@.len() == 65,
        r@[0] == 4,
        p256_point(r@),
{
    let key = p256::SecretKey::from_slice(secret).expect("a secret scalar");
    key.public_key().to_encoded_point(false).as_bytes().to_vec()
}

/// `bytes` has the shape of a SEC1 point on a curve with 32-byte coordinates:
/// a known tag and the length that goes with it.
pub open spec fn sec1_shaped(bytes: Seq<u8>) -> bool {
    bytes.len() > 0 && {
        ||| bytes[0] == 0 && bytes.len() == 1
        ||| (bytes[0] == 2 || bytes[0] == 3 || bytes[0] == 5) && bytes.len() == 33
        ||| bytes[0] == 4 && bytes.len() == 65
    }
}

/// `p256::EncodedPoint::from_bytes` looks at the tag and the length only. Its
/// error is displayed as `elliptic curve point encoding error`. The encoding of
/// a public key passes.
#[verifier::external_body]
pub(crate) fn p256_check_encoding(bytes: &[u8]) -> (r: Result<(), String>)
    ensures
        r is Ok <==> sec1_shaped(bytes@),
        r matches Err(e) ==> e@ == "elliptic curve point encoding error"@,
        forall|s: Seq<u8>| p256_secret(s) && bytes@ == #[trigger] p256_public(s) ==> r is Ok,
{
    p256::EncodedPoint::from_bytes(bytes).map(|_p| ()).map_err(|e| e.to_string())
}

/// The SEC1 encoding `bytes` names a point of P-256 that is not the identity.
pub uninterp spec fn p256_point(bytes: Seq<u8>) -> bool;

/// `p256::PublicKey::from_encoded_point`: whether the encoding names a point of
/// the curve other than the identity. The encoding of a public key does.
#[verifier::external_body]
pub(crate) fn p256_check_point(bytes: &[u8]) -> (r: bool)
    requires
        sec1_shaped(bytes@),
    ensures
        r == p256_point(bytes@),
        forall|s: Seq<u8>| p256_secret(s) && bytes@ == #[trigger] p256_public(s) ==> r,
{
    let point = p256::EncodedPoint::from_bytes(bytes).expect("a shaped point");
    p256::PublicKey::from_encoded_point(&point).is_some().into()
}

/// The x coordinate of the product of a secret scalar and an encoded point.
pub uninterp spec fn p256_shared(secret: Seq<u8>, point: Seq<u8>) -> Seq<u8>;

/// `p256::ecdh::diffie_hellman` multiplies the point by the scalar and returns
/// the x coordinate, 32 bytes. Where the point is the public key of another
/// scalar, the two sides of the exchange get the same value.
#[verifier::external_body]
pub(crate) fn p256_diffie_hellman(secret: &[u8], point: &[u8]) -> (r: Vec<u8>)
    requires
        p256_secret(secret@),
        sec1_shaped(point@),
        p256_point(point@),
    ensures
        r@ == p256_shared(secret@, point@),
        r@.len() == 32,
        forall|s: Seq<u8>|
            p256_secret(s) && point@ == #[trigger] p256_public(s) ==> r@ == p256_shared(
                s,
                p256_public(secret@),
            ),
{
    let key = p256::SecretKey::from_slice(secret).expect("a secret scalar");
    let encoded = p256::EncodedPoint::from_bytes(point).expect("a shaped point");
    let public = p256::PublicKey::from_encoded_point(&encoded).expect("a point of the curve");
    let shared = p256::ecdh::diffie_hellman(key.to_nonzero_scalar(), public.as_affine());
    shared.raw_secret_bytes().to_vec()
}

/// A secret scalar is 32 bytes that write, most significant byte first, a number from 1
/// up to the order of the group.
pub proof fn law_secret_scalars(bytes: Seq<u8>)
    ensures
        p256_secret(bytes) <==> bytes.len() == 32 && 0 < big_endian(bytes)
            < 0xffffffff00000000ffffffffffffffffbce6faada7179e84f3b9cac2fc632551int,
{
}

/// The number that bytes write: none write 0, and each further byte makes 256 times as
/// much and that byte.
pub proof fn law_big_endian(bytes: Seq<u8>, b: u8)
    ensures
        big_endian(Seq::empty()) == 0,
        big_endian(bytes.push(b)) == 256 * big_endian(bytes) + b,
{
    assert(bytes.push(b).drop_last() =~= bytes);
}

/// The shapes of an encoded point: 65 bytes behind the tag 4, 33 behind 2, 3 or 5, and
/// the single byte 0.
pub proof fn law_point_shapes(bytes: Seq<u8>)
    ensures
        bytes.len() == 65 ==> (sec1_shaped(bytes) <==> bytes[0] == 4),
        bytes.len() == 33 ==> (sec1_shaped(bytes) <==> bytes[0] == 2 || bytes[0] == 3 || bytes[0]
            == 5),
        bytes.len() == 1 ==> (sec1_shaped(bytes) <==> bytes[0] == 0),
        bytes.len() != 65 && bytes.len() != 33 && bytes.len() != 1 ==> !sec1_shaped(bytes),
{
}

/// The longest plaintext has two to the power of 36 bytes.
pub proof fn law_longest_plaintext()
    ensures
        max_plaintext() == 65536 * 1048576,
{
}

/// Two ciphertexts differ in the tag alone exactly where they are of one length, agree
/// before the last sixteen bytes, and do not agree in those.
pub proof fn law_retagged(body: Seq<u8>, tag: Seq<u8>, other: Seq<u8>)
    requires
        tag.len() == 16,
        other.len() == 16,
    ensures
        retagged(body + tag, body + other) <==> tag != other,
{
    let a = body + tag;
    let b = body + other;
    assert(a.subrange(0, a.len() - 16) =~= body);
    assert(b.subrange(0, b.len() - 16) =~= body);
    assert(a.subrange(body.len() as int, a.len() as int) =~= tag);
    assert(b.subrange(body.len() as int, b.len() as int) =~= other);
}

}

//! Secrets that stay encrypted in memory until they are used.

use super::coffer::Coffer;
use super::memcall::Protection;
use super::secure_buffer::{self, BufferView, SecureBuffer, State};
use crate::crypto::{self, aes_gcm_decrypt, aes_gcm_encrypt, os_random, KEY_LEN, NONCE_LEN, TAG_LEN};
use crate::error::{Error, ErrorView};
use crate::secret::SecretBytes;
use crate::text::{self, concat, decimal};
use vstd::bytes;
use vstd::prelude::*;
use vstd::slice::slice_subrange;
use vstd::string::StringExecFns;

verus! {

/// Length of the part of a nonce that is the same for a whole process.
pub const PREFIX_LEN: usize = 4;

/// The four bytes of `pid`, lowest first.
pub open spec fn pid_bytes(pid: u32) -> Seq<u8> {
    seq![
        (pid % 0x100) as u8,
        (pid / 0x100 % 0x100) as u8,
        (pid / 0x1_0000 % 0x100) as u8,
        (pid / 0x100_0000) as u8,
    ]
}

/// The nonce prefix: the drawn bytes, or the process identifier where the
/// generator failed.
pub fn nonce_prefix(drawn: Result<Vec<u8>, String>, pid: u32) -> (r: Vec<u8>)
    ensures
        drawn matches Ok(v) ==> r@ == v@,
        drawn is Err ==> r@ == pid_bytes(pid),
{
    match drawn {
        Ok(v) => v,
        Err(_) => {
            let v: Vec<u8> = vec![
                (pid % 0x100) as u8,
                (pid / 0x100 % 0x100) as u8,
                (pid / 0x1_0000 % 0x100) as u8,
                (pid / 0x100_0000) as u8,
            ];
            assert(v@ =~= pid_bytes(pid));
            v
        },
    }
}

/// The nonce for one seal: the prefix, then the counter, lowest byte first.
pub open spec fn nonce_of(prefix: Seq<u8>, counter: u64) -> Seq<u8> {
    prefix + bytes::spec_u64_to_le_bytes(counter)
}

/// The counter after `n`. It starts over after the last value.
pub open spec fn bumped(n: u64) -> u64 {
    if n == u64::MAX {
        0
    } else {
        (n + 1) as u64
    }
}

/// What sealing needs: the master key, a source of nonces and the next
/// identifier. One of these serves a whole process.
pub struct SealContext {
    coffer: Coffer,
    prefix: Vec<u8>,
    counter: u64,
    next_id: u64,
}

/// The mathematical content of a [`SealContext`].
#[verifier::ext_equal]
pub struct ContextView {
    /// The master key.
    pub key: Seq<u8>,
    pub prefix: Seq<u8>,
    /// The counter of the next nonce.
    pub counter: u64,
    /// The next identifier.
    pub next_id: u64,
}

impl View for SealContext {
    type V = ContextView;

    closed spec fn view(&self) -> ContextView {
        ContextView {
            key: self.coffer@,
            prefix: self.prefix@,
            counter: self.counter,
            next_id: self.next_id,
        }
    }
}

impl SealContext {
    /// The parts are whole.
    pub closed spec fn wf(&self) -> bool {
        &&& self.coffer.wf()
        &&& self.prefix@.len() == PREFIX_LEN
    }

    /// A context for the given master key and nonce prefix.
    pub fn new(coffer: Coffer, prefix: Vec<u8>) -> (r: SealContext)
        requires
            coffer.wf(),
            prefix@.len() == PREFIX_LEN,
        ensures
            r.wf(),
            r@ == (ContextView { key: coffer@, prefix: prefix@, counter: 0, next_id: 1 }),
    {
        SealContext { coffer, prefix, counter: 0, next_id: 1 }
    }

    /// A context with a new random master key. `pid` is the identifier of the
    /// process.
    pub fn generate(pid: u32) -> (r: Result<SealContext, Error>)
        ensures
            r matches Ok(c) ==> c.wf() && c@.key.len() == KEY_LEN && c@.prefix.len() == PREFIX_LEN
                && c@.counter == 0 && c@.next_id == 1,
            r matches Err(e) ==> exists|first: bool, t: Seq<char>|
                e@ == #[trigger] super::coffer::draw_error(first, t),
    {
        let coffer = match Coffer::generate() {
            Ok(c) => c,
            Err(e) => {
                return Err(e);
            },
        };
        let mut bytes: Vec<u8> = vec![0u8; PREFIX_LEN];
        let drawn: Result<Vec<u8>, String> = match os_random(bytes.as_mut_slice()) {
            Ok(()) => Ok(bytes),
            Err(e) => Err(e),
        };
        Ok(SealContext::new(coffer, nonce_prefix(drawn, pid)))
    }

    /// The next nonce. No nonce comes twice before the counter starts over.
    pub fn next_nonce(&mut self) -> (r: Vec<u8>)
        requires
            old(self).wf(),
        ensures
            final(self).wf(),
            r@ == nonce_of(old(self)@.prefix, old(self)@.counter),
            r@.len() == NONCE_LEN,
            final(self)@ == (ContextView { counter: bumped(old(self)@.counter), ..old(self)@ }),
    {
        let counter: u64 = self.counter;
        self.counter = counter.wrapping_add(1);
        let mut nonce: Vec<u8> = self.prefix.clone();
        let mut low = bytes::u64_to_le_bytes(counter);
        proof {
            bytes::lemma_auto_spec_u64_to_from_le_bytes();
        }
        nonce.append(&mut low);
        nonce
    }

    /// The master key.
    pub fn master_key(&mut self) -> (r: Result<SecretBytes, Error>)
        requires
            old(self).wf(),
        ensures
            r is Ok,
            r matches Ok(key) ==> key@ == old(self)@.key && key@.len() == KEY_LEN,
            final(self).wf(),
            final(self)@ == old(self)@,
    {
        self.coffer.master_key()
    }
}

/// A secret, encrypted under the master key.
pub struct MemoryEnclave {
    /// Identifier of this secret within the process.
    pub id: u64,
    /// `[12-byte nonce][ciphertext][16-byte tag]`.
    pub ciphertext: Vec<u8>,
    /// Length of the secret.
    pub plaintext_len: usize,
}

/// The encryption of `plaintext` with its nonce in front.
pub open spec fn blob_of(key: Seq<u8>, nonce: Seq<u8>, plaintext: Seq<u8>) -> Seq<u8> {
    nonce + crypto::aes_gcm_of(key, nonce, plaintext)
}

/// `blob` is an encryption of `plaintext` under `key`.
pub open spec fn seals(key: Seq<u8>, plaintext: Seq<u8>, blob: Seq<u8>) -> bool {
    exists|nonce: Seq<u8>| #[trigger]
        blob_of(key, nonce, plaintext) == blob && nonce.len() == NONCE_LEN && blob.len()
            == NONCE_LEN + plaintext.len() + TAG_LEN && plaintext.len() <= crypto::max_plaintext()
}

/// What decrypting a blob comes to.
pub open spec fn unsealed(key: Seq<u8>, blob: Seq<u8>) -> Result<Seq<u8>, ErrorView> {
    if blob.len() < NONCE_LEN + TAG_LEN {
        Err(ErrorView::Memory("MemoryEnclave::open: ciphertext too short"@))
    } else {
        match crypto::aes_gcm_opened(
            key,
            blob.subrange(0, NONCE_LEN as int),
            blob.subrange(NONCE_LEN as int, blob.len() as int),
        ) {
            Some(p) => Ok(p),
            None => Err(
                ErrorView::DecryptFailed { detail: "MemoryEnclave::open: authentication failed"@ },
            ),
        }
    }
}

/// `r` is what decrypting `blob` results in. What was sealed comes back, and a
/// plaintext comes back only where the blob is its encryption. Where a plaintext
/// comes back, the same blob with another tag or another nonce is refused.
pub open spec fn unseals(
    key: Seq<u8>,
    blob: Seq<u8>,
    r: Result<Seq<u8>, ErrorView>,
) -> bool {
    &&& r == unsealed(key, blob)
    &&& r matches Ok(p) ==> blob.len() == NONCE_LEN + p.len() + TAG_LEN && (p.len()
        <= crypto::max_plaintext() ==> seals(key, p, blob))
    &&& forall|p: Seq<u8>| #[trigger]
        seals(key, p, blob) ==> r == Ok::<Seq<u8>, ErrorView>(p)
    &&& r is Ok ==> forall|other: Seq<u8>| #[trigger]
        crypto::retagged(blob, other) ==> unsealed(key, other) == Err::<Seq<u8>, ErrorView>(
            ErrorView::DecryptFailed { detail: "MemoryEnclave::open: authentication failed"@ },
        )
    &&& r is Ok ==> forall|other: Seq<u8>| #[trigger]
        renonced(blob, other) ==> unsealed(key, other) == Err::<Seq<u8>, ErrorView>(
            ErrorView::DecryptFailed { detail: "MemoryEnclave::open: authentication failed"@ },
        )
}

/// `b` is `a` with another nonce and otherwise the same.
pub open spec fn renonced(a: Seq<u8>, b: Seq<u8>) -> bool {
    &&& a.len() == b.len()
    &&& a.len() >= NONCE_LEN
    &&& a.subrange(NONCE_LEN as int, a.len() as int) == b.subrange(
        NONCE_LEN as int,
        b.len() as int,
    )
    &&& a != b
}

/// The content of what `open` returns.
pub open spec fn open_result(r: Result<SecureBuffer, Error>) -> Result<Seq<u8>, ErrorView> {
    match r {
        Ok(b) => Ok(b@.data),
        Err(e) => Err(e@),
    }
}

/// The content of what decrypting returns.
pub open spec fn plain_result(r: Result<SecretBytes, Error>) -> Result<Seq<u8>, ErrorView> {
    match r {
        Ok(p) => Ok(p@),
        Err(e) => Err(e@),
    }
}

/// Decrypt a blob.
fn unseal(key: &[u8], blob: &[u8]) -> (r: Result<SecretBytes, Error>)
    requires
        key@.len() == KEY_LEN,
    ensures
        unseals(key@, blob@, plain_result(r)),
{
    if blob.len() < NONCE_LEN + TAG_LEN {
        return Err(Error::Memory("MemoryEnclave::open: ciphertext too short".to_owned()));
    }
    let nonce = slice_subrange(blob, 0, NONCE_LEN);
    let sealed = slice_subrange(blob, NONCE_LEN, blob.len());
    proof {
        assert forall|p: Seq<u8>, n: Seq<u8>| #[trigger]
            blob_of(key@, n, p) == blob@ && n.len() == NONCE_LEN implies n == nonce@ && sealed@
            == crypto::aes_gcm_of(key@, nonce@, p) by {
            assert(nonce@ =~= n);
            assert(sealed@ =~= crypto::aes_gcm_of(key@, n, p));
        }
        assert forall|p: Seq<u8>| sealed@ == crypto::aes_gcm_of(key@, nonce@, p) implies blob@
            == #[trigger] blob_of(key@, nonce@, p) by {
            assert(blob@ =~= nonce@ + sealed@);
        }
    }
    proof {
        assert forall|other: Seq<u8>| #[trigger] crypto::retagged(blob@, other) implies {
            &&& other.subrange(0, NONCE_LEN as int) == nonce@
            &&& crypto::retagged(sealed@, other.subrange(NONCE_LEN as int, other.len() as int))
        } by {
            let n = blob@.len() - 16;
            let head = blob@.subrange(0, n);
            assert forall|i: int| 0 <= i < n implies blob@[i] == other[i] by {
                assert(head[i] == other.subrange(0, n)[i]);
            }
            assert(other.subrange(0, NONCE_LEN as int) =~= nonce@);
            let b = other.subrange(NONCE_LEN as int, other.len() as int);
            assert(sealed@.subrange(0, sealed@.len() - 16) =~= b.subrange(0, b.len() - 16));
            if sealed@ == b {
                assert forall|i: int| 0 <= i < blob@.len() implies blob@[i] == other[i] by {
                    if i >= 12 {
                        assert(sealed@[i - 12] == b[i - 12]);
                    }
                }
                assert(blob@ =~= other);
            }
        }
    }
    proof {
        assert forall|other: Seq<u8>| #[trigger] renonced(blob@, other) implies {
            &&& other.subrange(0, NONCE_LEN as int) != nonce@
            &&& other.subrange(NONCE_LEN as int, other.len() as int) == sealed@
        } by {
            let n = other.subrange(0, NONCE_LEN as int);
            let b = other.subrange(NONCE_LEN as int, other.len() as int);
            assert(other =~= n + b);
            assert(blob@ =~= nonce@ + sealed@);
        }
    }
    match aes_gcm_decrypt(key, nonce, sealed) {
        Ok(p) => {
            assert(sealed@ == crypto::aes_gcm_of(key@, nonce@, p@) ==> blob@ == blob_of(
                key@,
                nonce@,
                p@,
            ));
            Ok(SecretBytes::new(p))
        },
        Err(_) => Err(
            Error::DecryptFailed {
                detail: "MemoryEnclave::open: authentication failed".to_owned(),
            },
        ),
    }
}

impl MemoryEnclave {
    /// Encrypt `plaintext` under the master key.
    pub fn seal(ctx: &mut SealContext, plaintext: &[u8]) -> (r: Result<MemoryEnclave, Error>)
        requires
            old(ctx).wf(),
        ensures
            final(ctx).wf(),
            r is Ok <==> plaintext@.len() <= crypto::max_plaintext(),
            r is Ok <==> plaintext@.len() <= 0x10_0000_0000,
            r matches Ok(e) ==> {
                &&& e.id == old(ctx)@.next_id
                &&& e.plaintext_len == plaintext@.len()
                &&& e.ciphertext@ == old(ctx)@.prefix + bytes::spec_u64_to_le_bytes(
                    old(ctx)@.counter,
                ) + crypto::aes_gcm_of(
                    old(ctx)@.key,
                    old(ctx)@.prefix + bytes::spec_u64_to_le_bytes(old(ctx)@.counter),
                    plaintext@,
                )
                &&& e.ciphertext@ == blob_of(
                    old(ctx)@.key,
                    nonce_of(old(ctx)@.prefix, old(ctx)@.counter),
                    plaintext@,
                )
                &&& seals(old(ctx)@.key, plaintext@, e.ciphertext@)
                &&& final(ctx)@ == (ContextView {
                    counter: bumped(old(ctx)@.counter),
                    next_id: bumped(old(ctx)@.next_id),
                    ..old(ctx)@
                })
            },
            r matches Err(e) ==> {
                &&& e@ == ErrorView::Memory("MemoryEnclave::seal encrypt: "@ + "aead::Error"@)
                &&& final(ctx)@ == (ContextView {
                    counter: bumped(old(ctx)@.counter),
                    ..old(ctx)@
                })
            },
    {
        let key = match ctx.master_key() {
            Ok(key) => key,
            Err(e) => {
                return Err(e);
            },
        };
        let nonce = ctx.next_nonce();
        let mut sealed = match aes_gcm_encrypt(key.as_slice(), nonce.as_slice(), plaintext) {
            Ok(c) => c,
            Err(t) => {
                return Err(Error::Memory(concat("MemoryEnclave::seal encrypt: ", t.as_str())));
            },
        };
        let mut blob: Vec<u8> = nonce;
        blob.append(&mut sealed);
        let id: u64 = ctx.next_id;
        ctx.next_id = id.wrapping_add(1);
        Ok(MemoryEnclave { id, ciphertext: blob, plaintext_len: plaintext.len() })
    }

    /// Encrypt what `buf` holds, and leave the buffer read-only.
    pub fn seal_buffer(ctx: &mut SealContext, buf: &mut SecureBuffer) -> (r: Result<
        MemoryEnclave,
        Error,
    >)
        requires
            old(ctx).wf(),
            old(buf).wf(),
        ensures
            final(ctx).wf(),
            final(buf).wf(),
            r is Ok <==> old(buf)@.state != State::Dead && old(buf)@.data.len()
                <= crypto::max_plaintext(),
            old(buf)@.state == State::Dead ==> final(buf)@ == old(buf)@ && final(ctx)@ == old(ctx)@
                && r->Err_0@ == ErrorView::Memory("SecureBuffer::melt on dead buffer"@),
            old(buf)@.state != State::Dead ==> final(buf)@ == (BufferView {
                state: State::Frozen,
                ..old(buf)@
            }),
            r matches Ok(e) ==> {
                &&& e.id == old(ctx)@.next_id
                &&& e.plaintext_len == old(buf)@.data.len()
                &&& e.ciphertext@ == blob_of(
                    old(ctx)@.key,
                    nonce_of(old(ctx)@.prefix, old(ctx)@.counter),
                    old(buf)@.data,
                )
                &&& seals(old(ctx)@.key, old(buf)@.data, e.ciphertext@)
                &&& final(ctx)@ == (ContextView {
                    counter: bumped(old(ctx)@.counter),
                    next_id: bumped(old(ctx)@.next_id),
                    ..old(ctx)@
                })
            },
            old(buf)@.state != State::Dead && r is Err ==> {
                &&& r->Err_0@ == ErrorView::Memory(
                    "MemoryEnclave::seal encrypt: "@ + "aead::Error"@,
                )
                &&& final(ctx)@ == (ContextView {
                    counter: bumped(old(ctx)@.counter),
                    ..old(ctx)@
                })
            },
    {
        match buf.melt() {
            Ok(()) => {},
            Err(e) => {
                return Err(e);
            },
        }
        let result = MemoryEnclave::seal(ctx, buf.as_slice());
        let _ = buf.freeze();
        result
    }

    /// Decrypt the secret.
    pub fn open_plaintext(&self, ctx: &mut SealContext) -> (r: Result<SecretBytes, Error>)
        requires
            old(ctx).wf(),
        ensures
            final(ctx).wf(),
            final(ctx)@ == old(ctx)@,
            unseals(old(ctx)@.key, self.ciphertext@, plain_result(r)),
    {
        let key = match ctx.master_key() {
            Ok(key) => key,
            Err(e) => {
                return Err(e);
            },
        };
        unseal(key.as_slice(), self.ciphertext.as_slice())
    }

    /// Decrypt the secret into a read-only buffer.
    pub fn open(&self, ctx: &mut SealContext) -> (r: Result<SecureBuffer, Error>)
        requires
            old(ctx).wf(),
        ensures
            final(ctx).wf(),
            final(ctx)@ == old(ctx)@,
            r matches Ok(b) ==> b.wf() && b@.state == State::Frozen && b@.locked && b@.guards
                == Protection::NoAccess,
            unseals(
                old(ctx)@.key,
                self.ciphertext@,
                unsealed(old(ctx)@.key, self.ciphertext@),
            ),
            forall|nonce: Seq<u8>, p: Seq<u8>|
                nonce.len() == 12 && p.len() <= 0x10_0000_0000 && p.len() + 3 * 4096 <= isize::MAX
                    && self.ciphertext@.len() == p.len() + 28 && self.ciphertext@ == nonce
                    + #[trigger] crypto::aes_gcm_of(old(ctx)@.key, nonce, p) ==> r is Ok
                    && r->Ok_0@.data == p,
            open_result(r) == match unsealed(old(ctx)@.key, self.ciphertext@) {
                Ok(p) => if secure_buffer::allocatable(p.len() as int) {
                    Ok(p)
                } else {
                    Err(secure_buffer::no_buffer())
                },
                Err(e) => Err(e),
            },
    {
        proof {
            let key = old(ctx)@.key;
            assert forall|nonce: Seq<u8>, p: Seq<u8>|
                nonce.len() == 12 && p.len() <= 0x10_0000_0000 && p.len() + 3 * 4096 <= isize::MAX
                    && self.ciphertext@.len() == p.len() + 28 && self.ciphertext@ == nonce
                    + #[trigger] crypto::aes_gcm_of(key, nonce, p) implies seals(
                key,
                p,
                self.ciphertext@,
            ) && secure_buffer::allocatable(p.len() as int) by {
                assert(blob_of(key, nonce, p) == self.ciphertext@);
                secure_buffer::law_every_size_can_be_had(p.len() as int);
            }
        }
        let plaintext = match self.open_plaintext(ctx) {
            Ok(p) => p,
            Err(e) => {
                return Err(e);
            },
        };
        let mut buf = match SecureBuffer::new(plaintext.len()) {
            Ok(b) => b,
            Err(e) => {
                return Err(e);
            },
        };
        buf.fill(plaintext.as_slice());
        match buf.freeze() {
            Ok(()) => Ok(buf),
            Err(e) => Err(e),
        }
    }

    /// Length of the secret.
    pub fn plaintext_len(&self) -> (r: usize)
        ensures
            r == self.plaintext_len,
    {
        self.plaintext_len
    }

    /// Identifier of this secret within the process.
    pub fn id(&self) -> (r: u64)
        ensures
            r == self.id,
    {
        self.id
    }

    /// A description without the secret.
    pub fn debug_text(&self) -> (r: String)
        ensures
            r@ == "MemoryEnclave { id: "@ + text::decimal_of(self.id as nat) + ", plaintext_len: "@
                + text::decimal_of(self.plaintext_len as nat) + " }"@,
    {
        let mut s = "MemoryEnclave { id: ".to_owned();
        let id = decimal(self.id);
        s.append(id.as_str());
        s.append(", plaintext_len: ");
        let len = decimal(self.plaintext_len as u64);
        s.append(len.as_str());
        s.append(" }");
        s
    }
}

/// Opening gives back what was sealed.
pub proof fn law_open_undoes_seal(
    key: Seq<u8>,
    plaintext: Seq<u8>,
    blob: Seq<u8>,
    r: Result<Seq<u8>, ErrorView>,
)
    requires
        seals(key, plaintext, blob),
        unseals(key, blob, r),
    ensures
        r == Ok::<Seq<u8>, ErrorView>(plaintext),
{
}

/// A blob that was changed after it was made is refused where the change is in
/// the tag alone or in the nonce alone; where it is in the encrypted bytes and not in the nonce, it never gives
/// the secret again.
pub proof fn law_changed_blob(
    key: Seq<u8>,
    plaintext: Seq<u8>,
    blob: Seq<u8>,
    r: Result<Seq<u8>, ErrorView>,
    changed: Seq<u8>,
    after: Result<Seq<u8>, ErrorView>,
)
    requires
        seals(key, plaintext, blob),
        unseals(key, blob, r),
        unseals(key, changed, after),
        changed != blob,
    ensures
        crypto::retagged(blob, changed) ==> after is Err && after->Err_0 is DecryptFailed,
        renonced(blob, changed) ==> after is Err && after->Err_0 is DecryptFailed,
        changed.len() == blob.len() && changed.subrange(0, NONCE_LEN as int) == blob.subrange(
            0,
            NONCE_LEN as int,
        ) ==> after != Ok::<Seq<u8>, ErrorView>(plaintext),
{
    if changed.len() == blob.len() && changed.subrange(0, NONCE_LEN as int) == blob.subrange(
        0,
        NONCE_LEN as int,
    ) && after == Ok::<Seq<u8>, ErrorView>(plaintext) {
        let n1 = choose|n: Seq<u8>| #[trigger]
            blob_of(key, n, plaintext) == blob && n.len() == NONCE_LEN;
        let n2 = choose|n: Seq<u8>| #[trigger]
            blob_of(key, n, plaintext) == changed && n.len() == NONCE_LEN;
        assert(blob.subrange(0, NONCE_LEN as int) =~= n1);
        assert(changed.subrange(0, NONCE_LEN as int) =~= n2);
    }
}

/// Opening one secret twice gives the same.
pub proof fn law_opens_agree(
    key: Seq<u8>,
    blob: Seq<u8>,
    first: Result<Seq<u8>, ErrorView>,
    second: Result<Seq<u8>, ErrorView>,
)
    requires
        unseals(key, blob, first),
        unseals(key, blob, second),
    ensures
        first == second,
{
}

/// The value after `n` steps from `start`.
pub open spec fn bumped_times(start: u64, n: nat) -> u64
    decreases n,
{
    if n == 0 {
        start
    } else {
        bumped(bumped_times(start, (n - 1) as nat))
    }
}

proof fn lemma_bumped_times(start: u64, n: nat)
    ensures
        bumped_times(start, n) == (start + n) % 0x1_0000_0000_0000_0000,
    decreases n,
{
    if n > 0 {
        lemma_bumped_times(start, (n - 1) as nat);
    }
}

/// The identifiers that successive seals hand out are all different, until the
/// 64-bit counter has gone round.
pub proof fn law_ids_are_unique(start: u64, i: nat, j: nat)
    requires
        i < j < i + 0x1_0000_0000_0000_0000,
    ensures
        bumped_times(start, i) != bumped_times(start, j),
{
    lemma_bumped_times(start, i);
    lemma_bumped_times(start, j);
}

/// Seals with different counters have different nonces and so different
/// ciphertexts, whatever they encrypt and under whatever key. With
/// [`law_ids_are_unique`], no nonce comes twice before the counter has gone
/// round.
pub proof fn law_seals_differ(
    prefix: Seq<u8>,
    c1: u64,
    c2: u64,
    key1: Seq<u8>,
    key2: Seq<u8>,
    p1: Seq<u8>,
    p2: Seq<u8>,
)
    requires
        prefix.len() == PREFIX_LEN,
        c1 != c2,
    ensures
        nonce_of(prefix, c1) != nonce_of(prefix, c2),
        blob_of(key1, nonce_of(prefix, c1), p1) != blob_of(key2, nonce_of(prefix, c2), p2),
{
    bytes::lemma_auto_spec_u64_to_from_le_bytes();
    let n1 = nonce_of(prefix, c1);
    let n2 = nonce_of(prefix, c2);
    assert(n1.subrange(4, 12) =~= bytes::spec_u64_to_le_bytes(c1));
    assert(n2.subrange(4, 12) =~= bytes::spec_u64_to_le_bytes(c2));
    let b1 = blob_of(key1, n1, p1);
    let b2 = blob_of(key2, n2, p2);
    assert(b1.subrange(0, 12) =~= n1);
    assert(b2.subrange(0, 12) =~= n2);
}

/// A sealed secret is its nonce and behind it the AES-256-GCM encryption of all of the
/// secret under the master key and that nonce.
pub proof fn law_blob_is_nonce_and_ciphertext(key: Seq<u8>, nonce: Seq<u8>, plaintext: Seq<u8>)
    requires
        nonce.len() == 12,
    ensures
        blob_of(key, nonce, plaintext).subrange(0, 12) == nonce,
        blob_of(key, nonce, plaintext).subrange(
            12,
            blob_of(key, nonce, plaintext).len() as int,
        ) == crypto::aes_gcm_of(key, nonce, plaintext),
        plaintext.len() <= 0x10_0000_0000 && crypto::aes_gcm_of(key, nonce, plaintext).len()
            == plaintext.len() + 16 ==> seals(
            key,
            plaintext,
            nonce + crypto::aes_gcm_of(key, nonce, plaintext),
        ),
{
    let blob = blob_of(key, nonce, plaintext);
    assert(blob.subrange(0, 12) =~= nonce);
    assert(blob.subrange(12, blob.len() as int) =~= crypto::aes_gcm_of(key, nonce, plaintext));
}

/// Opening, for every blob: one shorter than a nonce and a tag is too short; else it
/// is what AES-256-GCM makes of the part behind the nonce, and a failure is a failed
/// authentication.
pub proof fn law_open_goes_by_the_cipher(key: Seq<u8>, blob: Seq<u8>)
    ensures
        blob.len() < 28 ==> unsealed(key, blob) == Err::<Seq<u8>, ErrorView>(
            ErrorView::Memory("MemoryEnclave::open: ciphertext too short"@),
        ),
        blob.len() >= 28 ==> ({
            let opened = crypto::aes_gcm_opened(
                key,
                blob.subrange(0, 12),
                blob.subrange(12, blob.len() as int),
            );
            &&& opened is Some ==> unsealed(key, blob) == Ok::<Seq<u8>, ErrorView>(opened->0)
            &&& opened is None ==> unsealed(key, blob) == Err::<Seq<u8>, ErrorView>(
                ErrorView::DecryptFailed { detail: "MemoryEnclave::open: authentication failed"@ },
            )
        }),
{
}

/// A nonce is the four bytes of the prefix and the counter in eight bytes, from which
/// the counter can be read back.
pub proof fn law_nonce(prefix: Seq<u8>, counter: u64)
    requires
        prefix.len() == 4,
    ensures
        nonce_of(prefix, counter).len() == 12,
        nonce_of(prefix, counter).subrange(0, 4) == prefix,
        bytes::spec_u64_from_le_bytes(nonce_of(prefix, counter).subrange(4, 12)) == counter,
{
    bytes::lemma_auto_spec_u64_to_from_le_bytes();
    assert(nonce_of(prefix, counter).subrange(0, 4) =~= prefix);
    assert(nonce_of(prefix, counter).subrange(4, 12) =~= bytes::spec_u64_to_le_bytes(counter));
}

/// Counters and identifiers go up by one and start over behind the last.
pub proof fn law_counting(n: u64)
    ensures
        n < u64::MAX ==> bumped(n) == n + 1,
        bumped(u64::MAX) == 0,
{
}

/// The process identifier can be read back from its bytes.
pub proof fn law_pid_bytes(pid: u32)
    ensures
        pid_bytes(pid).len() == 4,
        pid_bytes(pid)[0] + 256 * pid_bytes(pid)[1] + 65536 * pid_bytes(pid)[2] + 16777216
            * pid_bytes(pid)[3] == pid,
{
}

/// The views of results keep what they are views of.
pub proof fn law_results_are_shown_as_they_are(
    b: Result<SecureBuffer, Error>,
    p: Result<SecretBytes, Error>,
)
    ensures
        b matches Ok(x) ==> open_result(b) == Ok::<Seq<u8>, ErrorView>(x@.data),
        b matches Err(e) ==> open_result(b) == Err::<Seq<u8>, ErrorView>(e@),
        p matches Ok(x) ==> plain_result(p) == Ok::<Seq<u8>, ErrorView>(x@),
        p matches Err(e) ==> plain_result(p) == Err::<Seq<u8>, ErrorView>(e@),
{
}

/// What counts as an encryption of a secret is 28 bytes longer than it, and behind its
/// nonce is the cipher's output for that nonce.
pub proof fn law_sealed_blobs(key: Seq<u8>, plaintext: Seq<u8>, blob: Seq<u8>)
    requires
        seals(key, plaintext, blob),
    ensures
        blob.len() == plaintext.len() + 28,
        plaintext.len() <= 0x10_0000_0000,
        blob.subrange(12, blob.len() as int) == crypto::aes_gcm_of(
            key,
            blob.subrange(0, 12),
            plaintext,
        ),
{
    let nonce = choose|nonce: Seq<u8>| #[trigger]
        blob_of(key, nonce, plaintext) == blob && nonce.len() == NONCE_LEN;
    law_blob_is_nonce_and_ciphertext(key, nonce, plaintext);
}

/// Two blobs differ in the nonce alone exactly where they agree behind the first twelve
/// bytes and do not agree in those.
pub proof fn law_renonced(nonce: Seq<u8>, other: Seq<u8>, sealed: Seq<u8>)
    requires
        nonce.len() == 12,
        other.len() == 12,
    ensures
        renonced(nonce + sealed, other + sealed) <==> nonce != other,
{
    let a = nonce + sealed;
    let b = other + sealed;
    assert(a.subrange(12, a.len() as int) =~= sealed);
    assert(b.subrange(12, b.len() as int) =~= sealed);
    assert(a.subrange(0, 12) =~= nonce);
    assert(b.subrange(0, 12) =~= other);
}

}

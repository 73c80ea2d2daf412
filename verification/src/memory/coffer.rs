//! The master key of a process, kept in two halves.
//!
//! One half is random, the other is the key combined with a digest of the
//! first. Neither half alone tells anything of the key.

use super::secure_buffer::{self, draw_bytes, SecureBuffer, State};
use crate::crypto::{self, sha256, KEY_LEN};
use crate::error::{Error, ErrorView};
use crate::secret::SecretBytes;
use crate::text::concat;
use vstd::prelude::*;

verus! {

/// The bytewise exclusive or of two byte strings of one length.
pub open spec fn xor(a: Seq<u8>, b: Seq<u8>) -> Seq<u8> {
    Seq::new(a.len(), |i: int| a[i] ^ b[i])
}

fn xor_bytes(a: &[u8], b: &[u8]) -> (r: Vec<u8>)
    requires
        a@.len() == b@.len(),
    ensures
        r@ == xor(a@, b@),
{
    let mut out: Vec<u8> = Vec::new();
    let mut i: usize = 0;
    while i < a.len()
        invariant
            i <= a@.len(),
            a@.len() == b@.len(),
            out@ == xor(a@, b@).subrange(0, i as int),
        decreases a@.len() - i,
    {
        out.push(a[i] ^ b[i]);
        i += 1;
        assert(out@ =~= xor(a@, b@).subrange(0, i as int));
    }
    assert(out@ =~= xor(a@, b@));
    out
}

/// Combining twice with the same bytes changes nothing. This is how the halves
/// give the key back.
pub proof fn law_xor_undoes_itself(a: Seq<u8>, b: Seq<u8>)
    requires
        a.len() == b.len(),
    ensures
        xor(xor(a, b), b) == a,
{
    assert forall|i: int| 0 <= i < a.len() implies xor(xor(a, b), b)[i] == a[i] by {
        let x: u8 = a[i];
        let y: u8 = b[i];
        assert((x ^ y) ^ y == x) by (bit_vector);
    }
    assert(xor(xor(a, b), b) =~= a);
}

/// Why no coffer was made: the draw of the key (`first`) or of the right half
/// failed with the text `t`.
pub open spec fn draw_error(first: bool, t: Seq<char>) -> ErrorView {
    ErrorView::Memory(
        if first {
            "coffer keygen OsRng: "@ + t
        } else {
            "coffer right OsRng: "@ + t
        },
    )
}

/// A master key in two halves, each in a buffer of its own that is read-only
/// between uses.
pub struct Coffer {
    /// The key, combined with the digest of `right`.
    left: SecureBuffer,
    /// Random bytes.
    right: SecureBuffer,
}

impl View for Coffer {
    type V = Seq<u8>;

    /// The master key.
    closed spec fn view(&self) -> Seq<u8> {
        xor(self.left@.data, crypto::sha256_of(self.right@.data))
    }
}

impl Coffer {
    /// Both halves are whole and read-only.
    pub closed spec fn wf(&self) -> bool {
        &&& self.left.wf()
        &&& self.right.wf()
        &&& self.left@.data.len() == KEY_LEN
        &&& self.right@.data.len() == KEY_LEN
        &&& self.left@.state == State::Frozen
        &&& self.right@.state == State::Frozen
    }

    /// What the left half holds.
    pub closed spec fn left_half(&self) -> Seq<u8> {
        self.left@.data
    }

    /// What the right half holds.
    pub closed spec fn right_half(&self) -> Seq<u8> {
        self.right@.data
    }

    /// Split `master` with the random bytes `right`, and put the halves into the
    /// two buffers.
    pub fn install(
        master: &[u8],
        right: &[u8],
        left_buf: SecureBuffer,
        right_buf: SecureBuffer,
    ) -> (r: Result<Coffer, Error>)
        requires
            master@.len() == KEY_LEN,
            right@.len() == KEY_LEN,
            left_buf.wf(),
            right_buf.wf(),
            left_buf@.state == State::Mutable,
            right_buf@.state == State::Mutable,
            left_buf@.data.len() == KEY_LEN,
            right_buf@.data.len() == KEY_LEN,
        ensures
            r is Ok,
            r matches Ok(c) ==> c.wf() && c@ == master@ && c.right_half() == right@
                && c.left_half() == xor(master@, crypto::sha256_of(right@)),
            r matches Ok(c) ==> c.left_half().len() == KEY_LEN && forall|i: int|
                0 <= i < KEY_LEN ==> c.left_half()[i] == master@[i] ^ crypto::sha256_of(right@)[i],
    {
        let mut left_buf = left_buf;
        let mut right_buf = right_buf;
        let right_hash = SecretBytes::new(sha256(right));
        let left_stored = SecretBytes::new(xor_bytes(master, right_hash.as_slice()));
        proof {
            law_xor_undoes_itself(master@, crypto::sha256_of(right@));
        }
        left_buf.fill(left_stored.as_slice());
        match left_buf.freeze() {
            Ok(()) => {},
            Err(e) => {
                return Err(e);
            },
        }
        right_buf.fill(right);
        match right_buf.freeze() {
            Ok(()) => {},
            Err(e) => {
                return Err(e);
            },
        }
        Ok(Coffer { left: left_buf, right: right_buf })
    }

    /// A coffer for the master key and the right half that were drawn, in the two
    /// buffers. Where a draw failed, its text is in the error.
    pub fn install_draws(
        master: Result<SecretBytes, String>,
        right: Result<SecretBytes, String>,
        left_buf: SecureBuffer,
        right_buf: SecureBuffer,
    ) -> (r: Result<Coffer, Error>)
        requires
            master matches Ok(m) ==> m@.len() == KEY_LEN,
            right matches Ok(m) ==> m@.len() == KEY_LEN,
            left_buf.wf(),
            right_buf.wf(),
            left_buf@.state == State::Mutable,
            right_buf@.state == State::Mutable,
            left_buf@.data.len() == KEY_LEN,
            right_buf@.data.len() == KEY_LEN,
        ensures
            r is Ok <==> master is Ok && right is Ok,
            r matches Ok(c) ==> c.wf() && c@ == master->Ok_0@ && c.right_half() == right->Ok_0@
                && c.left_half() == xor(master->Ok_0@, crypto::sha256_of(right->Ok_0@)),
            r matches Err(e) ==> e@ == match master {
                Err(t) => draw_error(true, t@),
                Ok(_) => draw_error(false, right->Err_0@),
            },
    {
        let master = match master {
            Ok(m) => m,
            Err(t) => {
                return Err(Error::Memory(concat("coffer keygen OsRng: ", t.as_str())));
            },
        };
        let right = match right {
            Ok(m) => m,
            Err(t) => {
                return Err(Error::Memory(concat("coffer right OsRng: ", t.as_str())));
            },
        };
        Coffer::install(master.as_slice(), right.as_slice(), left_buf, right_buf)
    }

    /// A coffer in portable memory for the master key and the right half that
    /// were drawn. Where a draw failed, its text is in the error.
    pub fn from_draws(
        master: Result<SecretBytes, String>,
        right: Result<SecretBytes, String>,
    ) -> (r: Result<Coffer, Error>)
        requires
            master matches Ok(m) ==> m@.len() == KEY_LEN,
            right matches Ok(m) ==> m@.len() == KEY_LEN,
        ensures
            r is Ok <==> master is Ok && right is Ok,
            r matches Ok(c) ==> c.wf() && c@ == master->Ok_0@ && c.right_half() == right->Ok_0@
                && c.left_half() == xor(master->Ok_0@, crypto::sha256_of(right->Ok_0@)),
            r matches Err(e) ==> e@ == match master {
                Err(t) => draw_error(true, t@),
                Ok(_) => draw_error(false, right->Err_0@),
            },
    {
        assert(secure_buffer::allocatable(KEY_LEN as int));
        let left_buf = match SecureBuffer::new(KEY_LEN) {
            Ok(b) => b,
            Err(e) => {
                return Err(e);
            },
        };
        let right_buf = match SecureBuffer::new(KEY_LEN) {
            Ok(b) => b,
            Err(e) => {
                return Err(e);
            },
        };
        Coffer::install_draws(master, right, left_buf, right_buf)
    }

    /// A coffer with a new random master key. It fails only where the operating
    /// system gives no random bytes.
    pub fn generate() -> (r: Result<Coffer, Error>)
        ensures
            r matches Ok(c) ==> c.wf() && c@.len() == KEY_LEN,
            r matches Err(e) ==> exists|first: bool, t: Seq<char>|
                e@ == #[trigger] draw_error(first, t),
    {
        Coffer::from_draws(draw_bytes(KEY_LEN), draw_bytes(KEY_LEN))
    }

    /// Put the master key together.
    pub fn master_key(&mut self) -> (r: Result<SecretBytes, Error>)
        requires
            old(self).wf(),
        ensures
            r is Ok,
            r matches Ok(key) ==> key@ == old(self)@ && key@.len() == KEY_LEN,
            final(self).wf(),
            final(self)@ == old(self)@,
            final(self).left_half() == old(self).left_half(),
            final(self).right_half() == old(self).right_half(),
    {
        match self.left.melt() {
            Ok(()) => {},
            Err(e) => {
                return Err(e);
            },
        }
        match self.right.melt() {
            Ok(()) => {},
            Err(e) => {
                return Err(e);
            },
        }
        let right_hash = SecretBytes::new(sha256(self.right.as_slice()));
        let key = SecretBytes::new(xor_bytes(self.left.as_slice(), right_hash.as_slice()));
        match self.left.freeze() {
            Ok(()) => {},
            Err(e) => {
                return Err(e);
            },
        }
        match self.right.freeze() {
            Ok(()) => {},
            Err(e) => {
                return Err(e);
            },
        }
        Ok(key)
    }
}

/// The left half differs from the key in exactly the bytes where the digest of the
/// right half is not zero, and there by exactly its bits.
pub proof fn law_halves(key: Seq<u8>, digest: Seq<u8>, i: int)
    requires
        key.len() == digest.len(),
        0 <= i < key.len(),
    ensures
        xor(key, digest).len() == key.len(),
        xor(key, digest)[i] == key[i] ^ digest[i],
        xor(key, digest)[i] == key[i] <==> digest[i] == 0,
        xor(key, digest)[i] ^ digest[i] == key[i],
{
    let x: u8 = key[i];
    let y: u8 = digest[i];
    assert((x ^ y) == x <==> y == 0) by (bit_vector);
    assert((x ^ y) ^ y == x) by (bit_vector);
}

/// A failed draw is reported with the generator's own text, and with which draw it was.
pub proof fn law_draw_errors(t: Seq<char>)
    ensures
        draw_error(true, t) == ErrorView::Memory("coffer keygen OsRng: "@ + t),
        draw_error(false, t) == ErrorView::Memory("coffer right OsRng: "@ + t),
{
}

}

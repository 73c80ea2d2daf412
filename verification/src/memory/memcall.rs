//! Memory primitives: the portable ones, and the types in which a platform
//! reports the outcome of its own.

use crate::secret::{self, zeroize_slice, SecretBytes};
use crate::text::concat;
use vstd::prelude::*;

verus! {

/// Why a memory primitive failed.
#[derive(Debug)]
pub enum MemError {
    Alloc(String),
    Lock(String),
    Unlock(String),
    Protect(String),
    Free(String),
}

impl MemError {
    /// The displayed text of the error.
    pub open spec fn text(&self) -> Seq<char> {
        match self {
            MemError::Alloc(s) => "alloc: "@ + s@,
            MemError::Lock(s) => "lock: "@ + s@,
            MemError::Unlock(s) => "unlock: "@ + s@,
            MemError::Protect(s) => "protect: "@ + s@,
            MemError::Free(s) => "free: "@ + s@,
        }
    }

    /// The displayed text of the error.
    pub fn message(&self) -> (r: String)
        ensures
            r@ == self.text(),
    {
        match self {
            MemError::Alloc(s) => concat("alloc: ", s.as_str()),
            MemError::Lock(s) => concat("lock: ", s.as_str()),
            MemError::Unlock(s) => concat("unlock: ", s.as_str()),
            MemError::Protect(s) => concat("protect: ", s.as_str()),
            MemError::Free(s) => concat("free: ", s.as_str()),
        }
    }
}

/// Access that a range of pages allows.
#[derive(Clone, Copy, Debug, PartialEq, Eq, Structural)]
pub enum Protection {
    NoAccess,
    ReadOnly,
    ReadWrite,
}

/// A stretch of memory for secrets.
pub enum Region {
    /// Memory of this process, wiped when dropped.
    Owned(SecretBytes),
    /// Memory that the platform mapped and will unmap.
    Mapped(&'static mut [u8]),
}

impl View for Region {
    type V = Seq<u8>;

    open spec fn view(&self) -> Seq<u8> {
        match self {
            Region::Owned(s) => s@,
            Region::Mapped(s) => s@,
        }
    }
}

/// `whole` with the `len` bytes from `base` on replaced by `mid`.
pub open spec fn spliced(whole: Seq<u8>, base: int, len: int, mid: Seq<u8>) -> Seq<u8> {
    whole.subrange(0, base) + (mid + whole.subrange(base + len, whole.len() as int))
}

impl Region {
    /// The memory belongs to this process.
    pub open spec fn owned(&self) -> bool {
        self is Owned
    }

    /// The bytes, for reading.
    pub fn as_slice(&self) -> (r: &[u8])
        ensures
            r@ == self@,
        no_unwind
    {
        match self {
            Region::Owned(s) => s.as_slice(),
            Region::Mapped(s) => &**s,
        }
    }

    /// The bytes, for writing.
    pub fn as_mut_slice(&mut self) -> (r: &mut [u8])
        ensures
            r@ == old(self)@,
            final(r)@ == final(self)@,
            final(self).owned() == old(self).owned(),
        no_unwind
    {
        match self {
            Region::Owned(s) => s.as_mut_slice(),
            Region::Mapped(s) => &mut **s,
        }
    }

    /// The `len` bytes from `base` on, for writing.
    pub fn window(&mut self, base: usize, len: usize) -> (r: &mut [u8])
        requires
            base + len <= old(self)@.len(),
        ensures
            r@ == old(self)@.subrange(base as int, base + len),
            final(self)@ == spliced(old(self)@, base as int, len as int, final(r)@),
            final(self).owned() == old(self).owned(),
    {
        let (_, rest) = self.as_mut_slice().split_at_mut(base);
        let (data, _) = rest.split_at_mut(len);
        data
    }

    /// Overwrite everything with zeros.
    pub fn wipe(&mut self)
        ensures
            final(self)@ == secret::zeros(old(self)@.len()),
            final(self).owned() == old(self).owned(),
        no_unwind
    {
        zeroize_slice(self.as_mut_slice());
    }
}

/// The page size where the platform gives none.
pub fn page_size() -> (r: usize)
    ensures
        r == 4096,
{
    4096
}

/// Allocate `len` zero bytes. A length that no allocation can have is refused.
pub fn os_alloc(len: usize) -> (r: Result<Region, MemError>)
    ensures
        r is Ok <==> len <= isize::MAX,
        r matches Ok(region) ==> region is Owned && region@ == secret::zeros(len as nat),
        r matches Err(e) ==> e.text() == "alloc: "@
            + "invalid parameters to Layout::from_size_align"@,
{
    if len > isize::MAX as usize {
        return Err(MemError::Alloc("invalid parameters to Layout::from_size_align".to_owned()));
    }
    let bytes: Vec<u8> = vec![0u8; len];
    assert(bytes@ =~= secret::zeros(len as nat));
    Ok(Region::Owned(SecretBytes::new(bytes)))
}

/// Keep a range out of swap. Portable memory cannot be locked, and the call
/// succeeds without effect.
pub fn os_lock(_region: &Region, _offset: usize, _len: usize) -> (r: Result<(), MemError>)
    ensures
        r is Ok,
{
    Ok(())
}

/// Undo [`os_lock`].
pub fn os_unlock(_region: &Region, _offset: usize, _len: usize) -> (r: Result<(), MemError>)
    ensures
        r is Ok,
    no_unwind
{
    Ok(())
}

/// Change the access of a range. Portable memory has no page protection, and
/// the call succeeds without effect.
pub fn os_protect(
    _region: &Region,
    _offset: usize,
    _len: usize,
    _prot: Protection,
) -> (r: Result<(), MemError>)
    ensures
        r is Ok,
    no_unwind
{
    Ok(())
}

/// Give memory back. Memory of this process is freed; memory that the platform
/// mapped is the platform's to unmap.
pub fn os_free(region: Region) -> (r: Result<(), MemError>)
    ensures
        r is Ok,
{
    match region {
        Region::Owned(_bytes) => Ok(()),
        Region::Mapped(_bytes) => Ok(()),
    }
}

/// The text of an error says which primitive failed, and then why.
pub proof fn law_error_texts(e: MemError)
    ensures
        e matches MemError::Alloc(s) ==> e.text() == "alloc: "@ + s@,
        e matches MemError::Lock(s) ==> e.text() == "lock: "@ + s@,
        e matches MemError::Unlock(s) ==> e.text() == "unlock: "@ + s@,
        e matches MemError::Protect(s) ==> e.text() == "protect: "@ + s@,
        e matches MemError::Free(s) ==> e.text() == "free: "@ + s@,
{
}

/// Replacing a stretch of bytes by as many others changes that stretch and nothing else.
pub proof fn law_spliced(whole: Seq<u8>, base: int, mid: Seq<u8>, i: int)
    requires
        0 <= base <= base + mid.len() <= whole.len(),
        0 <= i < whole.len(),
    ensures
        spliced(whole, base, mid.len() as int, mid).len() == whole.len(),
        base <= i < base + mid.len() ==> spliced(whole, base, mid.len() as int, mid)[i] == mid[i
            - base],
        i < base || base + mid.len() <= i ==> spliced(whole, base, mid.len() as int, mid)[i]
            == whole[i],
{
}

}

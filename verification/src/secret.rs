//! Byte strings that are wiped when they go out of scope.

use vstd::prelude::*;
use vstd::slice::slice_to_vec;
use zeroize::Zeroize;

verus! {

/// Secret bytes, held in a `zeroize::Zeroizing<Vec<u8>>` so that they are
/// overwritten when the value is dropped.
#[verifier::external_body]
pub struct SecretBytes {
    inner: zeroize::Zeroizing<Vec<u8>>,
}

/// The bytes that a [`SecretBytes`] holds.
pub uninterp spec fn secret_bytes(s: SecretBytes) -> Seq<u8>;

impl View for SecretBytes {
    type V = Seq<u8>;

    open spec fn view(&self) -> Seq<u8> {
        secret_bytes(*self)
    }
}

/// `Zeroizing::new` takes the vector as it is.
#[verifier::external_body]
fn zeroizing_new(bytes: Vec<u8>) -> (r: SecretBytes)
    ensures
        secret_bytes(r) == bytes@,
{
    SecretBytes { inner: zeroize::Zeroizing::new(bytes) }
}

/// `Zeroizing::deref` lends the vector inside.
#[verifier::external_body]
fn zeroizing_deref(secret: &SecretBytes) -> (r: &[u8])
    ensures
        r@ == secret_bytes(*secret),
    no_unwind
{
    secret.inner.as_slice()
}

/// `Zeroizing::deref_mut` lends the vector inside for writing, here as a
/// slice: what is in the slice in the end is what the value holds then.
#[verifier::external_body]
fn zeroizing_deref_mut(secret: &mut SecretBytes) -> (r: &mut [u8])
    ensures
        r@ == secret_bytes(*old(secret)),
        final(r)@ == secret_bytes(*final(secret)),
    no_unwind
{
    secret.inner.as_mut_slice()
}

/// `Zeroize for [u8]` sets every byte to zero and keeps the length.
#[verifier::external_body]
pub(crate) fn zeroize_slice(bytes: &mut [u8])
    ensures
        final(bytes)@ == zeros(old(bytes)@.len()),
    no_unwind
{
    bytes.zeroize()
}

/// `Zeroize for [u16]` sets every unit to zero and keeps the length.
#[verifier::external_body]
pub(crate) fn zeroize_units(units: &mut [u16])
    ensures
        final(units)@ == zero_units(old(units)@.len()),
{
    units.zeroize()
}

/// `n` zero units.
pub open spec fn zero_units(n: nat) -> Seq<u16> {
    Seq::new(n, |i: int| 0u16)
}

/// `n` zero bytes.
pub open spec fn zeros(n: nat) -> Seq<u8> {
    Seq::new(n, |i: int| 0u8)
}

impl SecretBytes {
    /// Take over `bytes`.
    pub fn new(bytes: Vec<u8>) -> (r: SecretBytes)
        ensures
            r@ == bytes@,
    {
        zeroizing_new(bytes)
    }

    /// A copy of `bytes`.
    pub fn copy_of(bytes: &[u8]) -> (r: SecretBytes)
        ensures
            r@ == bytes@,
    {
        zeroizing_new(slice_to_vec(bytes))
    }

    /// Another value with the same bytes.
    pub fn duplicate(&self) -> (r: SecretBytes)
        ensures
            r@ == self@,
    {
        SecretBytes::copy_of(zeroizing_deref(self))
    }

    /// The bytes, for reading.
    pub fn as_slice(&self) -> (r: &[u8])
        ensures
            r@ == self@,
        no_unwind
    {
        zeroizing_deref(self)
    }

    /// The bytes, for writing.
    pub fn as_mut_slice(&mut self) -> (r: &mut [u8])
        ensures
            r@ == old(self)@,
            final(r)@ == final(self)@,
        no_unwind
    {
        zeroizing_deref_mut(self)
    }

    /// How many bytes there are.
    pub fn len(&self) -> (r: usize)
        ensures
            r == self@.len(),
    {
        zeroizing_deref(self).len()
    }
}

/// Zeros are zeros, as many as asked for.
pub proof fn law_zeros(n: nat, i: int)
    ensures
        zeros(n).len() == n,
        zero_units(n).len() == n,
        0 <= i < n ==> zeros(n)[i] == 0,
        0 <= i < n ==> zero_units(n)[i] == 0,
{
}

}

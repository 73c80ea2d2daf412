//! Encryption with the platform's key.

use crate::error::Error;
use crate::secret::SecretBytes;
use crate::types::BackendKind;
use vstd::prelude::*;

verus! {

/// Handle to an encryption backend.
#[derive(Debug)]
pub struct EncryptorHandle {
    backend_kind: BackendKind,
}

impl EncryptorHandle {
    pub closed spec fn spec_backend_kind(&self) -> BackendKind {
        self.backend_kind
    }

    /// A handle for a backend.
    pub fn new(backend_kind: BackendKind) -> (r: EncryptorHandle)
        ensures
            r.spec_backend_kind() == backend_kind,
    {
        EncryptorHandle { backend_kind }
    }

    /// What the caller gets of a decryption by the backend: the plaintext, to be
    /// wiped when dropped, or the backend's error.
    pub fn decrypt(&self, opened: Result<Vec<u8>, Error>) -> (r: Result<SecretBytes, Error>)
        ensures
            r is Ok <==> opened is Ok,
            r matches Ok(p) ==> p@ == opened->Ok_0@,
            r matches Err(e) ==> e == opened->Err_0,
    {
        match opened {
            Ok(plaintext) => Ok(SecretBytes::new(plaintext)),
            Err(e) => Err(e),
        }
    }

    /// The backend behind the handle.
    pub fn backend_kind(&self) -> (r: BackendKind)
        ensures
            r == self.spec_backend_kind(),
    {
        self.backend_kind
    }
}

}

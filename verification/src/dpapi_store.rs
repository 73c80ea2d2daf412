//! The key-store side of the DPAPI backend: which file, lock and DPAPI calls an
//! operation makes, in which order, and what comes of their outcomes.
//!
//! An operation is a value that names the call it waits for. The caller performs
//! that call and hands the reply to `advance`, until there is a result.

use crate::crypto;
use crate::dpapi_encrypt::{self, check_format, decrypt, encrypt, SecretKey};
use crate::error::{Error, ErrorView};
use crate::secret::SecretBytes;
use crate::text::{self, concat};
use crate::types::{AccessPolicy, KeyType};
use vstd::prelude::*;

verus! {

/// `std::path::PathBuf`, carried through as it is.
#[verifier::external_type_specification]
#[verifier::external_body]
pub struct ExPathBuf(std::path::PathBuf);

/// A call on the key directory or on DPAPI.
#[derive(Clone, Copy, Debug, PartialEq, Eq, Structural)]
pub enum StoreCall {
    /// Create the key directory where it is missing.
    EnsureDir,
    /// Lock the key directory until the operation is over.
    Lock,
    /// Whether the label's key file exists.
    KeyFileExists,
    /// Whether the label has any other file.
    KeyFilesExist,
    /// Protect the secret key with DPAPI, as `dpapi_encrypt_key`.
    Protect,
    /// Write the protected key to the key file, atomically.
    WriteKeyFile,
    /// Restrict the key file to its owner.
    RestrictKeyFile,
    /// Write the public key beside it.
    SavePublicKey,
    /// Load or create the application's metadata key.
    LoadHmacKey,
    /// Write the metadata.
    SaveMeta,
    /// Write the metadata, authenticated with the metadata key.
    SaveMetaWithHmac,
    /// Remove the key file.
    RemoveKeyFile,
    /// Remove the label's other files.
    DeleteKeyFiles,
    /// Read the saved public key.
    LoadPublicKey,
    /// Read the key file, without following links.
    ReadKeyFile,
    /// Undo the DPAPI protection, as `dpapi_decrypt_key`.
    Unprotect,
}

/// What a call returned.
pub enum StoreReply {
    Done,
    Found(bool),
    Bytes(Vec<u8>),
    HmacKey(Option<SecretBytes>),
    /// The file to read does not exist.
    Missing,
    Failed(Error),
}

/// The mathematical content of a [`StoreReply`].
pub enum ReplyView {
    Done,
    Found(bool),
    Bytes(Seq<u8>),
    HmacKey(Option<Seq<u8>>),
    Missing,
    Failed(ErrorView),
}

impl View for StoreReply {
    type V = ReplyView;

    open spec fn view(&self) -> ReplyView {
        match self {
            StoreReply::Done => ReplyView::Done,
            StoreReply::Found(b) => ReplyView::Found(*b),
            StoreReply::Bytes(v) => ReplyView::Bytes(v@),
            StoreReply::HmacKey(k) => ReplyView::HmacKey(
                match k {
                    Some(k) => Some(k@),
                    None => None,
                },
            ),
            StoreReply::Missing => ReplyView::Missing,
            StoreReply::Failed(e) => ReplyView::Failed(e@),
        }
    }
}

/// The replies that a call can have.
pub open spec fn replies_to(call: StoreCall, reply: ReplyView) -> bool {
    match call {
        StoreCall::KeyFileExists => reply is Found,
        StoreCall::KeyFilesExist => reply is Found || reply is Failed,
        StoreCall::Protect => reply is Bytes || reply is Failed,
        StoreCall::LoadHmacKey => reply is HmacKey || reply is Failed,
        StoreCall::LoadPublicKey => reply is Bytes || reply is Failed,
        StoreCall::ReadKeyFile => reply is Bytes || reply is Missing || reply is Failed,
        StoreCall::Unprotect => reply is Bytes || reply is Failed,
        _ => reply is Done || reply is Failed,
    }
}

/// The software ECIES backend of one application.
#[derive(Debug)]
pub struct DpapiEncryptor {
    app_name: String,
    keys_dir_override: Option<std::path::PathBuf>,
}

impl DpapiEncryptor {
    pub closed spec fn spec_app_name(&self) -> Seq<char> {
        self.app_name@
    }

    pub closed spec fn spec_keys_dir(&self) -> Option<std::path::PathBuf> {
        self.keys_dir_override
    }

    /// The backend with its keys in the application's default directory.
    pub fn new(app_name: &str) -> (r: Self)
        ensures
            r.spec_app_name() == app_name@,
            r.spec_keys_dir() is None,
    {
        Self { app_name: app_name.to_owned(), keys_dir_override: None }
    }

    /// The backend with its keys in `keys_dir`.
    pub fn with_keys_dir(app_name: &str, keys_dir: std::path::PathBuf) -> (r: Self)
        ensures
            r.spec_app_name() == app_name@,
            r.spec_keys_dir() == Some(keys_dir),
    {
        Self { app_name: app_name.to_owned(), keys_dir_override: Some(keys_dir) }
    }

    /// The application's name.
    pub fn app_name(&self) -> (r: &str)
        ensures
            r@ == self.spec_app_name(),
    {
        self.app_name.as_str()
    }

    /// The key directory: the one that was given, or else `default_dir`.
    pub fn keys_dir<'a>(&'a self, default_dir: &'a std::path::PathBuf) -> (r:
        &'a std::path::PathBuf)
        ensures
            *r == match self.spec_keys_dir() {
                Some(dir) => dir,
                None => *default_dir,
            },
    {
        match &self.keys_dir_override {
            Some(dir) => dir,
            None => default_dir,
        }
    }

    /// The name of the label's key file in the key directory.
    pub fn key_path(&self, label: &str) -> (r: String)
        ensures
            r@ == label@ + ".key"@,
    {
        concat(label, ".key")
    }

    /// Software keys can always be had.
    pub fn is_available(&self) -> (r: bool)
        ensures
            r,
    {
        true
    }
}

/// Generation of a new key pair.
pub struct Generation {
    label: String,
    key_type: KeyType,
    policy: AccessPolicy,
    call: StoreCall,
    secret: Option<SecretKey>,
    public_key: Vec<u8>,
    protected: Vec<u8>,
    hmac_key: Option<SecretBytes>,
}

/// The mathematical content of a [`Generation`].
#[verifier::ext_equal]
pub struct GenerationView {
    pub label: Seq<char>,
    pub key_type: KeyType,
    pub policy: AccessPolicy,
    /// The call that is waited for.
    pub call: StoreCall,
    /// The new secret key, once there is one.
    pub secret: Option<Seq<u8>>,
    /// Its public key.
    pub public_key: Seq<u8>,
    /// Its protected form, once DPAPI has made it.
    pub protected: Seq<u8>,
    pub hmac_key: Option<Seq<u8>>,
}

impl View for Generation {
    type V = GenerationView;

    closed spec fn view(&self) -> GenerationView {
        GenerationView {
            label: self.label@,
            key_type: self.key_type,
            policy: self.policy,
            call: self.call,
            secret: match self.secret {
                Some(s) => Some(s@),
                None => None,
            },
            public_key: self.public_key@,
            protected: self.protected@,
            hmac_key: match self.hmac_key {
                Some(k) => Some(k@),
                None => None,
            },
        }
    }
}

impl GenerationView {
    /// The calls of a generation.
    pub open spec fn wf(self) -> bool {
        match self.call {
            StoreCall::EnsureDir | StoreCall::Lock | StoreCall::KeyFileExists
            | StoreCall::KeyFilesExist | StoreCall::Protect | StoreCall::WriteKeyFile
            | StoreCall::RestrictKeyFile | StoreCall::SavePublicKey | StoreCall::LoadHmacKey
            | StoreCall::SaveMeta | StoreCall::SaveMetaWithHmac => true,
            _ => false,
        }
    }

    /// A key pair exists from the time the label is known to be unused, and the
    /// metadata key from the time it was found.
    pub open spec fn supplied(self) -> bool {
        match self.call {
            StoreCall::EnsureDir | StoreCall::Lock | StoreCall::KeyFileExists
            | StoreCall::KeyFilesExist => self.secret is None,
            StoreCall::SaveMetaWithHmac => self.has_pair() && self.hmac_key is Some,
            _ => self.has_pair(),
        }
    }

    /// The key pair is a pair.
    pub open spec fn has_pair(self) -> bool {
        &&& self.secret is Some
        &&& crypto::p256_secret(self.secret->0)
        &&& self.public_key == crypto::p256_public(self.secret->0)
        &&& self.public_key.len() == crypto::POINT_LEN
        &&& crypto::sec1_shaped(self.public_key)
        &&& crypto::p256_point(self.public_key)
    }

    /// The result, where the reply brings it: a failed call is passed on, a
    /// file of the same label is a duplicate, and the metadata goes last.
    pub open spec fn outcome(self, reply: ReplyView) -> Option<Result<Seq<u8>, ErrorView>> {
        match (self.call, reply) {
            (_, ReplyView::Failed(e)) => Some(Err(e)),
            (_, ReplyView::Found(true)) => Some(
                Err(ErrorView::DuplicateLabel { label: self.label }),
            ),
            (StoreCall::SaveMeta, _) => Some(Ok(self.public_key)),
            (StoreCall::SaveMetaWithHmac, _) => Some(Ok(self.public_key)),
            _ => None,
        }
    }

    /// The call after this one.
    pub open spec fn next_call(self, reply: ReplyView) -> StoreCall {
        match (self.call, reply) {
            (StoreCall::EnsureDir, _) => StoreCall::Lock,
            (StoreCall::Lock, _) => StoreCall::KeyFileExists,
            (StoreCall::KeyFileExists, _) => StoreCall::KeyFilesExist,
            (StoreCall::KeyFilesExist, _) => StoreCall::Protect,
            (StoreCall::Protect, _) => StoreCall::WriteKeyFile,
            (StoreCall::WriteKeyFile, _) => StoreCall::RestrictKeyFile,
            (StoreCall::RestrictKeyFile, _) => StoreCall::SavePublicKey,
            (StoreCall::SavePublicKey, _) => StoreCall::LoadHmacKey,
            (StoreCall::LoadHmacKey, ReplyView::HmacKey(Some(_))) => StoreCall::SaveMetaWithHmac,
            _ => StoreCall::SaveMeta,
        }
    }

    /// The operation after a reply that brings no result. The pair that is made
    /// once the label is known to be unused is `pair`.
    pub open spec fn next(self, reply: ReplyView, pair: (Seq<u8>, Seq<u8>)) -> GenerationView {
        let moved = GenerationView { call: self.next_call(reply), ..self };
        match (self.call, reply) {
            (StoreCall::KeyFilesExist, _) => GenerationView {
                secret: Some(pair.0),
                public_key: pair.1,
                ..moved
            },
            (StoreCall::Protect, ReplyView::Bytes(b)) => GenerationView { protected: b, ..moved },
            (StoreCall::LoadHmacKey, ReplyView::HmacKey(k)) => GenerationView {
                hmac_key: k,
                ..moved
            },
            _ => moved,
        }
    }
}

/// A result by its view.
pub open spec fn opt_bytes_result(r: Option<Result<Vec<u8>, Error>>) -> Option<
    Result<Seq<u8>, ErrorView>,
> {
    match r {
        None => None,
        Some(r) => Some(dpapi_encrypt::bytes_result(r)),
    }
}

impl DpapiEncryptor {
    /// Begin to generate a key pair. `valid` is the verdict on the label.
    pub fn generate(
        &self,
        label: &str,
        valid: Result<(), Error>,
        key_type: KeyType,
        policy: AccessPolicy,
    ) -> (r: Result<Generation, Error>)
        ensures
            r is Ok <==> valid is Ok && key_type == KeyType::Encryption,
            r matches Ok(g) ==> g@.wf() && g@.supplied() && g@.label == label@ && g@.key_type == key_type
                && g@.policy == policy && g@.call == StoreCall::EnsureDir && g@.hmac_key is None,
            r matches Err(e) ==> e@ == match valid {
                Err(bad) => bad@,
                Ok(_) => ErrorView::KeyOperation {
                    operation: "generate"@,
                    detail: "DpapiEncryptor only supports encryption keys"@,
                },
            },
    {
        match valid {
            Ok(()) => {},
            Err(e) => {
                return Err(e);
            },
        }
        if key_type != KeyType::Encryption {
            return Err(
                Error::KeyOperation {
                    operation: "generate".to_owned(),
                    detail: "DpapiEncryptor only supports encryption keys".to_owned(),
                },
            );
        }
        Ok(
            Generation {
                label: label.to_owned(),
                key_type,
                policy,
                call: StoreCall::EnsureDir,
                secret: None,
                public_key: Vec::new(),
                protected: Vec::new(),
                hmac_key: None,
            },
        )
    }
}

impl Generation {
    /// The call to perform.
    pub fn call(&self) -> (r: StoreCall)
        ensures
            r == self@.call,
    {
        self.call
    }

    /// The label of the new key.
    pub fn label(&self) -> (r: &str)
        ensures
            r@ == self@.label,
    {
        self.label.as_str()
    }

    /// What the new key is for.
    pub fn key_type(&self) -> (r: KeyType)
        ensures
            r == self@.key_type,
    {
        self.key_type
    }

    /// The access policy of the new key.
    pub fn policy(&self) -> (r: AccessPolicy)
        ensures
            r == self@.policy,
    {
        self.policy
    }

    /// The secret key to protect, once there is one.
    pub fn secret(&self) -> (r: Option<&[u8]>)
        ensures
            match self@.secret {
                Some(s) => r is Some && r->0@ == s,
                None => r is None,
            },
    {
        match &self.secret {
            Some(s) => Some(s.as_slice()),
            None => None,
        }
    }

    /// The public key to save.
    pub fn public_key(&self) -> (r: &[u8])
        ensures
            r@ == self@.public_key,
    {
        self.public_key.as_slice()
    }

    /// The protected key to write.
    pub fn protected(&self) -> (r: &[u8])
        ensures
            r@ == self@.protected,
    {
        self.protected.as_slice()
    }

    /// The metadata key, where the application has one.
    pub fn hmac_key(&self) -> (r: Option<&[u8]>)
        ensures
            match self@.hmac_key {
                Some(k) => r is Some && r->0@ == k,
                None => r is None,
            },
    {
        match &self.hmac_key {
            Some(k) => Some(k.as_slice()),
            None => None,
        }
    }

    /// Take the reply to the call. A result ends the operation: the public key,
    /// or why no key was made.
    pub fn advance(&mut self, reply: StoreReply) -> (r: Option<Result<Vec<u8>, Error>>)
        requires
            old(self)@.wf(),
            replies_to(old(self)@.call, reply@),
        ensures
            opt_bytes_result(r) == old(self)@.outcome(reply@),
            r is Some ==> final(self)@ == old(self)@,
            r is None ==> final(self)@.wf() && final(self)@ == old(self)@.next(
                reply@,
                (final(self)@.secret->0, final(self)@.public_key),
            ),
            old(self)@.supplied() ==> final(self)@.supplied(),
    {
        match reply {
            StoreReply::Failed(e) => {
                return Some(Err(e));
            },
            StoreReply::Found(true) => {
                return Some(Err(Error::DuplicateLabel { label: self.label.as_str().to_owned() }));
            },
            StoreReply::Bytes(b) => {
                self.protected = b;
            },
            StoreReply::HmacKey(Some(k)) => {
                self.hmac_key = Some(k);
                self.call = StoreCall::SaveMetaWithHmac;
                return None;
            },
            StoreReply::HmacKey(None) => {
                self.hmac_key = None;
            },
            _ => {},
        }
        match self.call {
            StoreCall::EnsureDir => {
                self.call = StoreCall::Lock;
            },
            StoreCall::Lock => {
                self.call = StoreCall::KeyFileExists;
            },
            StoreCall::KeyFileExists => {
                self.call = StoreCall::KeyFilesExist;
            },
            StoreCall::KeyFilesExist => {
                let secret = SecretKey::random();
                self.public_key = secret.public_key();
                self.secret = Some(secret);
                self.call = StoreCall::Protect;
            },
            StoreCall::Protect => {
                self.call = StoreCall::WriteKeyFile;
            },
            StoreCall::WriteKeyFile => {
                self.call = StoreCall::RestrictKeyFile;
            },
            StoreCall::RestrictKeyFile => {
                self.call = StoreCall::SavePublicKey;
            },
            StoreCall::SavePublicKey => {
                self.call = StoreCall::LoadHmacKey;
            },
            StoreCall::LoadHmacKey => {
                self.call = StoreCall::SaveMeta;
            },
            _ => {
                return Some(Ok(self.public_key.clone()));
            },
        }
        None
    }
}

/// Deletion of a key.
pub struct Deletion {
    label: String,
    call: StoreCall,
    locked: bool,
}

/// The mathematical content of a [`Deletion`].
#[verifier::ext_equal]
pub struct DeletionView {
    pub label: Seq<char>,
    /// The call that is waited for.
    pub call: StoreCall,
    /// The key directory is locked.
    pub locked: bool,
}

impl View for Deletion {
    type V = DeletionView;

    closed spec fn view(&self) -> DeletionView {
        DeletionView { label: self.label@, call: self.call, locked: self.locked }
    }
}

impl DeletionView {
    /// Files are looked for with and without the lock, and removed under it.
    pub open spec fn wf(self) -> bool {
        match self.call {
            StoreCall::KeyFileExists => true,
            StoreCall::KeyFilesExist | StoreCall::Lock => !self.locked,
            StoreCall::RemoveKeyFile | StoreCall::DeleteKeyFiles => self.locked,
            _ => false,
        }
    }

    /// The result, where the reply brings it. A label without any file is not
    /// found. Once the key file is gone, it does not matter whether there were
    /// other files.
    pub open spec fn outcome(self, reply: ReplyView) -> Option<Result<(), ErrorView>> {
        match (self.call, reply) {
            (StoreCall::DeleteKeyFiles, ReplyView::Failed(ErrorView::KeyNotFound { .. })) => Some(
                Ok(()),
            ),
            (_, ReplyView::Failed(e)) => Some(Err(e)),
            (StoreCall::DeleteKeyFiles, _) => Some(Ok(())),
            (StoreCall::KeyFilesExist, ReplyView::Found(false)) => Some(
                Err(ErrorView::KeyNotFound { label: self.label }),
            ),
            _ => None,
        }
    }

    /// The operation after a reply that brings no result.
    pub open spec fn next(self, reply: ReplyView) -> DeletionView {
        match (self.call, reply) {
            (StoreCall::KeyFileExists, ReplyView::Found(found)) => DeletionView {
                call: match (self.locked, found) {
                    (false, true) => StoreCall::Lock,
                    (false, false) => StoreCall::KeyFilesExist,
                    (true, true) => StoreCall::RemoveKeyFile,
                    (true, false) => StoreCall::DeleteKeyFiles,
                },
                ..self
            },
            (StoreCall::KeyFilesExist, _) => DeletionView { call: StoreCall::Lock, ..self },
            (StoreCall::Lock, _) => DeletionView {
                call: StoreCall::KeyFileExists,
                locked: true,
                ..self
            },
            _ => DeletionView { call: StoreCall::DeleteKeyFiles, ..self },
        }
    }
}

/// A result by its view.
pub open spec fn opt_unit_result(r: Option<Result<(), Error>>) -> Option<Result<(), ErrorView>> {
    match r {
        None => None,
        Some(Ok(_)) => Some(Ok(())),
        Some(Err(e)) => Some(Err(e@)),
    }
}

impl DpapiEncryptor {
    /// Begin to delete a key. `valid` is the verdict on the label.
    pub fn delete_key(&self, label: &str, valid: Result<(), Error>) -> (r: Result<Deletion, Error>)
        ensures
            r is Ok <==> valid is Ok,
            r matches Ok(d) ==> d@ == (DeletionView {
                label: label@,
                call: StoreCall::KeyFileExists,
                locked: false,
            }),
            r matches Err(e) ==> e == valid->Err_0,
    {
        match valid {
            Ok(()) => Ok(
                Deletion {
                    label: label.to_owned(),
                    call: StoreCall::KeyFileExists,
                    locked: false,
                },
            ),
            Err(e) => Err(e),
        }
    }
}

impl Deletion {
    /// The call to perform.
    pub fn call(&self) -> (r: StoreCall)
        ensures
            r == self@.call,
    {
        self.call
    }

    /// Take the reply to the call. A result ends the operation.
    pub fn advance(&mut self, reply: StoreReply) -> (r: Option<Result<(), Error>>)
        requires
            old(self)@.wf(),
            replies_to(old(self)@.call, reply@),
        ensures
            opt_unit_result(r) == old(self)@.outcome(reply@),
            r is Some ==> final(self)@ == old(self)@,
            r is None ==> final(self)@.wf() && final(self)@ == old(self)@.next(reply@),
    {
        match reply {
            StoreReply::Failed(e) => {
                if let StoreCall::DeleteKeyFiles = self.call {
                    if let Error::KeyNotFound { .. } = e {
                        return Some(Ok(()));
                    }
                }
                return Some(Err(e));
            },
            _ => {},
        }
        let found: bool = match reply {
            StoreReply::Found(b) => b,
            _ => false,
        };
        match self.call {
            StoreCall::KeyFileExists => {
                self.call = match (self.locked, found) {
                    (false, true) => StoreCall::Lock,
                    (false, false) => StoreCall::KeyFilesExist,
                    (true, true) => StoreCall::RemoveKeyFile,
                    (true, false) => StoreCall::DeleteKeyFiles,
                };
            },
            StoreCall::KeyFilesExist => {
                if !found {
                    return Some(
                        Err(Error::KeyNotFound { label: self.label.as_str().to_owned() }),
                    );
                }
                self.call = StoreCall::Lock;
            },
            StoreCall::Lock => {
                self.call = StoreCall::KeyFileExists;
                self.locked = true;
            },
            StoreCall::DeleteKeyFiles => {
                return Some(Ok(()));
            },
            _ => {
                self.call = StoreCall::DeleteKeyFiles;
            },
        }
        None
    }
}

/// Loading of a label's secret key from its key file.
pub struct KeyLoad {
    label: String,
    call: StoreCall,
    protected: Vec<u8>,
}

/// The mathematical content of a [`KeyLoad`].
#[verifier::ext_equal]
pub struct KeyLoadView {
    pub label: Seq<char>,
    /// The call that is waited for.
    pub call: StoreCall,
    /// What the key file holds, once it has been read.
    pub protected: Seq<u8>,
}

impl View for KeyLoad {
    type V = KeyLoadView;

    closed spec fn view(&self) -> KeyLoadView {
        KeyLoadView { label: self.label@, call: self.call, protected: self.protected@ }
    }
}

impl KeyLoadView {
    /// The file is read, then unprotected.
    pub open spec fn wf(self) -> bool {
        self.call == StoreCall::ReadKeyFile || self.call == StoreCall::Unprotect
    }

    /// The result, where the reply brings it: a missing key file is a missing
    /// key, other failures are passed on, and the unprotected bytes must be a
    /// secret key.
    pub open spec fn outcome(self, reply: ReplyView) -> Option<Result<Seq<u8>, ErrorView>> {
        match (self.call, reply) {
            (_, ReplyView::Failed(e)) => Some(Err(e)),
            (_, ReplyView::Missing) => Some(Err(ErrorView::KeyNotFound { label: self.label })),
            (StoreCall::Unprotect, ReplyView::Bytes(b)) => Some(
                if crypto::p256_secret(b) {
                    Ok(b)
                } else {
                    Err(dpapi_encrypt::key_error(b))
                },
            ),
            _ => None,
        }
    }

    /// The operation after a reply that brings no result.
    pub open spec fn next(self, reply: ReplyView) -> KeyLoadView {
        KeyLoadView {
            call: StoreCall::Unprotect,
            protected: match reply {
                ReplyView::Bytes(b) => b,
                _ => self.protected,
            },
            ..self
        }
    }
}

/// The beginning of a key load.
pub open spec fn fresh_load(label: Seq<char>) -> KeyLoadView {
    KeyLoadView { label, call: StoreCall::ReadKeyFile, protected: Seq::empty() }
}

/// Begin to load the secret key of `label`.
pub fn load_secret_key(label: &str) -> (r: KeyLoad)
    ensures
        r@ == fresh_load(label@),
{
    let protected: Vec<u8> = Vec::new();
    assert(protected@ =~= Seq::<u8>::empty());
    KeyLoad { label: label.to_owned(), call: StoreCall::ReadKeyFile, protected }
}

/// A result by its view.
pub open spec fn opt_key_result(r: Option<Result<SecretKey, Error>>) -> Option<
    Result<Seq<u8>, ErrorView>,
> {
    match r {
        None => None,
        Some(Ok(k)) => Some(Ok(k@)),
        Some(Err(e)) => Some(Err(e@)),
    }
}

impl KeyLoad {
    /// The call to perform.
    pub fn call(&self) -> (r: StoreCall)
        ensures
            r == self@.call,
    {
        self.call
    }

    /// What the key file holds, to be unprotected.
    pub fn protected(&self) -> (r: &[u8])
        ensures
            r@ == self@.protected,
    {
        self.protected.as_slice()
    }

    /// Take the reply to the call. A result ends the operation.
    pub fn advance(&mut self, reply: StoreReply) -> (r: Option<Result<SecretKey, Error>>)
        requires
            old(self)@.wf(),
            replies_to(old(self)@.call, reply@),
        ensures
            opt_key_result(r) == old(self)@.outcome(reply@),
            r is Some ==> final(self)@ == old(self)@,
            r is None ==> final(self)@.wf() && final(self)@ == old(self)@.next(reply@),
    {
        match reply {
            StoreReply::Failed(e) => Some(Err(e)),
            StoreReply::Missing => Some(
                Err(Error::KeyNotFound { label: self.label.as_str().to_owned() }),
            ),
            StoreReply::Bytes(b) => {
                if let StoreCall::Unprotect = self.call {
                    Some(SecretKey::from_bytes(SecretBytes::new(b)))
                } else {
                    self.protected = b;
                    self.call = StoreCall::Unprotect;
                    None
                }
            },
            _ => None,
        }
    }
}

/// Lookup of a label's public key.
pub struct PublicKeyLookup {
    load: KeyLoad,
    saved: bool,
}

/// The mathematical content of a [`PublicKeyLookup`].
#[verifier::ext_equal]
pub struct LookupView {
    /// The saved public key is still to be tried.
    pub saved: bool,
    /// The secret key to derive it from otherwise.
    pub load: KeyLoadView,
}

impl View for PublicKeyLookup {
    type V = LookupView;

    closed spec fn view(&self) -> LookupView {
        LookupView { saved: self.saved, load: self.load@ }
    }
}

impl LookupView {
    pub open spec fn wf(self) -> bool {
        self.load.wf()
    }

    /// The call that is waited for.
    pub open spec fn call(self) -> StoreCall {
        if self.saved {
            StoreCall::LoadPublicKey
        } else {
            self.load.call
        }
    }

    /// The result, where the reply brings it: the saved public key, or else the
    /// public key of the stored secret key.
    pub open spec fn outcome(self, reply: ReplyView) -> Option<Result<Seq<u8>, ErrorView>> {
        if self.saved {
            match reply {
                ReplyView::Bytes(b) => Some(Ok(b)),
                _ => None,
            }
        } else {
            match self.load.outcome(reply) {
                None => None,
                Some(Err(e)) => Some(Err(e)),
                Some(Ok(secret)) => Some(Ok(crypto::p256_public(secret))),
            }
        }
    }

    /// The operation after a reply that brings no result.
    pub open spec fn next(self, reply: ReplyView) -> LookupView {
        if self.saved {
            LookupView { saved: false, ..self }
        } else {
            LookupView { load: self.load.next(reply), ..self }
        }
    }
}

/// The beginning of a lookup.
pub open spec fn fresh_lookup(label: Seq<char>) -> LookupView {
    LookupView { saved: true, load: fresh_load(label) }
}

impl DpapiEncryptor {
    /// Begin to look up a public key. `valid` is the verdict on the label.
    pub fn public_key(&self, label: &str, valid: Result<(), Error>) -> (r: Result<
        PublicKeyLookup,
        Error,
    >)
        ensures
            r is Ok <==> valid is Ok,
            r matches Ok(l) ==> l@ == fresh_lookup(label@),
            r matches Err(e) ==> e == valid->Err_0,
    {
        match valid {
            Ok(()) => Ok(PublicKeyLookup { load: load_secret_key(label), saved: true }),
            Err(e) => Err(e),
        }
    }
}

impl PublicKeyLookup {
    /// The call to perform.
    pub fn call(&self) -> (r: StoreCall)
        ensures
            r == self@.call(),
    {
        if self.saved {
            StoreCall::LoadPublicKey
        } else {
            self.load.call()
        }
    }

    /// What the key file holds, to be unprotected.
    pub fn protected(&self) -> (r: &[u8])
        ensures
            r@ == self@.load.protected,
    {
        self.load.protected()
    }

    /// Take the reply to the call. A result ends the operation.
    pub fn advance(&mut self, reply: StoreReply) -> (r: Option<Result<Vec<u8>, Error>>)
        requires
            old(self)@.wf(),
            replies_to(old(self)@.call(), reply@),
        ensures
            opt_bytes_result(r) == old(self)@.outcome(reply@),
            r is Some ==> final(self)@ == old(self)@,
            r is None ==> final(self)@.wf() && final(self)@ == old(self)@.next(reply@),
    {
        if self.saved {
            match reply {
                StoreReply::Bytes(b) => Some(Ok(b)),
                _ => {
                    self.saved = false;
                    None
                },
            }
        } else {
            match self.load.advance(reply) {
                None => None,
                Some(Err(e)) => Some(Err(e)),
                Some(Ok(secret)) => Some(Ok(secret.public_key())),
            }
        }
    }
}

/// Encryption for a label.
pub struct Encryption {
    lookup: PublicKeyLookup,
}

impl View for Encryption {
    type V = LookupView;

    closed spec fn view(&self) -> LookupView {
        self.lookup@
    }
}

impl DpapiEncryptor {
    /// Begin to encrypt for a label. `valid` is the verdict on the label.
    pub fn encrypt(&self, label: &str, valid: Result<(), Error>) -> (r: Result<Encryption, Error>)
        ensures
            r is Ok <==> valid is Ok,
            r matches Ok(l) ==> l@ == fresh_lookup(label@),
            r matches Err(e) ==> e == valid->Err_0,
    {
        match self.public_key(label, valid) {
            Ok(lookup) => Ok(Encryption { lookup }),
            Err(e) => Err(e),
        }
    }
}

impl Encryption {
    /// The call to perform.
    pub fn call(&self) -> (r: StoreCall)
        ensures
            r == self@.call(),
    {
        self.lookup.call()
    }

    /// What the key file holds, to be unprotected.
    pub fn protected(&self) -> (r: &[u8])
        ensures
            r@ == self@.load.protected,
    {
        self.lookup.protected()
    }

    /// Take the reply to the call. A result ends the operation: the ciphertext
    /// of `plaintext` for the public key that was looked up.
    pub fn advance(&mut self, reply: StoreReply, plaintext: &[u8]) -> (r: Option<
        Result<Vec<u8>, Error>,
    >)
        requires
            old(self)@.wf(),
            replies_to(old(self)@.call(), reply@),
        ensures
            match old(self)@.outcome(reply@) {
                None => r is None,
                Some(Err(e)) => opt_bytes_result(r) == Some(Err::<Seq<u8>, ErrorView>(e)),
                Some(Ok(public)) => match dpapi_encrypt::encrypt_error(public, plaintext@) {
                    Some(e) => opt_bytes_result(r) == Some(Err::<Seq<u8>, ErrorView>(e)),
                    None => r is Some && r->0 is Ok && dpapi_encrypt::encrypted_for(
                        public,
                        plaintext@,
                        r->0->Ok_0@,
                    ),
                },
            },
            r is Some ==> final(self)@ == old(self)@,
            r is None ==> final(self)@.wf() && final(self)@ == old(self)@.next(reply@),
    {
        match self.lookup.advance(reply) {
            None => None,
            Some(Err(e)) => Some(Err(e)),
            Some(Ok(public)) => Some(encrypt(public.as_slice(), plaintext)),
        }
    }
}

/// Decryption for a label.
pub struct Decryption {
    load: KeyLoad,
}

impl View for Decryption {
    type V = KeyLoadView;

    closed spec fn view(&self) -> KeyLoadView {
        self.load@
    }
}

impl DpapiEncryptor {
    /// Begin to decrypt `ciphertext`. `valid` is the verdict on the label. The
    /// format is checked before any file is touched.
    pub fn decrypt(&self, label: &str, valid: Result<(), Error>, ciphertext: &[u8]) -> (r: Result<
        Decryption,
        Error,
    >)
        ensures
            r is Ok <==> valid is Ok && dpapi_encrypt::format_error(ciphertext@) is None,
            r matches Ok(l) ==> l@ == fresh_load(label@),
            r matches Err(e) ==> e@ == match valid {
                Err(bad) => bad@,
                Ok(_) => dpapi_encrypt::format_error(ciphertext@)->0,
            },
    {
        match valid {
            Ok(()) => match check_format(ciphertext) {
                Ok(()) => Ok(Decryption { load: load_secret_key(label) }),
                Err(e) => Err(e),
            },
            Err(e) => Err(e),
        }
    }
}

impl Decryption {
    /// The call to perform.
    pub fn call(&self) -> (r: StoreCall)
        ensures
            r == self@.call,
    {
        self.load.call()
    }

    /// What the key file holds, to be unprotected.
    pub fn protected(&self) -> (r: &[u8])
        ensures
            r@ == self@.protected,
    {
        self.load.protected()
    }

    /// Take the reply to the call. A result ends the operation: what
    /// `ciphertext` decrypts to under the key that was loaded.
    pub fn advance(&mut self, reply: StoreReply, ciphertext: &[u8]) -> (r: Option<
        Result<Vec<u8>, Error>,
    >)
        requires
            old(self)@.wf(),
            replies_to(old(self)@.call, reply@),
        ensures
            match old(self)@.outcome(reply@) {
                None => r is None,
                Some(Err(e)) => opt_bytes_result(r) == Some(Err::<Seq<u8>, ErrorView>(e)),
                Some(Ok(secret)) => r is Some && dpapi_encrypt::decrypts(
                    secret,
                    ciphertext@,
                    dpapi_encrypt::bytes_result(r->0),
                ),
            },
            r is Some ==> final(self)@ == old(self)@,
            r is None ==> final(self)@.wf() && final(self)@ == old(self)@.next(reply@),
    {
        match self.load.advance(reply) {
            None => None,
            Some(Err(e)) => Some(Err(e)),
            Some(Ok(secret)) => Some(decrypt(&secret, ciphertext)),
        }
    }
}

impl GenerationView {
    /// How many calls a generation still makes, at most.
    pub open spec fn calls_left(self) -> int {
        match self.call {
            StoreCall::EnsureDir => 10,
            StoreCall::Lock => 9,
            StoreCall::KeyFileExists => 8,
            StoreCall::KeyFilesExist => 7,
            StoreCall::Protect => 6,
            StoreCall::WriteKeyFile => 5,
            StoreCall::RestrictKeyFile => 4,
            StoreCall::SavePublicKey => 3,
            StoreCall::LoadHmacKey => 2,
            _ => 1,
        }
    }
}

impl DeletionView {
    /// How many calls a deletion still makes, at most.
    pub open spec fn calls_left(self) -> int {
        match self.call {
            StoreCall::KeyFileExists => if self.locked {
                3
            } else {
                6
            },
            StoreCall::KeyFilesExist => 5,
            StoreCall::Lock => 4,
            StoreCall::RemoveKeyFile => 2,
            _ => 1,
        }
    }
}

/// A generation goes through its calls in a fixed order, each at most once, and
/// ends. It writes nothing before both searches for the label found nothing, and
/// what it writes to the key file is what DPAPI returned.
pub proof fn law_generation_order(g: GenerationView, reply: ReplyView, pair: (Seq<u8>, Seq<u8>))
    requires
        g.wf(),
        replies_to(g.call, reply),
    ensures
        g.outcome(reply) is None ==> g.next(reply, pair).calls_left() == g.calls_left() - 1,
        g.calls_left() == 1 ==> g.outcome(reply) is Some,
        g.outcome(reply) is None && g.next(reply, pair).call == StoreCall::Protect ==> g.call
            == StoreCall::KeyFilesExist && reply == ReplyView::Found(false),
        g.outcome(reply) is None && g.next(reply, pair).call == StoreCall::KeyFilesExist ==> g.call
            == StoreCall::KeyFileExists && reply == ReplyView::Found(false),
        g.outcome(reply) is None && g.next(reply, pair).call == StoreCall::WriteKeyFile ==> reply
            == ReplyView::Bytes(g.next(reply, pair).protected),
{
}

/// A deletion ends, removes files under the lock only, and fails for a label
/// without files before it locks anything.
pub proof fn law_deletion_order(d: DeletionView, reply: ReplyView)
    requires
        d.wf(),
        replies_to(d.call, reply),
    ensures
        d.outcome(reply) is None ==> d.next(reply).calls_left() < d.calls_left(),
        d.calls_left() == 1 ==> d.outcome(reply) is Some,
        d.call == StoreCall::RemoveKeyFile || d.call == StoreCall::DeleteKeyFiles ==> d.locked,
        d.outcome(reply) is Some && d.call == StoreCall::KeyFilesExist ==> !d.locked,
{
}

/// Encryption for the public key that a generation returns fails only for a
/// plaintext that is too long, and what was encrypted is decrypted with the
/// secret key that the generation stored.
pub proof fn law_generated_key_decrypts(
    g: GenerationView,
    reply: ReplyView,
    plaintext: Seq<u8>,
    ciphertext: Seq<u8>,
    r: Result<Seq<u8>, ErrorView>,
)
    requires
        g.wf(),
        g.supplied(),
        g.outcome(reply) is Some,
        g.outcome(reply)->0 is Ok,
        dpapi_encrypt::decrypts(g.secret->0, ciphertext, r),
    ensures
        plaintext.len() <= crypto::max_plaintext() ==> dpapi_encrypt::encrypt_error(
            g.outcome(reply)->0->Ok_0,
            plaintext,
        ) is None,
        dpapi_encrypt::encrypted_for(g.outcome(reply)->0->Ok_0, plaintext, ciphertext) ==> r
            == Ok::<Seq<u8>, ErrorView>(plaintext),
{
    if dpapi_encrypt::encrypted_for(g.outcome(reply)->0->Ok_0, plaintext, ciphertext) {
        dpapi_encrypt::law_decrypt_undoes_encrypt(g.secret->0, plaintext, ciphertext, r);
    }
}

/// The metadata of a key.
#[verifier::ext_equal]
pub struct MetaView {
    pub key_type: KeyType,
    pub policy: AccessPolicy,
    /// The key that the metadata are authenticated with, if any.
    pub hmac_key: Option<Seq<u8>>,
}

/// The files of one label in the key directory.
#[verifier::ext_equal]
pub struct KeyFiles {
    pub key_file: Option<Seq<u8>>,
    pub public_key: Option<Seq<u8>>,
    pub meta: Option<MetaView>,
}

impl KeyFiles {
    /// The label has no file.
    pub open spec fn none(self) -> bool {
        self.key_file is None && self.public_key is None && self.meta is None
    }

    /// What the call that a generation waits for does to the files.
    pub open spec fn performed(self, g: GenerationView) -> KeyFiles {
        let meta = MetaView { key_type: g.key_type, policy: g.policy, hmac_key: None };
        match g.call {
            StoreCall::WriteKeyFile => KeyFiles { key_file: Some(g.protected), ..self },
            StoreCall::SavePublicKey => KeyFiles { public_key: Some(g.public_key), ..self },
            StoreCall::SaveMeta => KeyFiles { meta: Some(meta), ..self },
            StoreCall::SaveMetaWithHmac => KeyFiles {
                meta: Some(MetaView { hmac_key: g.hmac_key, ..meta }),
                ..self
            },
            _ => self,
        }
    }

    /// `reply` is one that the call can have, and true of the files.
    pub open spec fn answers(self, call: StoreCall, reply: ReplyView) -> bool {
        &&& replies_to(call, reply)
        &&& call == StoreCall::KeyFileExists ==> reply == ReplyView::Found(self.key_file is Some)
        &&& call == StoreCall::KeyFilesExist && reply is Found ==> reply == ReplyView::Found(
            self.public_key is Some || self.meta is Some,
        )
    }

    /// The answer to a call that reads. `secret` is what DPAPI makes of the key
    /// file.
    pub open spec fn read(self, call: StoreCall, secret: Seq<u8>) -> ReplyView {
        match call {
            StoreCall::LoadPublicKey => match self.public_key {
                Some(b) => ReplyView::Bytes(b),
                None => ReplyView::Failed(ErrorView::NotAvailable),
            },
            StoreCall::ReadKeyFile => match self.key_file {
                Some(b) => ReplyView::Bytes(b),
                None => ReplyView::Missing,
            },
            _ => ReplyView::Bytes(secret),
        }
    }
}

/// Where a generation that goes on from `g` ends, with the given replies: the
/// files, and the result if there is one. A call that failed has no effect. `pair`
/// is the pair that is made.
pub open spec fn generation_run(
    g: GenerationView,
    files: KeyFiles,
    replies: Seq<ReplyView>,
    pair: (Seq<u8>, Seq<u8>),
) -> (KeyFiles, Option<Result<Seq<u8>, ErrorView>>)
    decreases replies.len(),
{
    if replies.len() == 0 {
        (files, None)
    } else {
        let reply = replies[0];
        let after = if reply is Failed {
            files
        } else {
            files.performed(g)
        };
        if g.outcome(reply) is Some {
            (after, g.outcome(reply))
        } else {
            generation_run(g.next(reply, pair), after, replies.drop_first(), pair)
        }
    }
}

/// The replies are those that the calls of the generation can have, and true of
/// the files.
pub open spec fn generation_answers(
    g: GenerationView,
    files: KeyFiles,
    replies: Seq<ReplyView>,
    pair: (Seq<u8>, Seq<u8>),
) -> bool
    decreases replies.len(),
{
    replies.len() > 0 ==> {
        let reply = replies[0];
        &&& files.answers(g.call, reply)
        &&& g.outcome(reply) is None ==> generation_answers(
            g.next(reply, pair),
            files.performed(g),
            replies.drop_first(),
            pair,
        )
    }
}

/// The result of a lookup that goes on from `l` and has its calls answered by
/// `files`, if it ends within `steps` calls.
pub open spec fn lookup_run(l: LookupView, files: KeyFiles, secret: Seq<u8>, steps: nat) -> Option<
    Result<Seq<u8>, ErrorView>,
>
    decreases steps,
{
    let reply = files.read(l.call(), secret);
    if steps == 0 {
        None
    } else if l.outcome(reply) is Some {
        l.outcome(reply)
    } else {
        lookup_run(l.next(reply), files, secret, (steps - 1) as nat)
    }
}

/// The result of a key load that goes on from `l` and has its calls answered by
/// `files`, if it ends within `steps` calls.
pub open spec fn load_run(l: KeyLoadView, files: KeyFiles, secret: Seq<u8>, steps: nat) -> Option<
    Result<Seq<u8>, ErrorView>,
>
    decreases steps,
{
    let reply = files.read(l.call, secret);
    if steps == 0 {
        None
    } else if l.outcome(reply) is Some {
        l.outcome(reply)
    } else {
        load_run(l.next(reply), files, secret, (steps - 1) as nat)
    }
}

/// What a generation has done by the time it waits for a call.
spec fn so_far(g: GenerationView, files: KeyFiles, pair: (Seq<u8>, Seq<u8>)) -> bool {
    &&& g.calls_left() <= 6 ==> g.secret == Some(pair.0) && g.public_key == pair.1
    &&& g.calls_left() <= 4 ==> files.key_file is Some
    &&& g.calls_left() <= 2 ==> files.public_key == Some(pair.1)
}

proof fn lemma_generation_run(
    g: GenerationView,
    files: KeyFiles,
    replies: Seq<ReplyView>,
    pair: (Seq<u8>, Seq<u8>),
)
    requires
        g.wf(),
        so_far(g, files, pair),
        generation_answers(g, files, replies, pair),
    ensures
        ({
            let (after, result) = generation_run(g, files, replies, pair);
            result matches Some(Ok(public)) ==> public == pair.1 && after.public_key == Some(public)
                && after.key_file is Some && after.meta is Some
        }),
    decreases replies.len(),
{
    if replies.len() > 0 {
        let reply = replies[0];
        if g.outcome(reply) is None {
            lemma_generation_run(
                g.next(reply, pair),
                files.performed(g),
                replies.drop_first(),
                pair,
            );
        }
    }
}

/// After a generation that succeeded, a later lookup gives the public key that it
/// returned, from the saved file or, should that be lost, from the secret key in
/// the key file.
pub proof fn law_generated_public_key_is_found(
    g: GenerationView,
    files: KeyFiles,
    replies: Seq<ReplyView>,
    pair: (Seq<u8>, Seq<u8>),
    public: Seq<u8>,
    label: Seq<char>,
)
    requires
        g.call == StoreCall::EnsureDir,
        crypto::p256_secret(pair.0),
        pair.1 == crypto::p256_public(pair.0),
        generation_answers(g, files, replies, pair),
        generation_run(g, files, replies, pair).1 == Some(Ok::<Seq<u8>, ErrorView>(public)),
    ensures
        ({
            let after = generation_run(g, files, replies, pair).0;
            &&& lookup_run(fresh_lookup(label), after, pair.0, 1) == Some(
                Ok::<Seq<u8>, ErrorView>(public),
            )
            &&& lookup_run(
                fresh_lookup(label),
                KeyFiles { public_key: None, ..after },
                pair.0,
                3,
            ) == Some(Ok::<Seq<u8>, ErrorView>(public))
        }),
{
    lemma_generation_run(g, files, replies, pair);
    reveal_with_fuel(lookup_run, 4);
}

/// What is encrypted for a label after its key was generated is decrypted again
/// from the stored key, for every plaintext.
pub proof fn law_stored_key_round_trips(
    g: GenerationView,
    files: KeyFiles,
    replies: Seq<ReplyView>,
    pair: (Seq<u8>, Seq<u8>),
    public: Seq<u8>,
    label: Seq<char>,
    plaintext: Seq<u8>,
    ciphertext: Seq<u8>,
    r: Result<Seq<u8>, ErrorView>,
)
    requires
        g.call == StoreCall::EnsureDir,
        crypto::p256_secret(pair.0),
        pair.1 == crypto::p256_public(pair.0),
        generation_answers(g, files, replies, pair),
        generation_run(g, files, replies, pair).1 == Some(Ok::<Seq<u8>, ErrorView>(public)),
        dpapi_encrypt::encrypted_for(public, plaintext, ciphertext),
        dpapi_encrypt::decrypts(pair.0, ciphertext, r),
    ensures
        load_run(fresh_load(label), generation_run(g, files, replies, pair).0, pair.0, 2) == Some(
            Ok::<Seq<u8>, ErrorView>(pair.0),
        ),
        r == Ok::<Seq<u8>, ErrorView>(plaintext),
{
    lemma_generation_run(g, files, replies, pair);
    reveal_with_fuel(load_run, 3);
    dpapi_encrypt::law_decrypt_undoes_encrypt(pair.0, plaintext, ciphertext, r);
}

proof fn lemma_generation_stops(
    g: GenerationView,
    files: KeyFiles,
    replies: Seq<ReplyView>,
    pair: (Seq<u8>, Seq<u8>),
)
    requires
        g.wf(),
        g.calls_left() >= 7,
        g.calls_left() == 7 ==> files.key_file is None,
        !files.none(),
        generation_answers(g, files, replies, pair),
    ensures
        generation_run(g, files, replies, pair).0 == files,
        !(generation_run(g, files, replies, pair).1 matches Some(Ok(_))),
    decreases replies.len(),
{
    if replies.len() > 0 {
        let reply = replies[0];
        if g.outcome(reply) is None {
            lemma_generation_stops(g.next(reply, pair), files, replies.drop_first(), pair);
        }
    }
}

/// A generation for a label that has a file of any kind fails and changes nothing:
/// no key, public key or metadata are stored.
pub proof fn law_refused_generation_stores_nothing(
    g: GenerationView,
    files: KeyFiles,
    replies: Seq<ReplyView>,
    pair: (Seq<u8>, Seq<u8>),
)
    requires
        g.call == StoreCall::EnsureDir,
        !files.none(),
        generation_answers(g, files, replies, pair),
    ensures
        generation_run(g, files, replies, pair).0 == files,
        !(generation_run(g, files, replies, pair).1 matches Some(Ok(_))),
{
    lemma_generation_stops(g, files, replies, pair);
}

impl KeyFiles {
    /// The reply to a call of a deletion, where every call succeeds.
    pub open spec fn deletion_reply(self, call: StoreCall) -> ReplyView {
        match call {
            StoreCall::KeyFileExists => ReplyView::Found(self.key_file is Some),
            StoreCall::KeyFilesExist => ReplyView::Found(
                self.public_key is Some || self.meta is Some,
            ),
            _ => ReplyView::Done,
        }
    }

    /// What a call of a deletion does to the files.
    pub open spec fn deleted_by(self, call: StoreCall) -> KeyFiles {
        match call {
            StoreCall::RemoveKeyFile => KeyFiles { key_file: None, ..self },
            StoreCall::DeleteKeyFiles => KeyFiles { public_key: None, meta: None, ..self },
            _ => self,
        }
    }
}

/// Where a deletion that goes on from `d` ends with every call succeeding: the files,
/// and the result, if it ends within `steps` calls.
pub open spec fn deletion_run(d: DeletionView, files: KeyFiles, steps: nat) -> (
    KeyFiles,
    Option<Result<(), ErrorView>>,
)
    decreases steps,
{
    let reply = files.deletion_reply(d.call);
    if steps == 0 {
        (files, None)
    } else if d.outcome(reply) is Some {
        (files.deleted_by(d.call), d.outcome(reply))
    } else {
        deletion_run(d.next(reply), files.deleted_by(d.call), (steps - 1) as nat)
    }
}

/// A deletion, run from its beginning with every call succeeding, leaves none of the
/// label's files and succeeds if there was any of them, and fails with the label not
/// found, changing nothing, exactly where there was none.
pub proof fn law_deletion_deletes(label: Seq<char>, files: KeyFiles)
    ensures
        ({
            let start = DeletionView { label, call: StoreCall::KeyFileExists, locked: false };
            let gone = KeyFiles { key_file: None, public_key: None, meta: None };
            let (after, result) = deletion_run(start, files, 6);
            &&& files.key_file is Some || files.public_key is Some || files.meta is Some
                ==> after == gone && result == Some(Ok::<(), ErrorView>(()))
            &&& files.key_file is None && files.public_key is None && files.meta is None
                ==> after == files && result == Some(
                Err::<(), ErrorView>(ErrorView::KeyNotFound { label }),
            )
        }),
{
    reveal_with_fuel(deletion_run, 7);
    let start = DeletionView { label, call: StoreCall::KeyFileExists, locked: false };
    let gone = KeyFiles { key_file: None, public_key: None, meta: None };
    if files.key_file is Some || files.public_key is Some || files.meta is Some {
        assert(deletion_run(start, files, 6).0 =~= gone);
    }
}

/// A call that failed ends a deletion with that very error; only that there were no
/// other files is no failure, once the key file is gone.
pub proof fn law_deletion_failures(d: DeletionView, e: ErrorView, label: Seq<char>)
    ensures
        d.call != StoreCall::DeleteKeyFiles ==> d.outcome(ReplyView::Failed(e)) == Some(
            Err::<(), ErrorView>(e),
        ),
        d.call == StoreCall::DeleteKeyFiles && !(e is KeyNotFound) ==> d.outcome(
            ReplyView::Failed(e),
        ) == Some(Err::<(), ErrorView>(e)),
        d.call == StoreCall::DeleteKeyFiles ==> d.outcome(
            ReplyView::Failed(ErrorView::KeyNotFound { label }),
        ) == Some(Ok::<(), ErrorView>(())),
        d.call == StoreCall::DeleteKeyFiles ==> d.outcome(ReplyView::Done) == Some(
            Ok::<(), ErrorView>(()),
        ),
{
}

/// A generation, run from its beginning for a label without files and with every call
/// succeeding, returns the public key of the new pair, and leaves in the key file what
/// DPAPI made of the secret key, the public key beside it, and metadata with the type
/// and the policy asked for, authenticated where there is a key for that.
pub proof fn law_generation_generates(
    g: GenerationView,
    protected: Seq<u8>,
    hmac_key: Option<Seq<u8>>,
    pair: (Seq<u8>, Seq<u8>),
)
    requires
        g.call == StoreCall::EnsureDir,
    ensures
        ({
            let none = KeyFiles { key_file: None, public_key: None, meta: None };
            let replies = seq![
                ReplyView::Done,
                ReplyView::Done,
                ReplyView::Found(false),
                ReplyView::Found(false),
                ReplyView::Bytes(protected),
                ReplyView::Done,
                ReplyView::Done,
                ReplyView::Done,
                ReplyView::HmacKey(hmac_key),
                ReplyView::Done,
            ];
            let (after, result) = generation_run(g, none, replies, pair);
            &&& generation_answers(g, none, replies, pair)
            &&& result == Some(Ok::<Seq<u8>, ErrorView>(pair.1))
            &&& after.key_file == Some(protected)
            &&& after.public_key == Some(pair.1)
            &&& after.meta == Some(
                MetaView { key_type: g.key_type, policy: g.policy, hmac_key },
            )
        }),
{
    let none = KeyFiles { key_file: None, public_key: None, meta: None };
    let r0 = seq![
        ReplyView::Done,
        ReplyView::Done,
        ReplyView::Found(false),
        ReplyView::Found(false),
        ReplyView::Bytes(protected),
        ReplyView::Done,
        ReplyView::Done,
        ReplyView::Done,
        ReplyView::HmacKey(hmac_key),
        ReplyView::Done,
    ];
    let g1 = g.next(r0[0], pair);
    let g2 = g1.next(r0[1], pair);
    let g3 = g2.next(r0[2], pair);
    let g4 = g3.next(r0[3], pair);
    let g5 = g4.next(r0[4], pair);
    let f6 = none.performed(g5);
    let g6 = g5.next(r0[5], pair);
    let g7 = g6.next(r0[6], pair);
    let f8 = f6.performed(g7);
    let g8 = g7.next(r0[7], pair);
    let g9 = g8.next(r0[8], pair);
    lemma_generation_step(g, none, r0, pair, 0);
    lemma_generation_step(g1, none, r0, pair, 1);
    lemma_generation_step(g2, none, r0, pair, 2);
    lemma_generation_step(g3, none, r0, pair, 3);
    lemma_generation_step(g4, none, r0, pair, 4);
    lemma_generation_step(g5, none, r0, pair, 5);
    lemma_generation_step(g6, f6, r0, pair, 6);
    lemma_generation_step(g7, f6, r0, pair, 7);
    lemma_generation_step(g8, f8, r0, pair, 8);
    lemma_generation_step(g9, f8, r0, pair, 9);
    assert(r0.subrange(0, 10) =~= r0);
}

/// One step of a run, with the replies from `i` on.
proof fn lemma_generation_step(
    g: GenerationView,
    files: KeyFiles,
    replies: Seq<ReplyView>,
    pair: (Seq<u8>, Seq<u8>),
    i: int,
)
    requires
        0 <= i < replies.len(),
        !(replies[i] is Failed),
    ensures
        ({
            let n = replies.len() as int;
            let now = replies.subrange(i, n);
            let rest = replies.subrange(i + 1, n);
            let reply = replies[i];
            &&& generation_run(g, files, now, pair) == if g.outcome(reply) is Some {
                (files.performed(g), g.outcome(reply))
            } else {
                generation_run(g.next(reply, pair), files.performed(g), rest, pair)
            }
            &&& generation_answers(g, files, now, pair) == (files.answers(g.call, reply) && (
            g.outcome(reply) is None ==> generation_answers(
                g.next(reply, pair),
                files.performed(g),
                rest,
                pair,
            )))
        }),
{
    let n = replies.len() as int;
    let now = replies.subrange(i, n);
    assert(now.drop_first() =~= replies.subrange(i + 1, n));
    assert(now[0] == replies[i]);
}

/// A generation ends with the label taken where either search finds a file of it, and
/// with its own error where a call failed.
pub proof fn law_generation_failures(g: GenerationView, e: ErrorView)
    ensures
        g.outcome(ReplyView::Failed(e)) == Some(Err::<Seq<u8>, ErrorView>(e)),
        g.call == StoreCall::KeyFileExists || g.call == StoreCall::KeyFilesExist ==> g.outcome(
            ReplyView::Found(true),
        ) == Some(Err::<Seq<u8>, ErrorView>(ErrorView::DuplicateLabel { label: g.label })),
        g.call == StoreCall::KeyFileExists || g.call == StoreCall::KeyFilesExist ==> g.outcome(
            ReplyView::Found(false),
        ) is None,
{
}

/// A lookup, for every state of the files and whatever DPAPI makes of the key file:
/// the saved public key if there is one; else the public key of the stored secret key;
/// and without either the label is not found.
pub proof fn law_lookup_finds(
    label: Seq<char>,
    key_file: Seq<u8>,
    public: Seq<u8>,
    secret: Seq<u8>,
    meta: Option<MetaView>,
)
    ensures
        lookup_run(
            fresh_lookup(label),
            KeyFiles { key_file: None, public_key: Some(public), meta },
            secret,
            3,
        ) == Some(Ok::<Seq<u8>, ErrorView>(public)),
        lookup_run(
            fresh_lookup(label),
            KeyFiles { key_file: Some(key_file), public_key: Some(public), meta },
            secret,
            3,
        ) == Some(Ok::<Seq<u8>, ErrorView>(public)),
        crypto::p256_secret(secret) ==> lookup_run(
            fresh_lookup(label),
            KeyFiles { key_file: Some(key_file), public_key: None, meta },
            secret,
            3,
        ) == Some(Ok::<Seq<u8>, ErrorView>(crypto::p256_public(secret))),
        lookup_run(
            fresh_lookup(label),
            KeyFiles { key_file: None, public_key: None, meta },
            secret,
            3,
        ) == Some(Err::<Seq<u8>, ErrorView>(ErrorView::KeyNotFound { label })),
{
    reveal_with_fuel(lookup_run, 4);
}

/// Loading a secret key: what DPAPI makes of the key file, where that is a secret key;
/// an error that says what is wrong with it, where it is not; and the label not found
/// where there is no key file.
pub proof fn law_load_loads(
    label: Seq<char>,
    key_file: Seq<u8>,
    public_key: Option<Seq<u8>>,
    meta: Option<MetaView>,
    secret: Seq<u8>,
)
    ensures
        ({
            let files = KeyFiles { key_file: Some(key_file), public_key, meta };
            let missing = KeyFiles { key_file: None, public_key, meta };
            &&& crypto::p256_secret(secret) ==> load_run(fresh_load(label), files, secret, 2)
                == Some(Ok::<Seq<u8>, ErrorView>(secret))
            &&& !crypto::p256_secret(secret) && secret.len() != 32 ==> load_run(
                fresh_load(label),
                files,
                secret,
                2,
            ) == Some(
                Err::<Seq<u8>, ErrorView>(
                    ErrorView::KeyOperation {
                        operation: "dpapi_decrypt_key"@,
                        detail: "decrypted key has unexpected length "@ + text::decimal_of(
                            secret.len(),
                        ) + ", expected 32"@,
                    },
                ),
            )
            &&& !crypto::p256_secret(secret) && secret.len() == 32 ==> load_run(
                fresh_load(label),
                files,
                secret,
                2,
            ) == Some(
                Err::<Seq<u8>, ErrorView>(
                    ErrorView::KeyOperation {
                        operation: "load_secret_key"@,
                        detail: "crypto error"@,
                    },
                ),
            )
            &&& load_run(fresh_load(label), missing, secret, 2) == Some(
                Err::<Seq<u8>, ErrorView>(ErrorView::KeyNotFound { label }),
            )
        }),
{
    reveal_with_fuel(load_run, 3);
}

/// What is handed to DPAPI to unprotect is what was read from the key file, and a call
/// that failed ends a load with that very error.
pub proof fn law_load_steps(l: KeyLoadView, bytes: Seq<u8>, e: ErrorView)
    ensures
        l.call == StoreCall::ReadKeyFile ==> l.outcome(ReplyView::Bytes(bytes)) is None && l.next(
            ReplyView::Bytes(bytes),
        ).call == StoreCall::Unprotect && l.next(ReplyView::Bytes(bytes)).protected == bytes,
        l.outcome(ReplyView::Failed(e)) == Some(Err::<Seq<u8>, ErrorView>(e)),
{
}

/// The views of results keep what they are views of.
pub proof fn law_results_are_shown_as_they_are(
    b: Option<Result<Vec<u8>, Error>>,
    u: Option<Result<(), Error>>,
    k: Option<Result<SecretKey, Error>>,
)
    ensures
        opt_bytes_result(b) is None <==> b is None,
        b matches Some(Ok(v)) ==> opt_bytes_result(b) == Some(Ok::<Seq<u8>, ErrorView>(v@)),
        b matches Some(Err(e)) ==> opt_bytes_result(b) == Some(Err::<Seq<u8>, ErrorView>(e@)),
        opt_unit_result(u) is None <==> u is None,
        u matches Some(Ok(_)) ==> opt_unit_result(u) == Some(Ok::<(), ErrorView>(())),
        u matches Some(Err(e)) ==> opt_unit_result(u) == Some(Err::<(), ErrorView>(e@)),
        opt_key_result(k) is None <==> k is None,
        k matches Some(Ok(x)) ==> opt_key_result(k) == Some(Ok::<Seq<u8>, ErrorView>(x@)),
        k matches Some(Err(e)) ==> opt_key_result(k) == Some(Err::<Seq<u8>, ErrorView>(e@)),
{
}

/// A generation that has come as far as storing a key has a pair that fits: a secret
/// scalar and its own public key, an uncompressed point of 65 bytes.
pub proof fn law_generated_pair_fits(g: GenerationView)
    requires
        g.supplied(),
        g.call == StoreCall::Protect || g.call == StoreCall::WriteKeyFile || g.call
            == StoreCall::RestrictKeyFile || g.call == StoreCall::SavePublicKey || g.call
            == StoreCall::LoadHmacKey || g.call == StoreCall::SaveMeta || g.call
            == StoreCall::SaveMetaWithHmac,
    ensures
        g.secret is Some,
        crypto::p256_secret(g.secret->0),
        g.public_key == crypto::p256_public(g.secret->0),
        g.public_key.len() == 65,
        g.public_key[0] == 4,
        g.call == StoreCall::SaveMetaWithHmac ==> g.hmac_key is Some,
{
}

/// The calls take every reply of their kind: any answer to a search, any bytes, any
/// metadata key, any failure.
pub proof fn law_replies(
    bytes: Seq<u8>,
    key: Option<Seq<u8>>,
    found: bool,
    e: ErrorView,
)
    ensures
        replies_to(StoreCall::KeyFileExists, ReplyView::Found(found)),
        replies_to(StoreCall::KeyFilesExist, ReplyView::Found(found)),
        replies_to(StoreCall::KeyFilesExist, ReplyView::Failed(e)),
        replies_to(StoreCall::Protect, ReplyView::Bytes(bytes)),
        replies_to(StoreCall::Protect, ReplyView::Failed(e)),
        replies_to(StoreCall::LoadHmacKey, ReplyView::HmacKey(key)),
        replies_to(StoreCall::LoadHmacKey, ReplyView::Failed(e)),
        replies_to(StoreCall::LoadPublicKey, ReplyView::Bytes(bytes)),
        replies_to(StoreCall::LoadPublicKey, ReplyView::Failed(e)),
        replies_to(StoreCall::ReadKeyFile, ReplyView::Bytes(bytes)),
        replies_to(StoreCall::ReadKeyFile, ReplyView::Missing),
        replies_to(StoreCall::ReadKeyFile, ReplyView::Failed(e)),
        replies_to(StoreCall::Unprotect, ReplyView::Bytes(bytes)),
        replies_to(StoreCall::Unprotect, ReplyView::Failed(e)),
        replies_to(StoreCall::EnsureDir, ReplyView::Done),
        replies_to(StoreCall::EnsureDir, ReplyView::Failed(e)),
        replies_to(StoreCall::Lock, ReplyView::Done),
        replies_to(StoreCall::Lock, ReplyView::Failed(e)),
        replies_to(StoreCall::WriteKeyFile, ReplyView::Done),
        replies_to(StoreCall::WriteKeyFile, ReplyView::Failed(e)),
        replies_to(StoreCall::RestrictKeyFile, ReplyView::Done),
        replies_to(StoreCall::RestrictKeyFile, ReplyView::Failed(e)),
        replies_to(StoreCall::SavePublicKey, ReplyView::Done),
        replies_to(StoreCall::SavePublicKey, ReplyView::Failed(e)),
        replies_to(StoreCall::SaveMeta, ReplyView::Done),
        replies_to(StoreCall::SaveMeta, ReplyView::Failed(e)),
        replies_to(StoreCall::SaveMetaWithHmac, ReplyView::Done),
        replies_to(StoreCall::SaveMetaWithHmac, ReplyView::Failed(e)),
        replies_to(StoreCall::RemoveKeyFile, ReplyView::Done),
        replies_to(StoreCall::RemoveKeyFile, ReplyView::Failed(e)),
        replies_to(StoreCall::DeleteKeyFiles, ReplyView::Done),
        replies_to(StoreCall::DeleteKeyFiles, ReplyView::Failed(e)),
{
}

/// A lookup tries the saved public key first; any failure to read it leads to the key
/// file, and none of those ends the lookup.
pub proof fn law_lookup_steps(l: LookupView, bytes: Seq<u8>, e: ErrorView)
    ensures
        l.saved ==> l.call() == StoreCall::LoadPublicKey,
        l.saved ==> l.outcome(ReplyView::Bytes(bytes)) == Some(Ok::<Seq<u8>, ErrorView>(bytes)),
        l.saved ==> l.outcome(ReplyView::Failed(e)) is None,
        l.saved ==> !l.next(ReplyView::Failed(e)).saved && l.next(ReplyView::Failed(e)).load
            == l.load,
        !l.saved ==> l.call() == l.load.call,
        !l.saved ==> l.outcome(ReplyView::Failed(e)) == Some(Err::<Seq<u8>, ErrorView>(e)),
{
}

/// The beginnings: a lookup starts with the saved public key, a load with the key file,
/// both for the label they were asked for.
pub proof fn law_beginnings(label: Seq<char>)
    ensures
        fresh_lookup(label).saved,
        fresh_lookup(label).load.label == label,
        fresh_lookup(label).load.call == StoreCall::ReadKeyFile,
        fresh_lookup(label).wf(),
        fresh_load(label).label == label,
        fresh_load(label).call == StoreCall::ReadKeyFile,
        fresh_load(label).wf(),
{
}

}

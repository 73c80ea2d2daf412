//! Tamper-evident files.
//!
//! The trust anchor of a file is the HMAC-SHA256 tag of its bytes, kept in the
//! platform's secure store. It is what a file is verified against. Beside the
//! file stands a sidecar, named like it with `.hmac` behind, which holds the same
//! tag in lowercase hexadecimal; it is there for inspection only, and removing it
//! does not get around verification. The HMAC key is the application's, from the
//! secure store too.
//!
//! Files and the secure store are the caller's. An operation is a value that
//! names the next [`FileCall`] and takes its [`FileReply`].

use crate::crypto::{self, hmac_sha256};
use crate::error::{Error, ErrorView};
use crate::secret::SecretBytes;
use crate::text::{self, bytes_to_hex, concat, quoted};
use vstd::prelude::*;
use vstd::string::StringExecFns;

verus! {

/// Result of a verification.
#[derive(Clone, Copy, Debug, PartialEq, Eq, Structural)]
pub enum VerifyOutcome {
    /// The file matches its trust anchor.
    Match,
    /// The file was modified behind the library's back.
    Tamper,
    /// No trust anchor exists yet.
    Legacy,
    /// The file does not exist.
    NotFound,
    /// The secure store cannot be reached; nothing was verified.
    StoreUnavailable,
}

/// A call on the file, on its sidecar or on its trust anchor.
#[derive(Clone, Copy, Debug, PartialEq, Eq, Structural)]
pub enum FileCall {
    /// Whether the file exists.
    PathExists,
    /// Whether the sidecar exists.
    SidecarExists,
    /// Read the file.
    ReadFile,
    /// Write the content to the file, atomically.
    WriteFile,
    /// Write the tag to the sidecar, atomically.
    WriteSidecar,
    /// Remove the sidecar.
    RemoveSidecar,
    /// Read the file's trust anchor from the secure store.
    LoadAnchor,
    /// Put the tag into the secure store as the file's trust anchor.
    StoreAnchor,
    /// Remove the file's trust anchor, if there is one.
    DeleteAnchor,
}

/// What a call returned.
pub enum FileReply {
    Done,
    Found(bool),
    Bytes(Vec<u8>),
    Anchor(Option<Vec<u8>>),
    Failed(Error),
}

/// The mathematical content of a [`FileReply`].
pub enum FileReplyView {
    Done,
    Found(bool),
    Bytes(Seq<u8>),
    Anchor(Option<Seq<u8>>),
    Failed(ErrorView),
}

impl View for FileReply {
    type V = FileReplyView;

    open spec fn view(&self) -> FileReplyView {
        match self {
            FileReply::Done => FileReplyView::Done,
            FileReply::Found(b) => FileReplyView::Found(*b),
            FileReply::Bytes(v) => FileReplyView::Bytes(v@),
            FileReply::Anchor(a) => FileReplyView::Anchor(
                match a {
                    Some(a) => Some(a@),
                    None => None,
                },
            ),
            FileReply::Failed(e) => FileReplyView::Failed(e@),
        }
    }
}

/// The replies that a call can have.
pub open spec fn file_replies_to(call: FileCall, reply: FileReplyView) -> bool {
    match call {
        FileCall::PathExists | FileCall::SidecarExists => reply is Found,
        FileCall::ReadFile => reply is Bytes || reply is Failed,
        FileCall::LoadAnchor => reply is Anchor || reply is Failed,
        _ => reply is Done || reply is Failed,
    }
}

/// The path of the sidecar of `path`.
pub fn sidecar_path(path: &str) -> (r: String)
    ensures
        r@ == path@ + ".hmac"@,
{
    concat(path, ".hmac")
}

/// The tag of `content` under `key`.
pub open spec fn tag_of(key: Seq<u8>, content: Seq<u8>) -> Seq<u8> {
    crypto::hmac_sha256_of(key, content)
}

/// Compare two byte strings without stopping at the first difference.
fn same_bytes(a: &[u8], b: &[u8]) -> (r: bool)
    ensures
        r == (a@ == b@),
{
    if a.len() != b.len() {
        return false;
    }
    let mut diff: u8 = 0;
    let mut i: usize = 0;
    assert(a@.subrange(0, 0) =~= b@.subrange(0, 0));
    while i < a.len()
        invariant
            i <= a@.len(),
            a@.len() == b@.len(),
            diff == 0 <==> a@.subrange(0, i as int) == b@.subrange(0, i as int),
        decreases a@.len() - i,
    {
        let x: u8 = a[i];
        let y: u8 = b[i];
        let before: u8 = diff;
        diff = diff | (x ^ y);
        assert((before | (x ^ y)) == 0 <==> before == 0 && x == y) by (bit_vector);
        proof {
            let p = a@.subrange(0, i + 1);
            let q = b@.subrange(0, i + 1);
            assert(p.drop_last() =~= a@.subrange(0, i as int));
            assert(q.drop_last() =~= b@.subrange(0, i as int));
            if before == 0 && x == y {
                assert(p =~= q);
            }
            if p == q {
                assert(p.drop_last() == q.drop_last());
                assert(p[i as int] == q[i as int]);
            }
        }
        i += 1;
    }
    assert(a@.subrange(0, i as int) =~= a@);
    assert(b@.subrange(0, i as int) =~= b@);
    diff == 0
}

/// The tamper-evident files of one application.
pub struct TamperEvidentHandle {
    app_name: String,
    hmac_key: Option<SecretBytes>,
}

impl TamperEvidentHandle {
    pub closed spec fn spec_app_name(&self) -> Seq<char> {
        self.app_name@
    }

    /// The application's HMAC key, where the secure store has one.
    pub closed spec fn key(&self) -> Option<Seq<u8>> {
        match self.hmac_key {
            Some(k) => Some(k@),
            None => None,
        }
    }

    /// A handle with the key that the secure store has for the application.
    pub fn new(app_name: String, hmac_key: Option<SecretBytes>) -> (r: TamperEvidentHandle)
        ensures
            r.spec_app_name() == app_name@,
            r.key() == match hmac_key {
                Some(k) => Some(k@),
                None => None,
            },
    {
        TamperEvidentHandle { app_name, hmac_key }
    }

    /// The application's name.
    pub fn app_name(&self) -> (r: &str)
        ensures
            r@ == self.spec_app_name(),
    {
        self.app_name.as_str()
    }

    /// A description without the key.
    pub fn debug_text(&self) -> (r: String)
        ensures
            r@ == "TamperEvidentHandle { app_name: "@ + text::quoted_of(self.spec_app_name())
                + ", hmac_key_loaded: "@ + (if self.key() is Some {
                "true"@
            } else {
                "false"@
            }) + " }"@,
    {
        let mut s = "TamperEvidentHandle { app_name: ".to_owned();
        let name = quoted(self.app_name.as_str());
        s.append(name.as_str());
        s.append(", hmac_key_loaded: ");
        if self.hmac_key.is_some() {
            s.append("true");
        } else {
            s.append("false");
        }
        s.append(" }");
        s
    }

    /// Compare `content` with its trust anchor. The comparison does not stop at
    /// the first difference.
    pub fn verify_content(&self, content: &[u8], anchor: &[u8]) -> (r: VerifyOutcome)
        ensures
            r == judged(self.key(), content@, anchor@),
            self.key() matches Some(k) ==> (r == VerifyOutcome::Match <==> anchor@
                == crypto::hmac_sha256_of(k, content@)),
            self.key() matches Some(k) ==> (r == VerifyOutcome::Tamper <==> anchor@
                != crypto::hmac_sha256_of(k, content@)),
            self.key() is None ==> r == VerifyOutcome::StoreUnavailable,
    {
        match &self.hmac_key {
            None => VerifyOutcome::StoreUnavailable,
            Some(key) => {
                let tag = hmac_sha256(key.as_slice(), content);
                if same_bytes(anchor, tag.as_slice()) {
                    VerifyOutcome::Match
                } else {
                    VerifyOutcome::Tamper
                }
            },
        }
    }
}

/// What comes of comparing `content` with its trust anchor.
pub open spec fn judged(key: Option<Seq<u8>>, content: Seq<u8>, anchor: Seq<u8>) -> VerifyOutcome {
    match key {
        None => VerifyOutcome::StoreUnavailable,
        Some(k) => if anchor == tag_of(k, content) {
            VerifyOutcome::Match
        } else {
            VerifyOutcome::Tamper
        },
    }
}

/// Verification of one file, with the key of the handle that it was begun with.
pub struct Verification<'a> {
    handle: &'a TamperEvidentHandle,
    call: FileCall,
    anchor: Vec<u8>,
}

/// The mathematical content of a [`Verification`].
#[verifier::ext_equal]
pub struct VerificationView {
    /// The call that is waited for.
    pub call: FileCall,
    /// The file's trust anchor, once it has been loaded.
    pub anchor: Seq<u8>,
}

impl<'a> Verification<'a> {
    /// The key that the file is verified with, where there is one.
    pub closed spec fn key(&self) -> Option<Seq<u8>> {
        self.handle.key()
    }
}

impl<'a> View for Verification<'a> {
    type V = VerificationView;

    closed spec fn view(&self) -> VerificationView {
        VerificationView { call: self.call, anchor: self.anchor@ }
    }
}

/// The beginning of a verification.
pub open spec fn fresh_verification() -> VerificationView {
    VerificationView { call: FileCall::PathExists, anchor: Seq::empty() }
}

impl VerificationView {
    /// The calls of a verification.
    pub open spec fn wf(self) -> bool {
        match self.call {
            FileCall::PathExists | FileCall::LoadAnchor | FileCall::ReadFile => true,
            _ => false,
        }
    }

    /// The result, where the reply brings it. A secure store that cannot be
    /// reached, for the key or for the anchor, leaves the file unverified.
    pub open spec fn outcome(self, key: Option<Seq<u8>>, reply: FileReplyView) -> Option<
        Result<VerifyOutcome, ErrorView>,
    > {
        match (self.call, reply) {
            (FileCall::PathExists, FileReplyView::Found(false)) => Some(Ok(VerifyOutcome::NotFound)),
            (FileCall::PathExists, _) => if key is None {
                Some(Ok(VerifyOutcome::StoreUnavailable))
            } else {
                None
            },
            (FileCall::LoadAnchor, FileReplyView::Failed(_)) => Some(
                Ok(VerifyOutcome::StoreUnavailable),
            ),
            (FileCall::LoadAnchor, FileReplyView::Anchor(None)) => Some(Ok(VerifyOutcome::Legacy)),
            (FileCall::ReadFile, FileReplyView::Bytes(content)) => Some(
                Ok(judged(key, content, self.anchor)),
            ),
            (_, FileReplyView::Failed(e)) => Some(Err(e)),
            _ => None,
        }
    }

    /// The operation after a reply that brings no result.
    pub open spec fn next(self, reply: FileReplyView) -> VerificationView {
        match (self.call, reply) {
            (FileCall::PathExists, _) => VerificationView { call: FileCall::LoadAnchor, ..self },
            (_, FileReplyView::Anchor(Some(anchor))) => VerificationView {
                call: FileCall::ReadFile,
                anchor,
            },
            _ => self,
        }
    }
}

/// A result by its view.
pub open spec fn outcome_result(r: Option<Result<VerifyOutcome, Error>>) -> Option<
    Result<VerifyOutcome, ErrorView>,
> {
    match r {
        None => None,
        Some(Ok(o)) => Some(Ok(o)),
        Some(Err(e)) => Some(Err(e@)),
    }
}

impl TamperEvidentHandle {
    /// Begin to verify a file with the key of this handle.
    pub fn verify(&self) -> (r: Verification<'_>)
        ensures
            r@ == fresh_verification(),
            r.key() == self.key(),
    {
        let anchor: Vec<u8> = Vec::new();
        assert(anchor@ =~= Seq::<u8>::empty());
        Verification { handle: self, call: FileCall::PathExists, anchor }
    }
}

impl<'a> Verification<'a> {
    /// The call to perform.
    pub fn call(&self) -> (r: FileCall)
        ensures
            r == self@.call,
    {
        self.call
    }

    /// Take the reply to the call. A result ends the operation.
    pub fn advance(&mut self, reply: FileReply) -> (r: Option<Result<VerifyOutcome, Error>>)
        requires
            old(self)@.wf(),
            file_replies_to(old(self)@.call, reply@),
        ensures
            final(self).key() == old(self).key(),
            outcome_result(r) == old(self)@.outcome(old(self).key(), reply@),
            r is Some ==> final(self)@ == old(self)@,
            r is None ==> final(self)@.wf() && final(self)@ == old(self)@.next(reply@),
    {
        match reply {
            FileReply::Failed(e) => {
                if let FileCall::LoadAnchor = self.call {
                    return Some(Ok(VerifyOutcome::StoreUnavailable));
                }
                Some(Err(e))
            },
            FileReply::Found(found) => {
                if !found {
                    return Some(Ok(VerifyOutcome::NotFound));
                }
                if self.handle.hmac_key.is_none() {
                    return Some(Ok(VerifyOutcome::StoreUnavailable));
                }
                self.call = FileCall::LoadAnchor;
                None
            },
            FileReply::Anchor(None) => Some(Ok(VerifyOutcome::Legacy)),
            FileReply::Anchor(Some(anchor)) => {
                self.anchor = anchor;
                self.call = FileCall::ReadFile;
                None
            },
            FileReply::Bytes(content) => Some(
                Ok(self.handle.verify_content(content.as_slice(), self.anchor.as_slice())),
            ),
            FileReply::Done => None,
        }
    }
}

/// Which part of a read is under way.
pub enum ReadStage<'a> {
    /// Whether the file exists.
    Looking,
    /// The verification.
    Verifying(Verification<'a>),
    /// The content, where there was nothing to verify it with.
    Fetching,
}

/// The mathematical content of a [`ReadStage`].
pub enum ReadView {
    Looking,
    Verifying(VerificationView),
    Fetching,
}

impl<'a> View for ReadStage<'a> {
    type V = ReadView;

    open spec fn view(&self) -> ReadView {
        match self {
            ReadStage::Looking => ReadView::Looking,
            ReadStage::Verifying(v) => ReadView::Verifying(v@),
            ReadStage::Fetching => ReadView::Fetching,
        }
    }
}

/// A verified read of one file, with the key of the handle that it was begun
/// with.
pub struct Reading<'a> {
    handle: &'a TamperEvidentHandle,
    /// The path, as errors show it.
    path: String,
    stage: ReadStage<'a>,
}

impl<'a> Reading<'a> {
    /// The path, as errors show it.
    pub closed spec fn shown(&self) -> Seq<char> {
        self.path@
    }

    /// The key that the file is verified with, where there is one.
    pub closed spec fn key(&self) -> Option<Seq<u8>> {
        self.handle.key()
    }

    /// The stage is one of a read, and its verification uses the same key.
    pub closed spec fn wf(&self) -> bool {
        &&& self@.wf()
        &&& self.stage matches ReadStage::Verifying(v) ==> v.key() == self.key()
    }
}

impl<'a> View for Reading<'a> {
    type V = ReadView;

    closed spec fn view(&self) -> ReadView {
        self.stage@
    }
}

/// Why a file with this outcome is not read, if so. A file without a recorded
/// tag, or without a key to check it, is read all the same.
pub open spec fn read_refusal(outcome: VerifyOutcome, shown: Seq<char>) -> Option<ErrorView> {
    match outcome {
        VerifyOutcome::Tamper => Some(ErrorView::TamperDetected { path: shown }),
        VerifyOutcome::NotFound => Some(ErrorView::KeyNotFound { label: shown }),
        _ => None,
    }
}

impl ReadView {
    pub open spec fn wf(self) -> bool {
        self matches ReadView::Verifying(v) ==> v.wf()
    }

    /// The call that is waited for.
    pub open spec fn call(self) -> FileCall {
        match self {
            ReadView::Looking => FileCall::PathExists,
            ReadView::Verifying(v) => v.call,
            ReadView::Fetching => FileCall::ReadFile,
        }
    }

    /// The result, where the reply brings it. The content that is given is the
    /// content that was verified; it is read anew only where there was nothing to
    /// verify it with.
    pub open spec fn outcome(
        self,
        key: Option<Seq<u8>>,
        shown: Seq<char>,
        reply: FileReplyView,
    ) -> Option<Result<Seq<u8>, ErrorView>> {
        match self {
            ReadView::Looking => if reply == FileReplyView::Found(false) {
                Some(Err(ErrorView::KeyNotFound { label: shown }))
            } else {
                None
            },
            ReadView::Verifying(v) => match v.outcome(key, reply) {
                None => None,
                Some(Err(e)) => Some(Err(e)),
                Some(Ok(o)) => match (read_refusal(o, shown), reply) {
                    (Some(e), _) => Some(Err(e)),
                    (None, FileReplyView::Bytes(content)) => Some(Ok(content)),
                    _ => None,
                },
            },
            ReadView::Fetching => match reply {
                FileReplyView::Bytes(b) => Some(Ok(b)),
                FileReplyView::Failed(e) => Some(Err(e)),
                _ => None,
            },
        }
    }

    /// The operation after a reply that brings no result.
    pub open spec fn next(self, key: Option<Seq<u8>>, reply: FileReplyView) -> ReadView {
        match self {
            ReadView::Looking => ReadView::Verifying(fresh_verification()),
            ReadView::Verifying(v) => if v.outcome(key, reply) is None {
                ReadView::Verifying(v.next(reply))
            } else {
                ReadView::Fetching
            },
            ReadView::Fetching => self,
        }
    }
}

/// A result by its view.
pub open spec fn content_result(r: Option<Result<Vec<u8>, Error>>) -> Option<
    Result<Seq<u8>, ErrorView>,
> {
    match r {
        None => None,
        Some(Ok(v)) => Some(Ok(v@)),
        Some(Err(e)) => Some(Err(e@)),
    }
}

impl TamperEvidentHandle {
    /// Begin to read a file. `shown` is its path, as errors show it.
    pub fn read(&self, shown: &str) -> (r: Reading<'_>)
        ensures
            r.wf(),
            r.key() == self.key(),
            r.shown() == shown@,
            r@ == ReadView::Looking,
    {
        Reading { handle: self, path: shown.to_owned(), stage: ReadStage::Looking }
    }
}

impl<'a> Reading<'a> {
    /// The call to perform.
    pub fn call(&self) -> (r: FileCall)
        ensures
            r == self@.call(),
    {
        match &self.stage {
            ReadStage::Looking => FileCall::PathExists,
            ReadStage::Verifying(v) => v.call(),
            ReadStage::Fetching => FileCall::ReadFile,
        }
    }

    /// Take the reply to the call. A result ends the operation: the content of
    /// the file, or why it is not given.
    pub fn advance(&mut self, reply: FileReply) -> (r: Option<Result<Vec<u8>, Error>>)
        requires
            old(self).wf(),
            file_replies_to(old(self)@.call(), reply@),
        ensures
            final(self).shown() == old(self).shown(),
            final(self).key() == old(self).key(),
            final(self).wf(),
            content_result(r) == old(self)@.outcome(old(self).key(), old(self).shown(), reply@),
            r is Some ==> final(self)@ == old(self)@,
            r is None ==> final(self)@ == old(self)@.next(old(self).key(), reply@),
    {
        match &mut self.stage {
            ReadStage::Looking => {
                if let FileReply::Found(false) = reply {
                    return Some(Err(Error::KeyNotFound { label: self.path.as_str().to_owned() }));
                }
                self.stage = ReadStage::Verifying(self.handle.verify());
                None
            },
            ReadStage::Verifying(v) => {
                let content: Option<Vec<u8>> = match &reply {
                    FileReply::Bytes(b) => Some(b.clone()),
                    _ => None,
                };
                match v.advance(reply) {
                    None => None,
                    Some(Err(e)) => Some(Err(e)),
                    Some(Ok(VerifyOutcome::Tamper)) => Some(
                        Err(Error::TamperDetected { path: self.path.as_str().to_owned() }),
                    ),
                    Some(Ok(VerifyOutcome::NotFound)) => Some(
                        Err(Error::KeyNotFound { label: self.path.as_str().to_owned() }),
                    ),
                    Some(Ok(_)) => {
                        if let Some(content) = content {
                            return Some(Ok(content));
                        }
                        self.stage = ReadStage::Fetching;
                        None
                    },
                }
            },
            ReadStage::Fetching => match reply {
                FileReply::Bytes(content) => Some(Ok(content)),
                FileReply::Failed(e) => Some(Err(e)),
                _ => None,
            },
        }
    }
}

/// A write of one file, of its sidecar and of its trust anchor.
pub struct Writing {
    call: FileCall,
    tag: Option<Vec<u8>>,
}

/// The mathematical content of a [`Writing`].
#[verifier::ext_equal]
pub struct WritingView {
    /// The call that is waited for.
    pub call: FileCall,
    /// The tag of the content, where there is a key.
    pub tag: Option<Seq<u8>>,
}

impl View for Writing {
    type V = WritingView;

    closed spec fn view(&self) -> WritingView {
        WritingView {
            call: self.call,
            tag: match self.tag {
                Some(t) => Some(t@),
                None => None,
            },
        }
    }
}

/// The beginning of a write of `content`.
pub open spec fn fresh_writing(key: Option<Seq<u8>>, content: Seq<u8>) -> WritingView {
    WritingView {
        call: FileCall::WriteFile,
        tag: match key {
            Some(k) => Some(tag_of(k, content)),
            None => None,
        },
    }
}

impl WritingView {
    /// The file is written first, then, where there is a key, the sidecar and the
    /// trust anchor.
    pub open spec fn wf(self) -> bool {
        match self.call {
            FileCall::WriteFile => true,
            FileCall::WriteSidecar | FileCall::StoreAnchor => self.tag is Some,
            _ => false,
        }
    }

    /// The result, where the reply brings it.
    pub open spec fn outcome(self, reply: FileReplyView) -> Option<Result<(), ErrorView>> {
        match reply {
            FileReplyView::Failed(e) => Some(Err(e)),
            _ => if self.tag is None || self.call == FileCall::StoreAnchor {
                Some(Ok(()))
            } else {
                None
            },
        }
    }

    /// The operation after a reply that brings no result.
    pub open spec fn next(self) -> WritingView {
        WritingView {
            call: if self.call == FileCall::WriteFile {
                FileCall::WriteSidecar
            } else {
                FileCall::StoreAnchor
            },
            ..self
        }
    }
}

/// A result by its view.
pub open spec fn done_result(r: Option<Result<(), Error>>) -> Option<Result<(), ErrorView>> {
    match r {
        None => None,
        Some(Ok(_)) => Some(Ok(())),
        Some(Err(e)) => Some(Err(e@)),
    }
}

impl TamperEvidentHandle {
    /// Begin to write `content` to a file, and its tag to the sidecar and to the
    /// secure store.
    pub fn write(&self, content: &[u8]) -> (r: Writing)
        ensures
            r@ == fresh_writing(self.key(), content@),
            r@.wf(),
            self.key() matches Some(k) ==> r@.tag == Some(crypto::hmac_sha256_of(k, content@)),
            self.key() is None ==> r@.tag is None,
    {
        let tag: Option<Vec<u8>> = match &self.hmac_key {
            Some(key) => Some(hmac_sha256(key.as_slice(), content)),
            None => None,
        };
        Writing { call: FileCall::WriteFile, tag }
    }
}

impl Writing {
    /// The call to perform.
    pub fn call(&self) -> (r: FileCall)
        ensures
            r == self@.call,
    {
        self.call
    }

    /// What the sidecar is to hold, where there is a key.
    pub fn sidecar(&self) -> (r: Option<String>)
        ensures
            match self@.tag {
                Some(t) => r is Some && r->0@ == text::hex_of(t),
                None => r is None,
            },
    {
        match &self.tag {
            Some(t) => Some(bytes_to_hex(t.as_slice())),
            None => None,
        }
    }

    /// What the trust anchor is to be, where there is a key.
    pub fn anchor(&self) -> (r: Option<&[u8]>)
        ensures
            match self@.tag {
                Some(t) => r is Some && r->0@ == t,
                None => r is None,
            },
    {
        match &self.tag {
            Some(t) => Some(t.as_slice()),
            None => None,
        }
    }

    /// Take the reply to the call. A result ends the operation.
    pub fn advance(&mut self, reply: FileReply) -> (r: Option<Result<(), Error>>)
        requires
            old(self)@.wf(),
            file_replies_to(old(self)@.call, reply@),
        ensures
            done_result(r) == old(self)@.outcome(reply@),
            r is Some ==> final(self)@ == old(self)@,
            r is None ==> final(self)@.wf() && final(self)@ == old(self)@.next(),
    {
        if let FileReply::Failed(e) = reply {
            return Some(Err(e));
        }
        if self.tag.is_none() || self.call == FileCall::StoreAnchor {
            return Some(Ok(()));
        }
        self.call = if self.call == FileCall::WriteFile {
            FileCall::WriteSidecar
        } else {
            FileCall::StoreAnchor
        };
        None
    }
}

/// Recording of the tag of a file that is there already.
pub struct Migration {
    /// The path, as errors show it.
    path: String,
    call: FileCall,
    tag: Vec<u8>,
}

/// The mathematical content of a [`Migration`].
#[verifier::ext_equal]
pub struct MigrationView {
    /// The path, as errors show it.
    pub shown: Seq<char>,
    /// The call that is waited for.
    pub call: FileCall,
    /// The tag of the content, once the file has been read.
    pub tag: Seq<u8>,
}

impl View for Migration {
    type V = MigrationView;

    closed spec fn view(&self) -> MigrationView {
        MigrationView { shown: self.path@, call: self.call, tag: self.tag@ }
    }
}

/// The beginning of a migration.
pub open spec fn fresh_migration(shown: Seq<char>) -> MigrationView {
    MigrationView { shown, call: FileCall::PathExists, tag: Seq::empty() }
}

impl MigrationView {
    /// The calls of a migration.
    pub open spec fn wf(self) -> bool {
        match self.call {
            FileCall::PathExists | FileCall::ReadFile | FileCall::WriteSidecar
            | FileCall::StoreAnchor => true,
            _ => false,
        }
    }

    /// The result, where the reply brings it. Without a key there is nothing to
    /// do.
    pub open spec fn outcome(self, key: Option<Seq<u8>>, reply: FileReplyView) -> Option<
        Result<(), ErrorView>,
    > {
        match (self.call, reply) {
            (_, FileReplyView::Failed(e)) => Some(Err(e)),
            (FileCall::PathExists, FileReplyView::Found(false)) => Some(
                Err(ErrorView::KeyNotFound { label: self.shown }),
            ),
            (FileCall::PathExists, _) => if key is None {
                Some(Ok(()))
            } else {
                None
            },
            (FileCall::StoreAnchor, _) => Some(Ok(())),
            _ => None,
        }
    }

    /// The operation after a reply that brings no result.
    pub open spec fn next(self, key: Option<Seq<u8>>, reply: FileReplyView) -> MigrationView {
        match (self.call, reply) {
            (FileCall::PathExists, _) => MigrationView { call: FileCall::ReadFile, ..self },
            (FileCall::ReadFile, FileReplyView::Bytes(content)) => MigrationView {
                call: FileCall::WriteSidecar,
                tag: match key {
                    Some(k) => tag_of(k, content),
                    None => self.tag,
                },
                ..self
            },
            _ => MigrationView { call: FileCall::StoreAnchor, ..self },
        }
    }
}

impl TamperEvidentHandle {
    /// Begin to record the tag of a file. `shown` is its path, as errors show
    /// it.
    pub fn migrate(&self, shown: &str) -> (r: Migration)
        ensures
            r@ == fresh_migration(shown@),
    {
        let tag: Vec<u8> = Vec::new();
        assert(tag@ =~= Seq::<u8>::empty());
        Migration { path: shown.to_owned(), call: FileCall::PathExists, tag }
    }
}

impl Migration {
    /// The call to perform.
    pub fn call(&self) -> (r: FileCall)
        ensures
            r == self@.call,
    {
        self.call
    }

    /// What the sidecar is to hold.
    pub fn sidecar(&self) -> (r: String)
        ensures
            r@ == text::hex_of(self@.tag),
    {
        bytes_to_hex(self.tag.as_slice())
    }

    /// What the trust anchor is to be.
    pub fn anchor(&self) -> (r: &[u8])
        ensures
            r@ == self@.tag,
    {
        self.tag.as_slice()
    }

    /// Take the reply to the call. A result ends the operation.
    pub fn advance(&mut self, handle: &TamperEvidentHandle, reply: FileReply) -> (r: Option<
        Result<(), Error>,
    >)
        requires
            old(self)@.wf(),
            file_replies_to(old(self)@.call, reply@),
        ensures
            done_result(r) == old(self)@.outcome(handle.key(), reply@),
            handle.key() is Some && reply@ is Bytes && r is None ==> final(self)@.tag
                == crypto::hmac_sha256_of(handle.key()->0, reply@->Bytes_0),
            r is Some ==> final(self)@ == old(self)@,
            r is None ==> final(self)@.wf() && final(self)@ == old(self)@.next(
                handle.key(),
                reply@,
            ),
    {
        match reply {
            FileReply::Failed(e) => Some(Err(e)),
            FileReply::Found(found) => {
                if !found {
                    return Some(Err(Error::KeyNotFound { label: self.path.as_str().to_owned() }));
                }
                if handle.hmac_key.is_none() {
                    return Some(Ok(()));
                }
                self.call = FileCall::ReadFile;
                None
            },
            FileReply::Bytes(content) => {
                if let Some(key) = &handle.hmac_key {
                    self.tag = hmac_sha256(key.as_slice(), content.as_slice());
                }
                self.call = FileCall::WriteSidecar;
                None
            },
            _ => {
                if let FileCall::StoreAnchor = self.call {
                    return Some(Ok(()));
                }
                self.call = FileCall::StoreAnchor;
                None
            },
        }
    }
}

/// Removal of a file's sidecar and of its trust anchor.
pub struct Removal {
    call: FileCall,
}

impl View for Removal {
    type V = FileCall;

    /// The call that is waited for.
    closed spec fn view(&self) -> FileCall {
        self.call
    }
}

/// The calls of a removal.
pub open spec fn removal_call(call: FileCall) -> bool {
    match call {
        FileCall::SidecarExists | FileCall::RemoveSidecar | FileCall::DeleteAnchor => true,
        _ => false,
    }
}

/// The result of a removal, where the reply brings it. The trust anchor goes
/// last.
pub open spec fn removal_outcome(call: FileCall, reply: FileReplyView) -> Option<
    Result<(), ErrorView>,
> {
    match (call, reply) {
        (_, FileReplyView::Failed(e)) => Some(Err(e)),
        (FileCall::DeleteAnchor, _) => Some(Ok(())),
        _ => None,
    }
}

/// The call after one that brought no result. A sidecar that is not there needs
/// no removing.
pub open spec fn removal_next(reply: FileReplyView) -> FileCall {
    if reply == FileReplyView::Found(true) {
        FileCall::RemoveSidecar
    } else {
        FileCall::DeleteAnchor
    }
}

impl TamperEvidentHandle {
    /// Begin to remove a file's sidecar and its trust anchor. The file itself
    /// stays.
    pub fn remove_integrity_data(&self) -> (r: Removal)
        ensures
            r@ == FileCall::SidecarExists,
    {
        Removal { call: FileCall::SidecarExists }
    }
}

impl Removal {
    /// The call to perform.
    pub fn call(&self) -> (r: FileCall)
        ensures
            r == self@,
    {
        self.call
    }

    /// Take the reply to the call. A result ends the operation.
    pub fn advance(&mut self, reply: FileReply) -> (r: Option<Result<(), Error>>)
        requires
            removal_call(old(self)@),
            file_replies_to(old(self)@, reply@),
        ensures
            done_result(r) == removal_outcome(old(self)@, reply@),
            removal_call(final(self)@),
            final(self)@ == if r is None {
                removal_next(reply@)
            } else {
                old(self)@
            },
    {
        match reply {
            FileReply::Failed(e) => Some(Err(e)),
            FileReply::Found(true) => {
                self.call = FileCall::RemoveSidecar;
                None
            },
            _ => {
                if let FileCall::DeleteAnchor = self.call {
                    return Some(Ok(()));
                }
                self.call = FileCall::DeleteAnchor;
                None
            },
        }
    }
}

/// A file and its sidecar on disk, and its trust anchor in the secure store.
#[verifier::ext_equal]
pub struct Disk {
    pub file: Option<Seq<u8>>,
    pub sidecar: Option<Seq<char>>,
    pub anchor: Option<Seq<u8>>,
}

impl Disk {
    /// The reply to a call.
    pub open spec fn reply(self, call: FileCall) -> FileReplyView {
        match call {
            FileCall::PathExists => FileReplyView::Found(self.file is Some),
            FileCall::SidecarExists => FileReplyView::Found(self.sidecar is Some),
            FileCall::ReadFile => FileReplyView::Bytes(self.file->0),
            FileCall::LoadAnchor => FileReplyView::Anchor(self.anchor),
            _ => FileReplyView::Done,
        }
    }

    /// What a call does: `content` is what is to be written, and `tag` its tag.
    pub open spec fn performed(self, call: FileCall, content: Seq<u8>, tag: Seq<u8>) -> Disk {
        match call {
            FileCall::WriteFile => Disk { file: Some(content), ..self },
            FileCall::WriteSidecar => Disk { sidecar: Some(text::hex_of(tag)), ..self },
            FileCall::RemoveSidecar => Disk { sidecar: None, ..self },
            FileCall::StoreAnchor => Disk { anchor: Some(tag), ..self },
            FileCall::DeleteAnchor => Disk { anchor: None, ..self },
            _ => self,
        }
    }

    /// What verifying the file comes to. The sidecar plays no part in it.
    pub open spec fn verified(self, key: Option<Seq<u8>>) -> VerifyOutcome {
        if self.file is None {
            VerifyOutcome::NotFound
        } else if key is None {
            VerifyOutcome::StoreUnavailable
        } else if self.anchor is None {
            VerifyOutcome::Legacy
        } else {
            judged(key, self.file->0, self.anchor->0)
        }
    }

    /// The disk after a write of `content`.
    pub open spec fn written(self, key: Option<Seq<u8>>, content: Seq<u8>) -> Disk {
        match key {
            Some(k) => Disk {
                file: Some(content),
                sidecar: Some(text::hex_of(tag_of(k, content))),
                anchor: Some(tag_of(k, content)),
            },
            None => Disk { file: Some(content), ..self },
        }
    }

    /// The disk after a migration.
    pub open spec fn migrated(self, key: Option<Seq<u8>>) -> Disk {
        match (self.file, key) {
            (Some(content), Some(k)) => Disk {
                sidecar: Some(text::hex_of(tag_of(k, content))),
                anchor: Some(tag_of(k, content)),
                ..self
            },
            _ => self,
        }
    }

    /// The disk after the integrity data were removed.
    pub open spec fn bare(self) -> Disk {
        Disk { sidecar: None, anchor: None, ..self }
    }
}

/// The result of a verification that goes on from `v` and has its calls
/// answered by `disk`, if it ends within `steps` calls.
pub open spec fn verify_run(
    v: VerificationView,
    key: Option<Seq<u8>>,
    disk: Disk,
    steps: nat,
) -> Option<Result<VerifyOutcome, ErrorView>>
    decreases steps,
{
    let reply = disk.reply(v.call);
    if steps == 0 {
        None
    } else if v.outcome(key, reply) is Some {
        v.outcome(key, reply)
    } else {
        verify_run(v.next(reply), key, disk, (steps - 1) as nat)
    }
}

/// The result of a read that goes on from `r` and has its calls answered by
/// `disk`, if it ends within `steps` calls.
pub open spec fn read_run(
    r: ReadView,
    key: Option<Seq<u8>>,
    shown: Seq<char>,
    disk: Disk,
    steps: nat,
) -> Option<Result<Seq<u8>, ErrorView>>
    decreases steps,
{
    let reply = disk.reply(r.call());
    if steps == 0 {
        None
    } else if r.outcome(key, shown, reply) is Some {
        r.outcome(key, shown, reply)
    } else {
        read_run(r.next(key, reply), key, shown, disk, (steps - 1) as nat)
    }
}

/// What a write that goes on from `w` does to `disk`, and its result, if it ends
/// within `steps` calls.
pub open spec fn write_run(w: WritingView, content: Seq<u8>, disk: Disk, steps: nat) -> (
    Disk,
    Option<Result<(), ErrorView>>,
)
    decreases steps,
{
    let reply = disk.reply(w.call);
    let after = disk.performed(w.call, content, w.tag->0);
    if steps == 0 {
        (disk, None)
    } else if w.outcome(reply) is Some {
        (after, w.outcome(reply))
    } else {
        write_run(w.next(), content, after, (steps - 1) as nat)
    }
}

/// What a migration that goes on from `m` does to `disk`, and its result, if it
/// ends within `steps` calls.
pub open spec fn migrate_run(m: MigrationView, key: Option<Seq<u8>>, disk: Disk, steps: nat) -> (
    Disk,
    Option<Result<(), ErrorView>>,
)
    decreases steps,
{
    let reply = disk.reply(m.call);
    let after = disk.performed(m.call, Seq::empty(), m.tag);
    if steps == 0 {
        (disk, None)
    } else if m.outcome(key, reply) is Some {
        (after, m.outcome(key, reply))
    } else {
        migrate_run(m.next(key, reply), key, after, (steps - 1) as nat)
    }
}

/// What a removal that goes on with `call` does to `disk`, and its result, if it
/// ends within `steps` calls.
pub open spec fn remove_run(call: FileCall, disk: Disk, steps: nat) -> (
    Disk,
    Option<Result<(), ErrorView>>,
)
    decreases steps,
{
    let reply = disk.reply(call);
    let after = disk.performed(call, Seq::empty(), Seq::empty());
    if steps == 0 {
        (disk, None)
    } else if removal_outcome(call, reply) is Some {
        (after, removal_outcome(call, reply))
    } else {
        remove_run(removal_next(reply), after, (steps - 1) as nat)
    }
}

/// A write ends within three calls and leaves the content and, where there is a
/// key, its tag beside the file and as its trust anchor. A migration ends within
/// four calls and leaves the tags of a file that is there. A removal ends within
/// three calls and leaves neither sidecar nor trust anchor.
pub proof fn law_changes_end(
    key: Option<Seq<u8>>,
    disk: Disk,
    content: Seq<u8>,
    shown: Seq<char>,
)
    ensures
        write_run(fresh_writing(key, content), content, disk, 3) == (
            disk.written(key, content),
            Some(Ok::<(), ErrorView>(())),
        ),
        migrate_run(fresh_migration(shown), key, disk, 4) == (
            disk.migrated(key),
            Some(
                if disk.file is Some {
                    Ok::<(), ErrorView>(())
                } else {
                    Err(ErrorView::KeyNotFound { label: shown })
                },
            ),
        ),
        remove_run(FileCall::SidecarExists, disk, 3) == (
            disk.bare(),
            Some(Ok::<(), ErrorView>(())),
        ),
{
    reveal_with_fuel(write_run, 4);
    reveal_with_fuel(migrate_run, 5);
    reveal_with_fuel(remove_run, 4);
    assert(write_run(fresh_writing(key, content), content, disk, 3).0 =~= disk.written(
        key,
        content,
    ));
    assert(migrate_run(fresh_migration(shown), key, disk, 4).0 =~= disk.migrated(key));
    assert(remove_run(FileCall::SidecarExists, disk, 3).0 =~= disk.bare());
}

/// A verification ends within three calls, with the outcome that the file, its
/// trust anchor and the key have.
pub proof fn law_verify_ends(key: Option<Seq<u8>>, disk: Disk)
    ensures
        verify_run(fresh_verification(), key, disk, 3) == Some(
            Ok::<VerifyOutcome, ErrorView>(disk.verified(key)),
        ),
{
    reveal_with_fuel(verify_run, 4);
}

/// A read ends within five calls. It gives the content, unless the file is
/// missing or was tampered with.
pub proof fn law_read_ends(key: Option<Seq<u8>>, shown: Seq<char>, disk: Disk)
    ensures
        read_run(ReadView::Looking, key, shown, disk, 5) == Some(
            match read_refusal(disk.verified(key), shown) {
                Some(e) => Err(e),
                None => Ok(disk.file->0),
            },
        ),
{
    reveal_with_fuel(read_run, 6);
}

/// Where there is a key and a trust anchor, the content that a read gives is
/// content with that tag, whatever happens to the file while it is read. Content
/// that was not verified is given only where there was no key or no anchor, or
/// the anchor could not be had.
pub proof fn law_read_gives_verified_content(
    r: ReadView,
    key: Option<Seq<u8>>,
    shown: Seq<char>,
    reply: FileReplyView,
    content: Seq<u8>,
)
    requires
        r.wf(),
        file_replies_to(r.call(), reply),
    ensures
        key is Some && r.outcome(key, shown, reply) == Some(Ok::<Seq<u8>, ErrorView>(content))
            && r is Verifying ==> r->Verifying_0.anchor == tag_of(key->0, content),
        r.outcome(key, shown, reply) is None && r.next(key, reply) is Fetching && !(r is Fetching)
            ==> key is None || reply == FileReplyView::Anchor(None) || (r.call()
            == FileCall::LoadAnchor && reply is Failed),
{
}

/// A file that was written through the library verifies, and reads back; where
/// there is no key, verification says so and the file reads back all the same.
pub proof fn law_write_then_verify(
    key: Option<Seq<u8>>,
    disk: Disk,
    content: Seq<u8>,
    shown: Seq<char>,
)
    ensures
        disk.written(key, content).verified(key) == if key is Some {
            VerifyOutcome::Match
        } else {
            VerifyOutcome::StoreUnavailable
        },
        read_run(ReadView::Looking, key, shown, disk.written(key, content), 5) == Some(
            Ok::<Seq<u8>, ErrorView>(content),
        ),
{
    law_read_ends(key, shown, disk.written(key, content));
}

/// A change to a file after it was written is detected, and the changed file is
/// not read, unless the two contents have the same tag. What became of the
/// sidecar, changed, replaced or deleted, makes no difference.
pub proof fn law_change_is_detected(
    key: Seq<u8>,
    disk: Disk,
    content: Seq<u8>,
    changed: Seq<u8>,
    sidecar: Option<Seq<char>>,
    shown: Seq<char>,
)
    ensures
        ({
            let after = Disk {
                file: Some(changed),
                sidecar,
                ..disk.written(Some(key), content)
            };
            let same = tag_of(key, changed) == tag_of(key, content);
            &&& after.verified(Some(key)) == if same {
                VerifyOutcome::Match
            } else {
                VerifyOutcome::Tamper
            }
            &&& !same ==> read_run(ReadView::Looking, Some(key), shown, after, 5) == Some(
                Err::<Seq<u8>, ErrorView>(ErrorView::TamperDetected { path: shown }),
            )
        }),
{
    let after = Disk { file: Some(changed), sidecar, ..disk.written(Some(key), content) };
    law_read_ends(Some(key), shown, after);
}

/// Only a file without a trust anchor counts as never recorded.
pub proof fn law_legacy_has_no_anchor(key: Option<Seq<u8>>, disk: Disk)
    ensures
        disk.verified(key) == VerifyOutcome::Legacy <==> disk.file is Some && key is Some
            && disk.anchor is None,
{
}

/// A file that is there verifies once it was migrated, and migrating it again
/// changes nothing.
pub proof fn law_migrate(key: Seq<u8>, disk: Disk)
    requires
        disk.file is Some,
    ensures
        disk.migrated(Some(key)).verified(Some(key)) == VerifyOutcome::Match,
        disk.migrated(Some(key)).migrated(Some(key)) == disk.migrated(Some(key)),
        disk.migrated(Some(key)).file == disk.file,
{
}

/// Without its integrity data a file counts as never recorded, and its content is
/// what it was.
pub proof fn law_remove(key: Seq<u8>, disk: Disk)
    requires
        disk.file is Some,
    ensures
        disk.bare().verified(Some(key)) == VerifyOutcome::Legacy,
        disk.bare().file == disk.file,
{
}

/// Writing, run from its beginning: afterwards the file holds exactly `content`,
/// the trust anchor is the HMAC-SHA256 of the key and of all of `content`, and the
/// sidecar holds that tag in hexadecimal. Without a key only the file is written.
pub proof fn law_write_records_the_hmac_of_all_content(key: Seq<u8>, disk: Disk, content: Seq<u8>)
    ensures
        write_run(fresh_writing(Some(key), content), content, disk, 3) == (
            Disk {
                file: Some(content),
                sidecar: Some(text::hex_of(crypto::hmac_sha256_of(key, content))),
                anchor: Some(crypto::hmac_sha256_of(key, content)),
            },
            Some(Ok::<(), ErrorView>(())),
        ),
        write_run(fresh_writing(None, content), content, disk, 1) == (
            Disk { file: Some(content), sidecar: disk.sidecar, anchor: disk.anchor },
            Some(Ok::<(), ErrorView>(())),
        ),
{
    reveal_with_fuel(write_run, 4);
    let hmac = crypto::hmac_sha256_of(key, content);
    assert(write_run(fresh_writing(Some(key), content), content, disk, 3).0 =~= (Disk {
        file: Some(content),
        sidecar: Some(text::hex_of(hmac)),
        anchor: Some(hmac),
    }));
    assert(write_run(fresh_writing(None, content), content, disk, 1).0 =~= (Disk {
        file: Some(content),
        sidecar: disk.sidecar,
        anchor: disk.anchor,
    }));
}

/// Verifying, run from its beginning, for every file, sidecar, trust anchor and
/// key: a missing file is not found; without a key nothing is verified; without an
/// anchor the file counts as never recorded; and else it matches exactly where the
/// anchor is the HMAC-SHA256 of the key and of the whole content.
pub proof fn law_verify_compares_the_hmac_of_all_content(
    key: Seq<u8>,
    content: Seq<u8>,
    sidecar: Option<Seq<char>>,
    anchor: Seq<u8>,
)
    ensures
        verify_run(
            fresh_verification(),
            Some(key),
            Disk { file: Some(content), sidecar, anchor: Some(anchor) },
            3,
        ) == Some(
            Ok::<VerifyOutcome, ErrorView>(
                if anchor == crypto::hmac_sha256_of(key, content) {
                    VerifyOutcome::Match
                } else {
                    VerifyOutcome::Tamper
                },
            ),
        ),
        verify_run(
            fresh_verification(),
            Some(key),
            Disk { file: Some(content), sidecar, anchor: None },
            3,
        ) == Some(Ok::<VerifyOutcome, ErrorView>(VerifyOutcome::Legacy)),
        verify_run(
            fresh_verification(),
            None,
            Disk { file: Some(content), sidecar, anchor: Some(anchor) },
            3,
        ) == Some(Ok::<VerifyOutcome, ErrorView>(VerifyOutcome::StoreUnavailable)),
        verify_run(
            fresh_verification(),
            Some(key),
            Disk { file: None, sidecar, anchor: Some(anchor) },
            3,
        ) == Some(Ok::<VerifyOutcome, ErrorView>(VerifyOutcome::NotFound)),
        verify_run(
            fresh_verification(),
            None,
            Disk { file: None, sidecar, anchor: None },
            3,
        ) == Some(Ok::<VerifyOutcome, ErrorView>(VerifyOutcome::NotFound)),
{
    reveal_with_fuel(verify_run, 4);
}

/// Reading, run from its beginning: the content comes back where the anchor is the
/// HMAC-SHA256 of the key and of the whole content, or where there is no key or no
/// anchor; a file with another anchor is refused as tampered with, a missing one as
/// not found.
pub proof fn law_read_returns_or_refuses(
    key: Seq<u8>,
    content: Seq<u8>,
    sidecar: Option<Seq<char>>,
    anchor: Seq<u8>,
    shown: Seq<char>,
)
    ensures
        read_run(
            ReadView::Looking,
            Some(key),
            shown,
            Disk { file: Some(content), sidecar, anchor: Some(anchor) },
            5,
        ) == Some(
            if anchor == crypto::hmac_sha256_of(key, content) {
                Ok::<Seq<u8>, ErrorView>(content)
            } else {
                Err(ErrorView::TamperDetected { path: shown })
            },
        ),
        read_run(
            ReadView::Looking,
            Some(key),
            shown,
            Disk { file: Some(content), sidecar, anchor: None },
            5,
        ) == Some(Ok::<Seq<u8>, ErrorView>(content)),
        read_run(
            ReadView::Looking,
            None,
            shown,
            Disk { file: Some(content), sidecar, anchor: Some(anchor) },
            5,
        ) == Some(Ok::<Seq<u8>, ErrorView>(content)),
        read_run(
            ReadView::Looking,
            Some(key),
            shown,
            Disk { file: None, sidecar, anchor: Some(anchor) },
            5,
        ) == Some(Err::<Seq<u8>, ErrorView>(ErrorView::KeyNotFound { label: shown })),
{
    reveal_with_fuel(read_run, 6);
}

/// A file that was written and then changed, whatever became of its sidecar, is
/// found to be tampered with and not read whenever the HMAC-SHA256 values of the two
/// whole contents differ; and an unchanged one verifies and reads back.
pub proof fn law_changed_file_is_not_read(
    key: Seq<u8>,
    disk: Disk,
    content: Seq<u8>,
    changed: Seq<u8>,
    sidecar: Option<Seq<char>>,
    shown: Seq<char>,
)
    ensures
        ({
            let written = write_run(fresh_writing(Some(key), content), content, disk, 3).0;
            let after = Disk { file: Some(changed), sidecar, anchor: written.anchor };
            &&& crypto::hmac_sha256_of(key, content) != crypto::hmac_sha256_of(key, changed) ==> {
                &&& verify_run(fresh_verification(), Some(key), after, 3) == Some(
                    Ok::<VerifyOutcome, ErrorView>(VerifyOutcome::Tamper),
                )
                &&& read_run(ReadView::Looking, Some(key), shown, after, 5) == Some(
                    Err::<Seq<u8>, ErrorView>(ErrorView::TamperDetected { path: shown }),
                )
            }
            &&& changed == content ==> {
                &&& verify_run(fresh_verification(), Some(key), after, 3) == Some(
                    Ok::<VerifyOutcome, ErrorView>(VerifyOutcome::Match),
                )
                &&& read_run(ReadView::Looking, Some(key), shown, after, 5) == Some(
                    Ok::<Seq<u8>, ErrorView>(content),
                )
            }
        }),
{
    let hmac = crypto::hmac_sha256_of(key, content);
    law_write_records_the_hmac_of_all_content(key, disk, content);
    law_verify_compares_the_hmac_of_all_content(key, changed, sidecar, hmac);
    law_read_returns_or_refuses(key, changed, sidecar, hmac, shown);
}

/// Migrating, run from its beginning: a file that is there gets the HMAC-SHA256 of
/// the key and of its whole content as its trust anchor and, in hexadecimal, as its
/// sidecar, and stays as it is; without a key nothing changes; a missing file is not
/// found.
pub proof fn law_migrate_records_the_hmac_of_all_content(
    key: Seq<u8>,
    content: Seq<u8>,
    sidecar: Option<Seq<char>>,
    anchor: Option<Seq<u8>>,
    shown: Seq<char>,
)
    ensures
        migrate_run(
            fresh_migration(shown),
            Some(key),
            Disk { file: Some(content), sidecar, anchor },
            4,
        ) == (
            Disk {
                file: Some(content),
                sidecar: Some(text::hex_of(crypto::hmac_sha256_of(key, content))),
                anchor: Some(crypto::hmac_sha256_of(key, content)),
            },
            Some(Ok::<(), ErrorView>(())),
        ),
        migrate_run(
            fresh_migration(shown),
            None,
            Disk { file: Some(content), sidecar, anchor },
            1,
        ) == (Disk { file: Some(content), sidecar, anchor }, Some(Ok::<(), ErrorView>(()))),
        migrate_run(
            fresh_migration(shown),
            Some(key),
            Disk { file: None, sidecar, anchor },
            1,
        ) == (
            Disk { file: None, sidecar, anchor },
            Some(Err::<(), ErrorView>(ErrorView::KeyNotFound { label: shown })),
        ),
{
    reveal_with_fuel(migrate_run, 5);
    let hmac = crypto::hmac_sha256_of(key, content);
    assert(migrate_run(
        fresh_migration(shown),
        Some(key),
        Disk { file: Some(content), sidecar, anchor },
        4,
    ).0 =~= (Disk {
        file: Some(content),
        sidecar: Some(text::hex_of(hmac)),
        anchor: Some(hmac),
    }));
}

/// Removing the integrity data, run from its beginning, always succeeds where every
/// call does, leaves the file as it is, and leaves neither sidecar nor anchor.
pub proof fn law_removal_leaves_the_file(disk: Disk)
    ensures
        remove_run(FileCall::SidecarExists, disk, 3) == (
            Disk { file: disk.file, sidecar: None, anchor: None },
            Some(Ok::<(), ErrorView>(())),
        ),
{
    reveal_with_fuel(remove_run, 4);
    assert(remove_run(FileCall::SidecarExists, disk, 3).0 =~= (Disk {
        file: disk.file,
        sidecar: None,
        anchor: None,
    }));
}

/// A call that failed ends its operation with that very error, with one exception: a
/// secure store that does not give the anchor leaves the file unverified.
pub proof fn law_failures_are_passed_on(
    v: VerificationView,
    w: WritingView,
    m: MigrationView,
    call: FileCall,
    key: Option<Seq<u8>>,
    shown: Seq<char>,
    e: ErrorView,
)
    ensures
        v.call == FileCall::ReadFile ==> v.outcome(key, FileReplyView::Failed(e)) == Some(
            Err::<VerifyOutcome, ErrorView>(e),
        ),
        v.call == FileCall::LoadAnchor ==> v.outcome(key, FileReplyView::Failed(e)) == Some(
            Ok::<VerifyOutcome, ErrorView>(VerifyOutcome::StoreUnavailable),
        ),
        v.call == FileCall::ReadFile ==> ReadView::Verifying(v).outcome(
            key,
            shown,
            FileReplyView::Failed(e),
        ) == Some(Err::<Seq<u8>, ErrorView>(e)),
        ReadView::Fetching.outcome(key, shown, FileReplyView::Failed(e)) == Some(
            Err::<Seq<u8>, ErrorView>(e),
        ),
        w.outcome(FileReplyView::Failed(e)) == Some(Err::<(), ErrorView>(e)),
        m.outcome(key, FileReplyView::Failed(e)) == Some(Err::<(), ErrorView>(e)),
        removal_outcome(call, FileReplyView::Failed(e)) == Some(Err::<(), ErrorView>(e)),
{
}

/// The views of results keep what they are views of.
pub proof fn law_results_are_shown_as_they_are(
    o: Option<Result<VerifyOutcome, Error>>,
    c: Option<Result<Vec<u8>, Error>>,
    d: Option<Result<(), Error>>,
)
    ensures
        outcome_result(o) is None <==> o is None,
        o matches Some(Ok(x)) ==> outcome_result(o) == Some(Ok::<VerifyOutcome, ErrorView>(x)),
        o matches Some(Err(e)) ==> outcome_result(o) == Some(Err::<VerifyOutcome, ErrorView>(e@)),
        content_result(c) is None <==> c is None,
        c matches Some(Ok(x)) ==> content_result(c) == Some(Ok::<Seq<u8>, ErrorView>(x@)),
        c matches Some(Err(e)) ==> content_result(c) == Some(Err::<Seq<u8>, ErrorView>(e@)),
        done_result(d) is None <==> d is None,
        d matches Some(Ok(_)) ==> done_result(d) == Some(Ok::<(), ErrorView>(())),
        d matches Some(Err(e)) ==> done_result(d) == Some(Err::<(), ErrorView>(e@)),
{
}

/// The calls take every reply of their kind: any answer to a search, any bytes, any
/// anchor or none, any failure.
pub proof fn law_replies(bytes: Seq<u8>, anchor: Option<Seq<u8>>, found: bool, e: ErrorView)
    ensures
        file_replies_to(FileCall::PathExists, FileReplyView::Found(found)),
        file_replies_to(FileCall::SidecarExists, FileReplyView::Found(found)),
        file_replies_to(FileCall::ReadFile, FileReplyView::Bytes(bytes)),
        file_replies_to(FileCall::ReadFile, FileReplyView::Failed(e)),
        file_replies_to(FileCall::LoadAnchor, FileReplyView::Anchor(anchor)),
        file_replies_to(FileCall::LoadAnchor, FileReplyView::Failed(e)),
        file_replies_to(FileCall::WriteFile, FileReplyView::Done),
        file_replies_to(FileCall::WriteFile, FileReplyView::Failed(e)),
        file_replies_to(FileCall::WriteSidecar, FileReplyView::Done),
        file_replies_to(FileCall::WriteSidecar, FileReplyView::Failed(e)),
        file_replies_to(FileCall::RemoveSidecar, FileReplyView::Done),
        file_replies_to(FileCall::RemoveSidecar, FileReplyView::Failed(e)),
        file_replies_to(FileCall::StoreAnchor, FileReplyView::Done),
        file_replies_to(FileCall::StoreAnchor, FileReplyView::Failed(e)),
        file_replies_to(FileCall::DeleteAnchor, FileReplyView::Done),
        file_replies_to(FileCall::DeleteAnchor, FileReplyView::Failed(e)),
{
}

/// Every operation can begin and go on: its beginning and what follows each of its calls
/// are states of it.
pub proof fn law_operations_can_begin(
    key: Option<Seq<u8>>,
    content: Seq<u8>,
    shown: Seq<char>,
    anchor: Seq<u8>,
)
    ensures
        fresh_verification().wf(),
        (VerificationView { call: FileCall::LoadAnchor, anchor }).wf(),
        (VerificationView { call: FileCall::ReadFile, anchor }).wf(),
        ReadView::Looking.wf(),
        ReadView::Fetching.wf(),
        fresh_writing(key, content).wf(),
        fresh_migration(shown).wf(),
        removal_call(FileCall::SidecarExists),
        removal_call(FileCall::RemoveSidecar),
        removal_call(FileCall::DeleteAnchor),
{
}

}

//! Windows account-password presence check.
//!
//! The user is asked for their Windows password, and the typed credentials are
//! validated by a loopback NTLM handshake against the local security support
//! provider. The module decides; the caller performs one system call at a time
//! and reports its outcome as an [`Event`]. Each step answers with the clean-up
//! to perform, in order, and with the outcome once there is one.
//!
//! The check is a soft gate:
//! - [`PresenceOutcome::Verified`]: the user proved presence;
//! - [`PresenceOutcome::Denied`]: the user cancelled, or entered a wrong
//!   password too many times;
//! - [`PresenceOutcome::Unavailable`]: no prompt could be shown, or the
//!   credentials could not be validated at all. A wrong password is never this.

use crate::secret::{self, zeroize_units};
use crate::text::{self, concat, u32_to_upper_hex, wide_with_nul};
use vstd::prelude::*;

verus! {

/// The dialog returned submitted credentials.
pub const ERROR_SUCCESS_CODE: u32 = 0;

/// The user dismissed the dialog.
pub const ERROR_CANCELLED_CODE: u32 = 1223;

/// Handed to the dialog on a further prompt, so that it shows its hint that the
/// password was wrong.
pub const ERROR_LOGON_FAILURE_CODE: u32 = 1326;

/// How many prompts are shown before a wrong password is final.
pub const MAX_ATTEMPTS: u32 = 3;

/// `SEC_E_OK`.
pub const SEC_E_OK: i32 = 0;

/// `SEC_I_CONTINUE_NEEDED`.
pub const SEC_I_CONTINUE_NEEDED: i32 = 0x0009_0312;

/// `SEC_E_LOGON_DENIED`, `0x8009030C` as a signed status.
pub const SEC_E_LOGON_DENIED: i32 = -0x7ff6_fcf4;

/// Result of a presence check.
#[derive(Debug)]
pub enum PresenceOutcome {
    /// The user proved presence.
    Verified,
    /// The user declined, or failed every attempt. Treat as access denied.
    Denied(String),
    /// No prompt could be shown, or the account cannot be validated this way.
    Unavailable(String),
}

/// The mathematical content of a [`PresenceOutcome`].
pub enum OutcomeView {
    Verified,
    Denied(Seq<char>),
    Unavailable(Seq<char>),
}

impl View for PresenceOutcome {
    type V = OutcomeView;

    open spec fn view(&self) -> OutcomeView {
        match self {
            PresenceOutcome::Verified => OutcomeView::Verified,
            PresenceOutcome::Denied(s) => OutcomeView::Denied(s@),
            PresenceOutcome::Unavailable(s) => OutcomeView::Unavailable(s@),
        }
    }
}

/// Verdict on one set of submitted credentials.
#[derive(Debug)]
pub enum AuthCheck {
    Verified,
    WrongPassword,
    Unavailable(String),
}

/// The mathematical content of an [`AuthCheck`].
pub enum AuthView {
    Verified,
    WrongPassword,
    Unavailable(Seq<char>),
}

impl View for AuthCheck {
    type V = AuthView;

    open spec fn view(&self) -> AuthView {
        match self {
            AuthCheck::Verified => AuthView::Verified,
            AuthCheck::WrongPassword => AuthView::WrongPassword,
            AuthCheck::Unavailable(s) => AuthView::Unavailable(s@),
        }
    }
}

/// A handshake token that the provider allocated: where it is and how long.
#[derive(Clone, Copy, Debug, PartialEq, Eq, Structural)]
pub struct Token {
    pub address: usize,
    pub len: u32,
}

/// What one leg of the handshake returned: its status and the token that the
/// provider allocated, if it did.
#[derive(Clone, Copy, Debug, PartialEq, Eq, Structural)]
pub struct Reply {
    pub status: i32,
    pub token: Option<Token>,
}

/// Something to give back, with no outcome that matters.
#[derive(Clone, Copy, Debug, PartialEq, Eq, Structural)]
pub enum Cleanup {
    /// `FreeContextBuffer` on the token.
    FreeToken(Token),
    /// `DeleteSecurityContext` on the client's context.
    DeleteClientContext,
    /// `DeleteSecurityContext` on the server's context.
    DeleteServerContext,
    /// `FreeCredentialsHandle` on the outbound credential.
    FreeClientCredential,
    /// `FreeCredentialsHandle` on the inbound credential.
    FreeServerCredential,
    /// Overwrite the dialog's credential blob with zeros and free it.
    ScrubBlob,
}

/// The leg of the handshake that is to be performed.
#[derive(Clone, Copy, Debug, PartialEq, Eq, Structural)]
pub enum Loopback {
    /// `InitializeSecurityContextW`, on the client's context where one exists
    /// (`resumed`), fed with the server's token.
    Client { resumed: bool, token: Option<Token> },
    /// `AcceptSecurityContext`, on the server's context where one exists
    /// (`resumed`), fed with the client's token.
    Server { resumed: bool, token: Option<Token> },
}

/// Which SSPI call is to be performed.
#[derive(Clone, Copy, Debug, PartialEq, Eq, Structural)]
pub enum Sspi {
    /// `AcquireCredentialsHandleW` for the typed identity, outbound.
    Outbound,
    /// `AcquireCredentialsHandleW` without an identity, inbound.
    Inbound,
    /// A leg of the handshake.
    Exchange(Loopback),
}

/// Which call the check of a credential blob waits for.
#[derive(Clone, Copy, Debug, PartialEq, Eq, Structural)]
pub enum BlobStage {
    /// `CredUnPackAuthenticationBufferW` without buffers, for the lengths.
    Sizing,
    /// `CredUnPackAuthenticationBufferW` into the buffers.
    Unpacking,
    /// An SSPI call.
    Validating(Sspi),
    /// Nothing: there is a verdict.
    Finished,
}

/// What a system call returned.
#[derive(Clone, Copy, Debug, PartialEq, Eq, Structural)]
pub enum Event {
    /// The dialog's Win32 code, and the size of its blob where it gave one.
    Prompted { code: u32, blob: Option<u32> },
    /// The lengths that the unpacked credentials need, in code units.
    Sized { user: u32, domain: u32, password: u32 },
    /// Whether the credentials were unpacked into the buffers.
    Unpacked { ok: bool },
    /// Whether a credential handle was acquired.
    Acquired { ok: bool },
    /// A leg of the handshake.
    Leg(Reply),
}

/// `status` as an unsigned code.
pub open spec fn status_code(status: i32) -> u32 {
    if status < 0 {
        (status + 0x1_0000_0000) as u32
    } else {
        status as u32
    }
}

fn unsigned_status(status: i32) -> (r: u32)
    ensures
        r == status_code(status),
{
    if status < 0 {
        (status as i64 + 0x1_0000_0000) as u32
    } else {
        status as u32
    }
}

/// `what` with the code behind it, in eight uppercase hexadecimal digits.
pub open spec fn failed(what: Seq<char>, code: u32) -> Seq<char> {
    what + " failed (0x"@ + text::upper_hex8(code) + ")"@
}

fn failure_text(what: &str, code: u32) -> (r: String)
    ensures
        r@ == failed(what@, code),
{
    let head = concat(what, " failed (0x");
    let digits = u32_to_upper_hex(code);
    let most = concat(head.as_str(), digits.as_str());
    concat(most.as_str(), ")")
}

/// The release that a token asks for.
pub open spec fn frees(token: Option<Token>) -> Seq<Cleanup> {
    match token {
        Some(t) => seq![Cleanup::FreeToken(t)],
        None => Seq::empty(),
    }
}

fn push_free(cleanup: &mut Vec<Cleanup>, token: Option<Token>)
    ensures
        final(cleanup)@ == old(cleanup)@ + frees(token),
{
    match token {
        Some(t) => {
            cleanup.push(Cleanup::FreeToken(t));
            assert(cleanup@ =~= old(cleanup)@ + frees(token));
        },
        None => {
            assert(cleanup@ =~= old(cleanup)@ + frees(token));
        },
    }
}

/// The token that a leg is fed with.
pub open spec fn fed(leg: Loopback) -> Option<Token> {
    match leg {
        Loopback::Client { token, .. } => token,
        Loopback::Server { token, .. } => token,
    }
}

/// The verdict that a leg's status brings, if it ends the handshake: the client
/// can only fail to take part, the server accepts, denies, fails or goes on.
pub open spec fn loopback_verdict(leg: Loopback, status: i32) -> Option<AuthView> {
    match leg {
        Loopback::Client { .. } => if status == SEC_E_OK || status == SEC_I_CONTINUE_NEEDED {
            None
        } else {
            Some(
                AuthView::Unavailable(
                    failed("InitializeSecurityContext"@, status_code(status)),
                ),
            )
        },
        Loopback::Server { .. } => if status == SEC_E_OK {
            Some(AuthView::Verified)
        } else if status == SEC_E_LOGON_DENIED {
            Some(AuthView::WrongPassword)
        } else if status == SEC_I_CONTINUE_NEEDED {
            None
        } else {
            Some(AuthView::Unavailable(failed("AcceptSecurityContext"@, status_code(status))))
        },
    }
}

/// The contexts that exist once a leg has been performed.
pub open spec fn contexts_after(leg: Loopback) -> Seq<Cleanup> {
    match leg {
        Loopback::Client { resumed: false, .. } => seq![Cleanup::DeleteClientContext],
        _ => seq![Cleanup::DeleteClientContext, Cleanup::DeleteServerContext],
    }
}

/// What is given back after a leg: the token that the leg was fed with, and,
/// where the handshake ends, the token that it produced and the contexts.
pub open spec fn loopback_cleanup(leg: Loopback, reply: Reply) -> Seq<Cleanup> {
    if loopback_verdict(leg, reply.status) is None {
        frees(fed(leg))
    } else {
        frees(fed(leg)) + frees(reply.token) + contexts_after(leg)
    }
}

/// The leg that follows: the other side, fed with the token just produced.
pub open spec fn loopback_next(leg: Loopback, reply: Reply) -> Loopback {
    match leg {
        Loopback::Client { resumed, .. } => Loopback::Server { resumed, token: reply.token },
        Loopback::Server { .. } => Loopback::Client { resumed: true, token: reply.token },
    }
}

/// One leg of the token exchange between the client and the server: from the
/// leg that was performed and what it returned to the clean-up and either the
/// next leg or the verdict.
pub fn run_loopback(leg: Loopback, reply: Reply) -> (r: (Vec<Cleanup>, Result<Loopback, AuthCheck>))
    ensures
        r.0@ == loopback_cleanup(leg, reply),
        match loopback_verdict(leg, reply.status) {
            Some(v) => r.1 is Err && r.1->Err_0@ == v,
            None => r.1 is Ok && r.1->Ok_0 == loopback_next(leg, reply),
        },
{
    let mut cleanup: Vec<Cleanup> = Vec::new();
    match leg {
        Loopback::Client { resumed, token } => {
            push_free(&mut cleanup, token);
            assert(cleanup@ =~= frees(token));
            if reply.status != SEC_E_OK && reply.status != SEC_I_CONTINUE_NEEDED {
                push_free(&mut cleanup, reply.token);
                cleanup.push(Cleanup::DeleteClientContext);
                if resumed {
                    cleanup.push(Cleanup::DeleteServerContext);
                }
                assert(cleanup@ =~= loopback_cleanup(leg, reply));
                let detail = failure_text(
                    "InitializeSecurityContext",
                    unsigned_status(reply.status),
                );
                return (cleanup, Err(AuthCheck::Unavailable(detail)));
            }
            (cleanup, Ok(Loopback::Server { resumed, token: reply.token }))
        },
        Loopback::Server { resumed: _, token } => {
            push_free(&mut cleanup, token);
            assert(cleanup@ =~= frees(token));
            if reply.status == SEC_I_CONTINUE_NEEDED {
                return (cleanup, Ok(Loopback::Client { resumed: true, token: reply.token }));
            }
            push_free(&mut cleanup, reply.token);
            cleanup.push(Cleanup::DeleteClientContext);
            cleanup.push(Cleanup::DeleteServerContext);
            assert(cleanup@ =~= loopback_cleanup(leg, reply));
            let verdict = if reply.status == SEC_E_OK {
                AuthCheck::Verified
            } else if reply.status == SEC_E_LOGON_DENIED {
                AuthCheck::WrongPassword
            } else {
                AuthCheck::Unavailable(
                    failure_text("AcceptSecurityContext", unsigned_status(reply.status)),
                )
            };
            (cleanup, Err(verdict))
        },
    }
}

/// `event` is the outcome of the SSPI call `stage`.
pub open spec fn sspi_answers(stage: Sspi, event: Event) -> bool {
    match stage {
        Sspi::Outbound => event is Acquired,
        Sspi::Inbound => event is Acquired,
        Sspi::Exchange(_) => event is Leg,
    }
}

/// The verdict that an SSPI call brings, if it ends the validation.
pub open spec fn sspi_verdict(stage: Sspi, event: Event) -> Option<AuthView> {
    match (stage, event) {
        (Sspi::Outbound, Event::Acquired { ok: false }) => Some(
            AuthView::Unavailable("AcquireCredentialsHandle(outbound) failed"@),
        ),
        (Sspi::Inbound, Event::Acquired { ok: false }) => Some(
            AuthView::Unavailable("AcquireCredentialsHandle(inbound) failed"@),
        ),
        (Sspi::Exchange(leg), Event::Leg(reply)) => loopback_verdict(leg, reply.status),
        _ => None,
    }
}

/// The SSPI call that follows.
pub open spec fn sspi_next(stage: Sspi, event: Event) -> Sspi {
    match (stage, event) {
        (Sspi::Outbound, _) => Sspi::Inbound,
        (Sspi::Exchange(leg), Event::Leg(reply)) => Sspi::Exchange(loopback_next(leg, reply)),
        _ => Sspi::Exchange(Loopback::Client { resumed: false, token: None }),
    }
}

/// What is given back after an SSPI call.
pub open spec fn sspi_cleanup(stage: Sspi, event: Event) -> Seq<Cleanup> {
    match (stage, event) {
        (Sspi::Inbound, Event::Acquired { ok: false }) => seq![Cleanup::FreeClientCredential],
        (Sspi::Exchange(leg), Event::Leg(reply)) => if sspi_verdict(stage, event) is None {
            loopback_cleanup(leg, reply)
        } else {
            loopback_cleanup(leg, reply) + seq![
                Cleanup::FreeClientCredential,
                Cleanup::FreeServerCredential,
            ]
        },
        _ => Seq::empty(),
    }
}

/// One call of the NTLM validation: from the SSPI call that was performed and
/// its outcome to the clean-up and either the next call or the verdict. A wrong
/// password is reported only where the server denied the logon; where the
/// handshake cannot be run, the verdict is that the check is unavailable.
pub fn validate_via_sspi(stage: Sspi, event: Event) -> (r: (Vec<Cleanup>, Result<Sspi, AuthCheck>))
    requires
        sspi_answers(stage, event),
    ensures
        r.0@ == sspi_cleanup(stage, event),
        match sspi_verdict(stage, event) {
            Some(v) => r.1 is Err && r.1->Err_0@ == v,
            None => r.1 is Ok && r.1->Ok_0 == sspi_next(stage, event),
        },
{
    let ok: bool = match event {
        Event::Acquired { ok } => ok,
        _ => false,
    };
    let reply: Reply = match event {
        Event::Leg(reply) => reply,
        _ => Reply { status: SEC_E_OK, token: None },
    };
    match stage {
        Sspi::Outbound => {
            let cleanup: Vec<Cleanup> = Vec::new();
            assert(cleanup@ =~= Seq::<Cleanup>::empty());
            if ok {
                (cleanup, Ok(Sspi::Inbound))
            } else {
                (
                    cleanup,
                    Err(
                        AuthCheck::Unavailable(
                            "AcquireCredentialsHandle(outbound) failed".to_owned(),
                        ),
                    ),
                )
            }
        },
        Sspi::Inbound => {
            let mut cleanup: Vec<Cleanup> = Vec::new();
            if ok {
                assert(cleanup@ =~= Seq::<Cleanup>::empty());
                (cleanup, Ok(Sspi::Exchange(Loopback::Client { resumed: false, token: None })))
            } else {
                cleanup.push(Cleanup::FreeClientCredential);
                assert(cleanup@ =~= seq![Cleanup::FreeClientCredential]);
                (
                    cleanup,
                    Err(
                        AuthCheck::Unavailable(
                            "AcquireCredentialsHandle(inbound) failed".to_owned(),
                        ),
                    ),
                )
            }
        },
        Sspi::Exchange(leg) => {
            let (mut cleanup, next) = run_loopback(leg, reply);
            match next {
                Ok(leg) => (cleanup, Ok(Sspi::Exchange(leg))),
                Err(verdict) => {
                    cleanup.push(Cleanup::FreeClientCredential);
                    cleanup.push(Cleanup::FreeServerCredential);
                    assert(cleanup@ =~= sspi_cleanup(stage, event));
                    (cleanup, Err(verdict))
                },
            }
        },
    }
}

/// The unpacked credentials, as UTF-16 buffers.
pub struct Credentials {
    pub user: Vec<u16>,
    pub domain: Vec<u16>,
    pub password: Vec<u16>,
}

/// The mathematical content of [`Credentials`].
#[verifier::ext_equal]
pub struct CredentialsView {
    pub user: Seq<u16>,
    pub domain: Seq<u16>,
    pub password: Seq<u16>,
}

impl View for Credentials {
    type V = CredentialsView;

    open spec fn view(&self) -> CredentialsView {
        CredentialsView { user: self.user@, domain: self.domain@, password: self.password@ }
    }
}

/// Credentials of which nothing is held.
pub open spec fn no_credentials() -> CredentialsView {
    CredentialsView { user: Seq::empty(), domain: Seq::empty(), password: Seq::empty() }
}

/// Zeroed buffers of the given lengths.
pub open spec fn blank_credentials(user: u32, domain: u32, password: u32) -> CredentialsView {
    CredentialsView {
        user: secret::zero_units(user as nat),
        domain: secret::zero_units(domain as nat),
        password: secret::zero_units(password as nat),
    }
}

impl CredentialsView {
    /// The buffers, overwritten with zeros from end to end.
    pub open spec fn scrubbed(self) -> CredentialsView {
        CredentialsView {
            user: secret::zero_units(self.user.len()),
            domain: secret::zero_units(self.domain.len()),
            password: secret::zero_units(self.password.len()),
        }
    }
}

/// The number of code units before the first zero, or all of them.
pub open spec fn wide_len(units: Seq<u16>) -> int
    decreases units.len(),
{
    if units.len() == 0 || units[0] == 0 {
        0
    } else {
        1 + wide_len(units.drop_first())
    }
}

/// The number of code units before the first zero, as the 32-bit length that
/// the system calls take.
pub fn wlen(units: &[u16]) -> (r: u32)
    ensures
        r == wide_len(units@) % 0x1_0000_0000,
{
    let mut n: usize = 0;
    assert(units@.subrange(0, units@.len() as int) =~= units@);
    while n < units.len() && units[n] != 0
        invariant
            n <= units@.len(),
            wide_len(units@) == n + wide_len(units@.subrange(n as int, units@.len() as int)),
        decreases units@.len() - n,
    {
        assert(units@.subrange(n as int, units@.len() as int).drop_first() =~= units@.subrange(
            n + 1,
            units@.len() as int,
        ));
        n += 1;
    }
    (n as u64 % 0x1_0000_0000) as u32
}

/// The identity that the outbound credential is acquired for: how many code
/// units of each buffer count. Without a domain no domain buffer is named.
#[derive(Clone, Copy, Debug, PartialEq, Eq, Structural)]
pub struct Identity {
    pub user_len: u32,
    pub domain_len: Option<u32>,
    pub password_len: u32,
}

/// The identity in the credentials.
pub open spec fn identity_of(c: CredentialsView) -> Identity {
    Identity {
        user_len: (wide_len(c.user) % 0x1_0000_0000) as u32,
        domain_len: if wide_len(c.domain) % 0x1_0000_0000 == 0 {
            None
        } else {
            Some((wide_len(c.domain) % 0x1_0000_0000) as u32)
        },
        password_len: (wide_len(c.password) % 0x1_0000_0000) as u32,
    }
}

impl Credentials {
    /// No credentials.
    fn none() -> (r: Credentials)
        ensures
            r@ == no_credentials(),
    {
        let r = Credentials { user: Vec::new(), domain: Vec::new(), password: Vec::new() };
        assert(r@ =~= no_credentials());
        r
    }

    /// The identity for the outbound credential.
    pub fn identity(&self) -> (r: Identity)
        ensures
            r == identity_of(self@),
            r.user_len == wide_len(self@.user) % 0x1_0000_0000,
            r.password_len == wide_len(self@.password) % 0x1_0000_0000,
            r.domain_len == (if wide_len(self@.domain) % 0x1_0000_0000 == 0 {
                None
            } else {
                Some((wide_len(self@.domain) % 0x1_0000_0000) as u32)
            }),
    {
        let domain: u32 = wlen(self.domain.as_slice());
        Identity {
            user_len: wlen(self.user.as_slice()),
            domain_len: if domain > 0 {
                Some(domain)
            } else {
                None
            },
            password_len: wlen(self.password.as_slice()),
        }
    }

    /// Overwrite the buffers with zeros from end to end.
    pub fn scrub(&mut self)
        ensures
            final(self)@ == old(self)@.scrubbed(),
    {
        zeroize_units(self.user.as_mut_slice());
        zeroize_units(self.domain.as_mut_slice());
        zeroize_units(self.password.as_mut_slice());
        assert(self@ =~= old(self)@.scrubbed());
    }
}

/// The check of one credential blob. While it waits for the credentials to be
/// unpacked, `credentials` holds the buffers to unpack them into.
pub struct BlobCheck {
    pub credentials: Credentials,
    pub stage: BlobStage,
}

/// `event` is the outcome of the call that `stage` waits for.
pub open spec fn blob_answers(stage: BlobStage, event: Event) -> bool {
    match stage {
        BlobStage::Sizing => event is Sized,
        BlobStage::Unpacking => event is Unpacked,
        BlobStage::Validating(sspi) => sspi_answers(sspi, event),
        BlobStage::Finished => false,
    }
}

/// The verdict that a call brings, if it ends the check of the blob.
pub open spec fn blob_verdict(stage: BlobStage, event: Event) -> Option<AuthView> {
    match (stage, event) {
        (BlobStage::Sizing, Event::Sized { user, password, .. }) => if user == 0 || password == 0 {
            Some(AuthView::Unavailable("could not size unpacked credentials"@))
        } else {
            None
        },
        (BlobStage::Unpacking, Event::Unpacked { ok: false }) => Some(
            AuthView::Unavailable("could not unpack credentials"@),
        ),
        (BlobStage::Validating(sspi), _) => sspi_verdict(sspi, event),
        _ => None,
    }
}

/// What the check waits for next.
pub open spec fn blob_next(stage: BlobStage, event: Event) -> BlobStage {
    if blob_verdict(stage, event) is Some {
        BlobStage::Finished
    } else {
        match stage {
            BlobStage::Sizing => BlobStage::Unpacking,
            BlobStage::Validating(sspi) => BlobStage::Validating(sspi_next(sspi, event)),
            _ => BlobStage::Validating(Sspi::Outbound),
        }
    }
}

/// The credentials that are held after a call: nothing but zeros once there is a
/// verdict.
pub open spec fn blob_credentials(
    credentials: CredentialsView,
    stage: BlobStage,
    event: Event,
) -> CredentialsView {
    if blob_verdict(stage, event) is Some {
        credentials.scrubbed()
    } else {
        match (stage, event) {
            (BlobStage::Sizing, Event::Sized { user, domain, password }) => blank_credentials(
                user,
                if domain == 0 {
                    1
                } else {
                    domain
                },
                password,
            ),
            _ => credentials,
        }
    }
}

/// What is given back after a call.
pub open spec fn blob_cleanup(stage: BlobStage, event: Event) -> Seq<Cleanup> {
    match stage {
        BlobStage::Validating(sspi) => sspi_cleanup(sspi, event),
        _ => Seq::empty(),
    }
}

impl BlobCheck {
    /// Begin the check of a blob of `size` bytes, or of none.
    pub fn begin(size: Option<u32>) -> (r: Result<BlobCheck, AuthCheck>)
        ensures
            r is Err <==> size is None || size->0 == 0,
            r matches Err(v) ==> v@ == AuthView::Unavailable("empty credential buffer"@),
            r matches Ok(c) ==> c.stage == BlobStage::Sizing && c.credentials@ == no_credentials(),
    {
        match size {
            Some(n) if n != 0 => Ok(
                BlobCheck { credentials: Credentials::none(), stage: BlobStage::Sizing },
            ),
            _ => Err(AuthCheck::Unavailable("empty credential buffer".to_owned())),
        }
    }

    /// One call of the check of a credential blob: take its outcome, answer
    /// with the clean-up, and with the verdict once there is one. With the
    /// verdict the credentials are all zero.
    pub fn verify_auth_buffer(&mut self, event: Event) -> (r: (Vec<Cleanup>, Option<AuthCheck>))
        requires
            blob_answers(old(self).stage, event),
        ensures
            r.0@ == blob_cleanup(old(self).stage, event),
            match blob_verdict(old(self).stage, event) {
                Some(v) => r.1 is Some && r.1->0@ == v,
                None => r.1 is None,
            },
            final(self).stage == blob_next(old(self).stage, event),
            final(self).credentials@ == blob_credentials(
                old(self).credentials@,
                old(self).stage,
                event,
            ),
    {
        let mut cleanup: Vec<Cleanup> = Vec::new();
        let mut verdict: Option<AuthCheck> = None;
        assert(cleanup@ =~= Seq::<Cleanup>::empty());
        match self.stage {
            BlobStage::Sizing => {
                if let Event::Sized { user, domain, password } = event {
                    if user == 0 || password == 0 {
                        verdict = Some(
                            AuthCheck::Unavailable(
                                "could not size unpacked credentials".to_owned(),
                            ),
                        );
                    } else {
                        let domain: u32 = if domain == 0 {
                            1
                        } else {
                            domain
                        };
                        self.credentials = Credentials {
                            user: vec![0u16; user as usize],
                            domain: vec![0u16; domain as usize],
                            password: vec![0u16; password as usize],
                        };
                        assert(self.credentials@ =~= blank_credentials(user, domain, password));
                        self.stage = BlobStage::Unpacking;
                    }
                }
            },
            BlobStage::Unpacking => {
                if let Event::Unpacked { ok } = event {
                    if ok {
                        self.stage = BlobStage::Validating(Sspi::Outbound);
                    } else {
                        verdict = Some(
                            AuthCheck::Unavailable("could not unpack credentials".to_owned()),
                        );
                    }
                }
            },
            BlobStage::Validating(sspi) => {
                let (given_back, next) = validate_via_sspi(sspi, event);
                cleanup = given_back;
                match next {
                    Ok(sspi) => {
                        self.stage = BlobStage::Validating(sspi);
                    },
                    Err(v) => {
                        verdict = Some(v);
                    },
                }
            },
            BlobStage::Finished => {},
        }
        if verdict.is_some() {
            self.credentials.scrub();
            self.stage = BlobStage::Finished;
        }
        (cleanup, verdict)
    }
}

/// What the presence check waits for.
pub enum Stage {
    /// `CredUIPromptForWindowsCredentialsW`, limited to the current user.
    Prompting,
    /// The check of the blob that the dialog returned.
    Checking(BlobCheck),
    /// Nothing: there is an outcome.
    Finished,
}

/// The mathematical content of a [`Stage`].
pub enum StageView {
    Prompting,
    Checking(CredentialsView, BlobStage),
    Finished,
}

impl View for Stage {
    type V = StageView;

    open spec fn view(&self) -> StageView {
        match self {
            Stage::Prompting => StageView::Prompting,
            Stage::Checking(check) => StageView::Checking(check.credentials@, check.stage),
            Stage::Finished => StageView::Finished,
        }
    }
}

/// A presence check in progress.
pub struct PresenceCheck {
    /// The dialog's message text, as zero-terminated UTF-16.
    pub message: Vec<u16>,
    /// The dialog's caption, as zero-terminated UTF-16.
    pub caption: Vec<u16>,
    /// The error that the next dialog reports.
    pub auth_error: u32,
    /// How many dialogs were shown, the one being waited for included.
    pub attempts: u32,
    pub stage: Stage,
}

/// The mathematical content of a [`PresenceCheck`].
#[verifier::ext_equal]
pub struct CheckView {
    pub message: Seq<u16>,
    pub caption: Seq<u16>,
    pub auth_error: u32,
    pub attempts: u32,
    pub stage: StageView,
}

impl View for PresenceCheck {
    type V = CheckView;

    open spec fn view(&self) -> CheckView {
        CheckView {
            message: self.message@,
            caption: self.caption@,
            auth_error: self.auth_error,
            attempts: self.attempts,
            stage: self.stage@,
        }
    }
}

impl CheckView {
    /// At most [`MAX_ATTEMPTS`] dialogs, and the hint of a wrong password on all
    /// but the first.
    pub open spec fn wf(self) -> bool {
        &&& 1 <= self.attempts <= MAX_ATTEMPTS
        &&& self.auth_error == if self.attempts == 1 {
            0
        } else {
            ERROR_LOGON_FAILURE_CODE
        }
    }

    /// `event` is the outcome of the call that is waited for.
    pub open spec fn answers(self, event: Event) -> bool {
        match self.stage {
            StageView::Prompting => event is Prompted,
            StageView::Checking(_, stage) => blob_answers(stage, event),
            StageView::Finished => false,
        }
    }

    /// The verdict on the submitted credentials, where the event brings one.
    pub open spec fn auth(self, event: Event) -> Option<AuthView> {
        match (self.stage, event) {
            (StageView::Prompting, Event::Prompted { code, blob }) => if code
                == ERROR_SUCCESS_CODE && (blob is None || blob->0 == 0) {
                Some(AuthView::Unavailable("empty credential buffer"@))
            } else {
                None
            },
            (StageView::Checking(_, stage), _) => blob_verdict(stage, event),
            _ => None,
        }
    }

    /// The outcome, where the event brings one.
    pub open spec fn outcome(self, event: Event) -> Option<OutcomeView> {
        match (self.stage, event) {
            (StageView::Prompting, Event::Prompted { code, .. }) if code
                == ERROR_CANCELLED_CODE => Some(
                OutcomeView::Denied("user cancelled the password prompt"@),
            ),
            (StageView::Prompting, Event::Prompted { code, .. }) if code
                != ERROR_SUCCESS_CODE => Some(
                OutcomeView::Unavailable(failed("CredUIPromptForWindowsCredentialsW"@, code)),
            ),
            _ => match self.auth(event) {
                Some(AuthView::Verified) => Some(OutcomeView::Verified),
                Some(AuthView::WrongPassword) => if self.attempts >= MAX_ATTEMPTS {
                    Some(OutcomeView::Denied("Windows password could not be verified"@))
                } else {
                    None
                },
                Some(AuthView::Unavailable(detail)) => Some(OutcomeView::Unavailable(detail)),
                None => None,
            },
        }
    }

    /// The check after the event: finished with an outcome, in front of another
    /// dialog after a wrong password, or further on with the same blob.
    pub open spec fn next(self, event: Event) -> CheckView {
        if self.outcome(event) is Some {
            CheckView { stage: StageView::Finished, ..self }
        } else if self.auth(event) is Some {
            CheckView {
                stage: StageView::Prompting,
                auth_error: ERROR_LOGON_FAILURE_CODE,
                attempts: (self.attempts + 1) as u32,
                ..self
            }
        } else {
            CheckView {
                stage: match self.stage {
                    StageView::Checking(credentials, stage) => StageView::Checking(
                        blob_credentials(credentials, stage, event),
                        blob_next(stage, event),
                    ),
                    _ => StageView::Checking(no_credentials(), BlobStage::Sizing),
                },
                ..self
            }
        }
    }

    /// What is given back after the event. The dialog's blob goes last, once
    /// its credentials are judged.
    pub open spec fn cleanup(self, event: Event) -> Seq<Cleanup> {
        match (self.stage, event) {
            (StageView::Prompting, Event::Prompted { blob, .. }) => if self.auth(event) is Some
                && blob is Some {
                seq![Cleanup::ScrubBlob]
            } else {
                Seq::empty()
            },
            (StageView::Checking(_, stage), _) => if self.auth(event) is Some {
                blob_cleanup(stage, event).push(Cleanup::ScrubBlob)
            } else {
                blob_cleanup(stage, event)
            },
            _ => Seq::empty(),
        }
    }
}

/// The check before its first dialog, which shows `reason`.
pub open spec fn fresh_check(reason: Seq<char>) -> CheckView {
    CheckView {
        message: text::utf16_of(reason).push(0),
        caption: text::utf16_of("gocode-dev"@).push(0),
        auth_error: 0,
        attempts: 1,
        stage: StageView::Prompting,
    }
}

/// Begin to verify the presence of the current user. The dialog shows `reason`.
pub fn verify_current_user(reason: &str) -> (r: PresenceCheck)
    ensures
        r@ == fresh_check(reason@),
        r@.wf(),
{
    PresenceCheck {
        message: wide_with_nul(reason),
        caption: wide_with_nul("gocode-dev"),
        auth_error: 0,
        attempts: 1,
        stage: Stage::Prompting,
    }
}

impl PresenceCheck {
    /// Take the outcome of the call that is waited for, answer with the
    /// clean-up, and with the outcome of the check once there is one.
    pub fn advance(&mut self, event: Event) -> (r: (Vec<Cleanup>, Option<PresenceOutcome>))
        requires
            old(self)@.wf(),
            old(self)@.answers(event),
        ensures
            r.0@ == old(self)@.cleanup(event),
            match old(self)@.outcome(event) {
                Some(o) => r.1 is Some && r.1->0@ == o,
                None => r.1 is None,
            },
            final(self)@ == old(self)@.next(event),
            final(self)@.wf(),
    {
        let mut cleanup: Vec<Cleanup> = Vec::new();
        assert(cleanup@ =~= Seq::<Cleanup>::empty());
        let mut verdict: Option<AuthCheck> = None;
        match &mut self.stage {
            Stage::Prompting => {
                if let Event::Prompted { code, blob } = event {
                    if code == ERROR_CANCELLED_CODE {
                        self.stage = Stage::Finished;
                        return (
                            cleanup,
                            Some(
                                PresenceOutcome::Denied(
                                    "user cancelled the password prompt".to_owned(),
                                ),
                            ),
                        );
                    }
                    if code != ERROR_SUCCESS_CODE {
                        self.stage = Stage::Finished;
                        let detail = failure_text("CredUIPromptForWindowsCredentialsW", code);
                        return (cleanup, Some(PresenceOutcome::Unavailable(detail)));
                    }
                    match BlobCheck::begin(blob) {
                        Ok(check) => {
                            self.stage = Stage::Checking(check);
                        },
                        Err(v) => {
                            if blob.is_some() {
                                cleanup.push(Cleanup::ScrubBlob);
                                assert(cleanup@ =~= seq![Cleanup::ScrubBlob]);
                            }
                            verdict = Some(v);
                        },
                    }
                }
            },
            Stage::Checking(check) => {
                let (given_back, v) = check.verify_auth_buffer(event);
                cleanup = given_back;
                if v.is_some() {
                    cleanup.push(Cleanup::ScrubBlob);
                }
                verdict = v;
            },
            Stage::Finished => {},
        }
        match verdict {
            None => (cleanup, None),
            Some(AuthCheck::Verified) => {
                self.stage = Stage::Finished;
                (cleanup, Some(PresenceOutcome::Verified))
            },
            Some(AuthCheck::WrongPassword) => {
                if self.attempts >= MAX_ATTEMPTS {
                    self.stage = Stage::Finished;
                    (
                        cleanup,
                        Some(
                            PresenceOutcome::Denied(
                                "Windows password could not be verified".to_owned(),
                            ),
                        ),
                    )
                } else {
                    self.auth_error = ERROR_LOGON_FAILURE_CODE;
                    self.attempts += 1;
                    self.stage = Stage::Prompting;
                    (cleanup, None)
                }
            },
            Some(AuthCheck::Unavailable(detail)) => {
                self.stage = Stage::Finished;
                (cleanup, Some(PresenceOutcome::Unavailable(detail)))
            },
        }
    }
}

/// What is owed while a leg of the handshake is waited for: its input token and
/// the contexts that exist.
pub open spec fn loopback_owes(leg: Loopback) -> Seq<Cleanup> {
    frees(fed(leg)) + match leg {
        Loopback::Client { resumed: false, .. } => Seq::empty(),
        Loopback::Server { resumed: false, .. } => seq![Cleanup::DeleteClientContext],
        _ => seq![Cleanup::DeleteClientContext, Cleanup::DeleteServerContext],
    }
}

/// What is owed while an SSPI call is waited for.
pub open spec fn sspi_owes(stage: Sspi) -> Seq<Cleanup> {
    match stage {
        Sspi::Outbound => Seq::empty(),
        Sspi::Inbound => seq![Cleanup::FreeClientCredential],
        Sspi::Exchange(leg) => loopback_owes(leg) + seq![
            Cleanup::FreeClientCredential,
            Cleanup::FreeServerCredential,
        ],
    }
}

/// What an SSPI call brings into being, to be given back later: an acquired
/// credential, a context on its first use, a token.
pub open spec fn sspi_brings(stage: Sspi, event: Event) -> Seq<Cleanup> {
    match (stage, event) {
        (Sspi::Outbound, Event::Acquired { ok: true }) => seq![Cleanup::FreeClientCredential],
        (Sspi::Inbound, Event::Acquired { ok: true }) => seq![Cleanup::FreeServerCredential],
        (Sspi::Exchange(leg), Event::Leg(reply)) => frees(reply.token) + match leg {
            Loopback::Client { resumed: false, .. } => seq![Cleanup::DeleteClientContext],
            Loopback::Server { resumed: false, .. } => seq![Cleanup::DeleteServerContext],
            _ => Seq::empty(),
        },
        _ => Seq::empty(),
    }
}

impl CheckView {
    /// What the check owes in this state. Before a dialog and at the end it is
    /// nothing.
    pub open spec fn owes(self) -> Seq<Cleanup> {
        match self.stage {
            StageView::Checking(_, BlobStage::Validating(sspi)) => sspi_owes(sspi).push(
                Cleanup::ScrubBlob,
            ),
            StageView::Checking(_, _) => seq![Cleanup::ScrubBlob],
            _ => Seq::empty(),
        }
    }

    /// What the call behind `event` brings into being, to be given back later.
    /// A dialog that did not succeed brings no blob.
    pub open spec fn brings(self, event: Event) -> Seq<Cleanup> {
        match (self.stage, event) {
            (StageView::Prompting, Event::Prompted { code, blob }) => if code
                == ERROR_SUCCESS_CODE && blob is Some {
                seq![Cleanup::ScrubBlob]
            } else {
                Seq::empty()
            },
            (StageView::Checking(_, BlobStage::Validating(sspi)), _) => sspi_brings(sspi, event),
            _ => Seq::empty(),
        }
    }

    /// The check after a whole run of events.
    pub open spec fn run(self, events: Seq<Event>) -> CheckView
        decreases events.len(),
    {
        if events.len() == 0 {
            self
        } else {
            self.run(events.drop_last()).next(events.last())
        }
    }

    /// Every event of the run is the outcome of the call waited for.
    pub open spec fn accepts(self, events: Seq<Event>) -> bool {
        forall|i: int|
            0 <= i < events.len() ==> self.run(events.subrange(0, i)).answers(#[trigger] events[i])
    }

    /// All that a run gives back.
    pub open spec fn all_cleanup(self, events: Seq<Event>) -> Seq<Cleanup>
        decreases events.len(),
    {
        if events.len() == 0 {
            Seq::empty()
        } else {
            self.all_cleanup(events.drop_last()) + self.run(events.drop_last()).cleanup(
                events.last(),
            )
        }
    }

    /// All that a run brings into being.
    pub open spec fn all_brought(self, events: Seq<Event>) -> Seq<Cleanup>
        decreases events.len(),
    {
        if events.len() == 0 {
            Seq::empty()
        } else {
            self.all_brought(events.drop_last()) + self.run(events.drop_last()).brings(
                events.last(),
            )
        }
    }
}

/// How often `item` occurs in `items`.
pub open spec fn times(items: Seq<Cleanup>, item: Cleanup) -> int
    decreases items.len(),
{
    if items.len() == 0 {
        0
    } else {
        times(items.drop_last(), item) + if items.last() == item {
            1int
        } else {
            0
        }
    }
}

proof fn lemma_times_concat(a: Seq<Cleanup>, b: Seq<Cleanup>, item: Cleanup)
    ensures
        times(a + b, item) == times(a, item) + times(b, item),
    decreases b.len(),
{
    if b.len() == 0 {
        assert(a + b =~= a);
    } else {
        assert((a + b).drop_last() =~= a + b.drop_last());
        lemma_times_concat(a, b.drop_last(), item);
    }
}

proof fn lemma_times_small(a: Cleanup, b: Cleanup, item: Cleanup)
    ensures
        times(seq![a], item) == (if a == item { 1int } else { 0 }),
        times(seq![a, b], item) == times(seq![a], item) + times(seq![b], item),
{
    assert(seq![a].drop_last() =~= Seq::<Cleanup>::empty());
    assert(seq![b].drop_last() =~= Seq::<Cleanup>::empty());
    assert(seq![a, b].drop_last() =~= seq![a]);
    assert(times(seq![a].drop_last(), item) == 0);
    assert(times(seq![b].drop_last(), item) == 0);
}

proof fn lemma_times_push(items: Seq<Cleanup>, a: Cleanup, item: Cleanup)
    ensures
        times(items.push(a), item) == times(items, item) + times(seq![a], item),
{
    lemma_times_small(a, a, item);
    assert(items.push(a).drop_last() =~= items);
}

proof fn lemma_loopback_balances(leg: Loopback, reply: Reply, item: Cleanup)
    ensures
        times(loopback_owes(leg), item) + times(
            sspi_brings(Sspi::Exchange(leg), Event::Leg(reply)),
            item,
        ) == times(loopback_cleanup(leg, reply), item) + if loopback_verdict(leg, reply.status)
            is Some {
            0
        } else {
            times(loopback_owes(loopback_next(leg, reply)), item)
        },
{
    let one = Cleanup::DeleteClientContext;
    let two = Cleanup::DeleteServerContext;
    let none = Seq::<Cleanup>::empty();
    lemma_times_small(one, two, item);
    let held = frees(fed(leg));
    let made = frees(reply.token);
    lemma_times_concat(held, none, item);
    lemma_times_concat(held, seq![one], item);
    lemma_times_concat(held, seq![one, two], item);
    lemma_times_concat(made, none, item);
    lemma_times_concat(made, seq![one], item);
    lemma_times_concat(made, seq![two], item);
    lemma_times_concat(made, seq![one, two], item);
    lemma_times_concat(held, made, item);
    lemma_times_concat(held + made, seq![one], item);
    lemma_times_concat(held + made, seq![one, two], item);
}

proof fn lemma_sspi_balances(stage: Sspi, event: Event, item: Cleanup)
    requires
        sspi_answers(stage, event),
    ensures
        times(sspi_owes(stage), item) + times(sspi_brings(stage, event), item) == times(
            sspi_cleanup(stage, event),
            item,
        ) + if sspi_verdict(stage, event) is Some {
            0
        } else {
            times(sspi_owes(sspi_next(stage, event)), item)
        },
{
    let none = Seq::<Cleanup>::empty();
    let client = Cleanup::FreeClientCredential;
    let server = Cleanup::FreeServerCredential;
    lemma_times_small(client, server, item);
    match stage {
        Sspi::Exchange(leg) => {
            let reply = event->Leg_0;
            lemma_loopback_balances(leg, reply, item);
            lemma_times_concat(loopback_owes(leg), seq![client, server], item);
            lemma_times_concat(
                loopback_owes(loopback_next(leg, reply)),
                seq![client, server],
                item,
            );
            lemma_times_concat(loopback_cleanup(leg, reply), seq![client, server], item);
        },
        _ => {
            let first = Loopback::Client { resumed: false, token: None };
            assert(loopback_owes(first) =~= none);
            lemma_times_concat(none, seq![client, server], item);
        },
    }
}

/// In every step, what was owed and what the call brought into being is either
/// given back or still owed: nothing leaks and nothing is given back twice.
pub proof fn law_step_balances(check: CheckView, event: Event, item: Cleanup)
    requires
        check.answers(event),
    ensures
        times(check.owes(), item) + times(check.brings(event), item) == times(
            check.next(event).owes(),
            item,
        ) + times(check.cleanup(event), item),
{
    let blob = Cleanup::ScrubBlob;
    match check.stage {
        StageView::Checking(_, BlobStage::Validating(sspi)) => {
            lemma_sspi_balances(sspi, event, item);
            lemma_times_push(sspi_owes(sspi), blob, item);
            lemma_times_push(sspi_owes(sspi_next(sspi, event)), blob, item);
            lemma_times_push(sspi_cleanup(sspi, event), blob, item);
        },
        _ => {
            lemma_times_push(Seq::<Cleanup>::empty(), blob, item);
            assert(sspi_owes(Sspi::Outbound) =~= Seq::<Cleanup>::empty());
            assert(Seq::<Cleanup>::empty().push(blob) =~= seq![blob]);
        },
    }
}

proof fn lemma_accepts_prefix(start: CheckView, events: Seq<Event>)
    requires
        start.accepts(events),
        events.len() > 0,
    ensures
        start.accepts(events.drop_last()),
        start.run(events.drop_last()).answers(events.last()),
{
    let before = events.drop_last();
    assert(events.subrange(0, events.len() - 1) =~= before);
    assert(start.run(before).answers(events[events.len() - 1]));
    assert forall|i: int| 0 <= i < before.len() implies start.run(before.subrange(0, i)).answers(
        #[trigger] before[i],
    ) by {
        assert(before.subrange(0, i) =~= events.subrange(0, i));
        assert(before[i] == events[i]);
    }
}

/// Over a whole run from a fresh check, everything that was brought into being
/// and is not owed any more has been given back, each thing once. In particular
/// a finished check has given back all of it: every token, context, credential
/// handle and blob.
pub proof fn law_run_balances(reason: Seq<char>, events: Seq<Event>, item: Cleanup)
    requires
        fresh_check(reason).accepts(events),
    ensures
        times(fresh_check(reason).all_brought(events), item) == times(
            fresh_check(reason).run(events).owes(),
            item,
        ) + times(fresh_check(reason).all_cleanup(events), item),
        fresh_check(reason).run(events).stage is Finished ==> times(
            fresh_check(reason).all_brought(events),
            item,
        ) == times(fresh_check(reason).all_cleanup(events), item),
    decreases events.len(),
{
    let start = fresh_check(reason);
    if events.len() > 0 {
        let before = events.drop_last();
        let event = events.last();
        lemma_accepts_prefix(start, events);
        law_run_balances(reason, before, item);
        law_step_balances(start.run(before), event, item);
        lemma_times_concat(start.all_brought(before), start.run(before).brings(event), item);
        lemma_times_concat(start.all_cleanup(before), start.run(before).cleanup(event), item);
    }
}

/// How many dialogs a run shows.
pub open spec fn prompts(events: Seq<Event>) -> int
    decreases events.len(),
{
    if events.len() == 0 {
        0
    } else {
        prompts(events.drop_last()) + if events.last() is Prompted {
            1int
        } else {
            0
        }
    }
}

/// A run from a fresh check shows at most [`MAX_ATTEMPTS`] dialogs, and the
/// check keeps count of them.
pub proof fn law_prompts_are_bounded(reason: Seq<char>, events: Seq<Event>)
    requires
        fresh_check(reason).accepts(events),
    ensures
        fresh_check(reason).run(events).wf(),
        prompts(events) <= MAX_ATTEMPTS,
        fresh_check(reason).run(events).attempts == prompts(events) + if fresh_check(reason).run(
            events,
        ).stage is Prompting {
            1int
        } else {
            0
        },
    decreases events.len(),
{
    if events.len() > 0 {
        lemma_accepts_prefix(fresh_check(reason), events);
        law_prompts_are_bounded(reason, events.drop_last());
    }
}

/// The user counts as verified exactly where the server's side of the handshake
/// accepted; access is denied exactly where the dialog was cancelled or the
/// server denied the logon on the last attempt; and a denied logon never makes
/// the check unavailable.
pub proof fn law_outcomes(check: CheckView, event: Event)
    requires
        check.wf(),
        check.answers(event),
    ensures
        check.outcome(event) matches Some(OutcomeView::Verified) <==> server_said(
            check,
            event,
            SEC_E_OK,
        ),
        check.outcome(event) matches Some(OutcomeView::Denied(_)) <==> ({
            ||| event matches Event::Prompted { code, .. } && code == ERROR_CANCELLED_CODE
            ||| server_said(check, event, SEC_E_LOGON_DENIED) && check.attempts == MAX_ATTEMPTS
        }),
        server_said(check, event, SEC_E_LOGON_DENIED) ==> !(check.outcome(event) matches Some(
            OutcomeView::Unavailable(_),
        )),
{
}

/// The event is the server's leg of the handshake, with `status`.
pub open spec fn server_said(check: CheckView, event: Event, status: i32) -> bool {
    &&& check.stage matches StageView::Checking(
        _,
        BlobStage::Validating(Sspi::Exchange(Loopback::Server { .. })),
    )
    &&& event matches Event::Leg(reply)
    &&& event->Leg_0.status == status
}

/// With a verdict, whatever it is, every unit of the unpacked credentials is zero
/// before the buffers go.
pub proof fn law_credentials_are_wiped(credentials: CredentialsView, stage: BlobStage, event: Event)
    requires
        blob_answers(stage, event),
        blob_verdict(stage, event) is Some,
    ensures
        ({
            let after = blob_credentials(credentials, stage, event);
            &&& after.user.len() == credentials.user.len()
            &&& after.domain.len() == credentials.domain.len()
            &&& after.password.len() == credentials.password.len()
            &&& forall|i: int| 0 <= i < after.user.len() ==> after.user[i] == 0
            &&& forall|i: int| 0 <= i < after.domain.len() ==> after.domain[i] == 0
            &&& forall|i: int| 0 <= i < after.password.len() ==> after.password[i] == 0
        }),
{
}

/// The answer of the dialog, for every code and every blob. Cancelling denies; any
/// other failure, and a dialog without credentials, makes the check unavailable; and
/// credentials of any size are looked at.
pub proof fn law_dialog_answers(check: CheckView, code: u32, blob: Option<u32>)
    requires
        check.stage is Prompting,
    ensures
        ({
            let event = Event::Prompted { code, blob };
            let after = check.next(event);
            &&& check.answers(event)
            &&& after.message == check.message && after.caption == check.caption
                && after.attempts == check.attempts && after.auth_error == check.auth_error
            &&& code == 1223 ==> check.outcome(event) == Some(
                OutcomeView::Denied("user cancelled the password prompt"@),
            )
            &&& code != 0 && code != 1223 ==> check.outcome(event) == Some(
                OutcomeView::Unavailable(
                    "CredUIPromptForWindowsCredentialsW"@ + " failed (0x"@ + text::upper_hex8(code)
                        + ")"@,
                ),
            )
            &&& code == 0 && (blob is None || blob == Some(0u32)) ==> check.outcome(event) == Some(
                OutcomeView::Unavailable("empty credential buffer"@),
            )
            &&& code != 0 || blob is None || blob == Some(0u32) ==> after.stage is Finished
            &&& code == 0 && blob is Some && blob->0 > 0 ==> {
                &&& check.outcome(event) is None
                &&& after.stage == StageView::Checking(
                    CredentialsView {
                        user: Seq::empty(),
                        domain: Seq::empty(),
                        password: Seq::empty(),
                    },
                    BlobStage::Sizing,
                )
            }
            &&& code != 0 || blob is None || blob->0 > 0 ==> check.cleanup(event).len() == 0
            &&& code == 0 && blob == Some(0u32) ==> check.cleanup(event) == seq![
                Cleanup::ScrubBlob,
            ]
        }),
{
}

/// The lengths of the credentials, for every triple of them: the check ends exactly
/// where the user's or the password's is zero; else it goes on to unpacking, into
/// zeroed buffers of those lengths, with room for at least one unit of the domain.
pub proof fn law_lengths_make_room(
    check: CheckView,
    credentials: CredentialsView,
    user: u32,
    domain: u32,
    password: u32,
)
    requires
        check.stage == StageView::Checking(credentials, BlobStage::Sizing),
    ensures
        ({
            let event = Event::Sized { user, domain, password };
            let after = check.next(event);
            &&& check.answers(event)
            &&& user == 0 || password == 0 ==> check.outcome(event) == Some(
                OutcomeView::Unavailable("could not size unpacked credentials"@),
            ) && after.stage is Finished && check.cleanup(event) == seq![Cleanup::ScrubBlob]
            &&& user > 0 && password > 0 ==> {
                &&& check.outcome(event) is None
                &&& check.cleanup(event).len() == 0
                &&& after.attempts == check.attempts
                &&& after.stage matches StageView::Checking(c, BlobStage::Unpacking)
                    && c.user.len() == user && c.password.len() == password && c.domain.len() == (
                if domain == 0 {
                    1
                } else {
                    domain as int
                }) && (forall|i: int| 0 <= i < c.user.len() ==> c.user[i] == 0) && (forall|i: int|
                    0 <= i < c.domain.len() ==> c.domain[i] == 0) && (forall|i: int|
                    0 <= i < c.password.len() ==> c.password[i] == 0)
            }
        }),
{
    assert(blob_cleanup(BlobStage::Sizing, Event::Sized { user, domain, password }).push(
        Cleanup::ScrubBlob,
    ) =~= seq![Cleanup::ScrubBlob]);
}

/// Unpacking: where it failed the check is unavailable; else the credentials are
/// validated as they were unpacked.
pub proof fn law_unpacked_credentials_are_validated(
    check: CheckView,
    credentials: CredentialsView,
    ok: bool,
)
    requires
        check.stage == StageView::Checking(credentials, BlobStage::Unpacking),
    ensures
        ({
            let event = Event::Unpacked { ok };
            let after = check.next(event);
            &&& check.answers(event)
            &&& ok ==> check.outcome(event) is None && after.stage == StageView::Checking(
                credentials,
                BlobStage::Validating(Sspi::Outbound),
            ) && after.attempts == check.attempts && check.cleanup(event).len() == 0
            &&& !ok ==> check.outcome(event) == Some(
                OutcomeView::Unavailable("could not unpack credentials"@),
            ) && after.stage is Finished && check.cleanup(event) == seq![Cleanup::ScrubBlob]
        }),
{
    assert(blob_cleanup(BlobStage::Unpacking, Event::Unpacked { ok }).push(Cleanup::ScrubBlob)
        =~= seq![Cleanup::ScrubBlob]);
}

/// Acquiring the two credential handles: the outbound one first, then the inbound
/// one, then the client begins the handshake without a token. What cannot be acquired
/// makes the check unavailable, and what was acquired is freed.
pub proof fn law_handles_are_acquired_in_turn(
    check: CheckView,
    credentials: CredentialsView,
    inbound: bool,
    ok: bool,
)
    requires
        check.stage == StageView::Checking(
            credentials,
            BlobStage::Validating(
                if inbound {
                    Sspi::Inbound
                } else {
                    Sspi::Outbound
                },
            ),
        ),
    ensures
        ({
            let event = Event::Acquired { ok };
            let after = check.next(event);
            &&& check.answers(event)
            &&& ok ==> check.outcome(event) is None && after.attempts == check.attempts
                && check.cleanup(event).len() == 0 && after.stage == StageView::Checking(
                credentials,
                BlobStage::Validating(
                    if inbound {
                        Sspi::Exchange(Loopback::Client { resumed: false, token: None })
                    } else {
                        Sspi::Inbound
                    },
                ),
            )
            &&& !ok ==> after.stage is Finished && check.outcome(event) == Some(
                OutcomeView::Unavailable(
                    if inbound {
                        "AcquireCredentialsHandle(inbound) failed"@
                    } else {
                        "AcquireCredentialsHandle(outbound) failed"@
                    },
                ),
            ) && check.cleanup(event) == if inbound {
                seq![Cleanup::FreeClientCredential, Cleanup::ScrubBlob]
            } else {
                seq![Cleanup::ScrubBlob]
            }
        }),
{
    let event = Event::Acquired { ok };
    if !ok {
        assert(check.cleanup(event) =~= if inbound {
            seq![Cleanup::FreeClientCredential, Cleanup::ScrubBlob]
        } else {
            seq![Cleanup::ScrubBlob]
        });
    }
}

/// The client's leg of the handshake, for every status and token: the two statuses
/// that mean progress hand its token on to the server, every other one makes the
/// check unavailable.
pub proof fn law_client_leg(
    check: CheckView,
    credentials: CredentialsView,
    resumed: bool,
    token: Option<Token>,
    reply: Reply,
)
    requires
        check.stage == StageView::Checking(
            credentials,
            BlobStage::Validating(Sspi::Exchange(Loopback::Client { resumed, token })),
        ),
    ensures
        ({
            let event = Event::Leg(reply);
            let after = check.next(event);
            &&& check.answers(event)
            &&& reply.status == 0 || reply.status == 0x0009_0312 ==> check.outcome(event) is None
                && after.attempts == check.attempts && after.stage == StageView::Checking(
                credentials,
                BlobStage::Validating(
                    Sspi::Exchange(Loopback::Server { resumed, token: reply.token }),
                ),
            )
            &&& reply.status != 0 && reply.status != 0x0009_0312 ==> after.stage is Finished
                && check.outcome(event) == Some(
                OutcomeView::Unavailable(
                    "InitializeSecurityContext"@ + " failed (0x"@ + text::upper_hex8(
                        if reply.status < 0 {
                            (reply.status + 0x1_0000_0000) as u32
                        } else {
                            reply.status as u32
                        },
                    ) + ")"@,
                ),
            )
        }),
{
}

/// The server's leg of the handshake, for every status and token: acceptance
/// verifies; a denied logon leads to another dialog, with the hint of a wrong
/// password, on the first two attempts and to denial on the third; continuing hands
/// its token back to the client; every other status makes the check unavailable.
pub proof fn law_server_leg(
    check: CheckView,
    credentials: CredentialsView,
    resumed: bool,
    token: Option<Token>,
    reply: Reply,
)
    requires
        check.wf(),
        check.stage == StageView::Checking(
            credentials,
            BlobStage::Validating(Sspi::Exchange(Loopback::Server { resumed, token })),
        ),
    ensures
        ({
            let event = Event::Leg(reply);
            let after = check.next(event);
            &&& check.answers(event)
            &&& reply.status == 0 ==> check.outcome(event) == Some(OutcomeView::Verified)
                && after.stage is Finished
            &&& reply.status == -0x7ff6_fcf4 && check.attempts < 3 ==> check.outcome(event) is None
                && after.stage is Prompting && after.attempts == check.attempts + 1
                && after.auth_error == 1326 && after.message == check.message && after.caption
                == check.caption
            &&& reply.status == -0x7ff6_fcf4 && check.attempts == 3 ==> check.outcome(event)
                == Some(OutcomeView::Denied("Windows password could not be verified"@))
                && after.stage is Finished
            &&& reply.status == 0x0009_0312 ==> check.outcome(event) is None && after.attempts
                == check.attempts && after.stage == StageView::Checking(
                credentials,
                BlobStage::Validating(
                    Sspi::Exchange(Loopback::Client { resumed: true, token: reply.token }),
                ),
            )
            &&& reply.status != 0 && reply.status != -0x7ff6_fcf4 && reply.status != 0x0009_0312
                ==> after.stage is Finished && check.outcome(event) == Some(
                OutcomeView::Unavailable(
                    "AcceptSecurityContext"@ + " failed (0x"@ + text::upper_hex8(
                        if reply.status < 0 {
                            (reply.status + 0x1_0000_0000) as u32
                        } else {
                            reply.status as u32
                        },
                    ) + ")"@,
                ),
            )
        }),
{
}

/// What a leg gives back, and in which order. A leg that goes on frees the token it
/// was fed with and nothing else. One that ends the handshake frees that token, then
/// the token it produced, then the contexts, then the credential handles, then the
/// blob.
pub proof fn law_legs_clean_up_in_order(
    check: CheckView,
    credentials: CredentialsView,
    leg: Loopback,
    reply: Reply,
)
    requires
        check.stage == StageView::Checking(credentials, BlobStage::Validating(Sspi::Exchange(leg))),
    ensures
        ({
            let event = Event::Leg(reply);
            let token = match leg {
                Loopback::Client { token, .. } => token,
                Loopback::Server { token, .. } => token,
            };
            let input = match token {
                Some(t) => seq![Cleanup::FreeToken(t)],
                None => Seq::<Cleanup>::empty(),
            };
            let output = match reply.token {
                Some(t) => seq![Cleanup::FreeToken(t)],
                None => Seq::<Cleanup>::empty(),
            };
            let goes_on = reply.status == 0x0009_0312 || (leg is Client && reply.status == 0);
            let contexts = match leg {
                Loopback::Client { resumed: false, .. } => seq![Cleanup::DeleteClientContext],
                _ => seq![Cleanup::DeleteClientContext, Cleanup::DeleteServerContext],
            };
            &&& goes_on ==> check.cleanup(event) == input
            &&& !goes_on ==> check.cleanup(event) == input + output + contexts + seq![
                Cleanup::FreeClientCredential,
                Cleanup::FreeServerCredential,
                Cleanup::ScrubBlob,
            ]
        }),
{
    let event = Event::Leg(reply);
    let goes_on = reply.status == 0x0009_0312 || (leg is Client && reply.status == 0);
    let input = frees(fed(leg));
    let output = frees(reply.token);
    if !goes_on {
        assert(check.cleanup(event) =~= input + output + contexts_after(leg) + seq![
            Cleanup::FreeClientCredential,
            Cleanup::FreeServerCredential,
            Cleanup::ScrubBlob,
        ]);
    }
}

/// A dialog whose credentials are submitted, sized, unpacked, and for which both
/// handles are acquired.
pub open spec fn submission(blob: u32, user: u32, domain: u32, password: u32) -> Seq<Event> {
    seq![
        Event::Prompted { code: 0, blob: Some(blob) },
        Event::Sized { user, domain, password },
        Event::Unpacked { ok: true },
        Event::Acquired { ok: true },
        Event::Acquired { ok: true },
    ]
}

/// A submission and the legs of the handshake behind it.
pub open spec fn whole_run(submitted: Seq<Event>, legs: Seq<Reply>) -> Seq<Event> {
    submitted + Seq::new(legs.len(), |i: int| Event::Leg(legs[i]))
}

/// The handshake goes on at each of the first `n` legs.
pub open spec fn goes_on(legs: Seq<Reply>, n: int) -> bool {
    forall|i: int|
        0 <= i < n ==> (#[trigger] legs[i]).status == 0x0009_0312 || (i % 2 == 0 && legs[i].status
            == 0)
}

proof fn lemma_run_step(check: CheckView, events: Seq<Event>, k: int)
    requires
        0 <= k < events.len(),
    ensures
        check.run(events.subrange(0, k + 1)) == check.run(events.subrange(0, k)).next(events[k]),
{
    let s = events.subrange(0, k + 1);
    assert(s.drop_last() =~= events.subrange(0, k));
}

/// `now` is `check` at a leg of the handshake, the client's or the server's.
spec fn at_leg(check: CheckView, now: CheckView, client: bool) -> bool {
    &&& now.attempts == check.attempts && now.auth_error == check.auth_error
    &&& now.message == check.message && now.caption == check.caption
    &&& now.stage matches StageView::Checking(_, BlobStage::Validating(Sspi::Exchange(leg)))
        && leg is Client == client
}

proof fn lemma_submission(check: CheckView, blob: u32, user: u32, domain: u32, password: u32)
    requires
        check.stage is Prompting,
        blob > 0,
        user > 0,
        password > 0,
    ensures
        ({
            let e = submission(blob, user, domain, password);
            let c1 = check.next(e[0]);
            let c2 = c1.next(e[1]);
            let c3 = c2.next(e[2]);
            let c4 = c3.next(e[3]);
            &&& check.answers(e[0]) && c1.answers(e[1]) && c2.answers(e[2]) && c3.answers(e[3])
                && c4.answers(e[4])
            &&& at_leg(check, c4.next(e[4]), true)
        }),
{
}

proof fn lemma_leg(check: CheckView, now: CheckView, client: bool, reply: Reply)
    requires
        at_leg(check, now, client),
        reply.status == 0x0009_0312 || (client && reply.status == 0),
    ensures
        now.answers(Event::Leg(reply)),
        at_leg(check, now.next(Event::Leg(reply)), !client),
{
}

/// The states of a run up to the first leg.
proof fn lemma_run_of_submission(
    check: CheckView,
    blob: u32,
    user: u32,
    domain: u32,
    password: u32,
    legs: Seq<Reply>,
)
    requires
        check.stage is Prompting,
        blob > 0,
        user > 0,
        password > 0,
    ensures
        ({
            let e = whole_run(submission(blob, user, domain, password), legs);
            &&& check.run(e.subrange(0, 0)).answers(e[0])
            &&& check.run(e.subrange(0, 1)).answers(e[1])
            &&& check.run(e.subrange(0, 2)).answers(e[2])
            &&& check.run(e.subrange(0, 3)).answers(e[3])
            &&& check.run(e.subrange(0, 4)).answers(e[4])
            &&& at_leg(check, check.run(e.subrange(0, 5)), true)
        }),
{
    let submitted = submission(blob, user, domain, password);
    let e = whole_run(submitted, legs);
    lemma_submission(check, blob, user, domain, password);
    assert(e[0] == submitted[0]);
    assert(e[1] == submitted[1]);
    assert(e[2] == submitted[2]);
    assert(e[3] == submitted[3]);
    assert(e[4] == submitted[4]);
    assert(check.run(e.subrange(0, 0)) == check) by {
        assert(e.subrange(0, 0).len() == 0);
    }
    lemma_run_step(check, e, 0);
    lemma_run_step(check, e, 1);
    lemma_run_step(check, e, 2);
    lemma_run_step(check, e, 3);
    lemma_run_step(check, e, 4);
}

proof fn lemma_run_of_legs(
    check: CheckView,
    blob: u32,
    user: u32,
    domain: u32,
    password: u32,
    legs: Seq<Reply>,
    k: int,
)
    requires
        check.stage is Prompting,
        blob > 0,
        user > 0,
        password > 0,
        0 <= k <= legs.len(),
        goes_on(legs, k),
    ensures
        at_leg(
            check,
            check.run(
                whole_run(submission(blob, user, domain, password), legs).subrange(0, 5 + k),
            ),
            k % 2 == 0,
        ),
    decreases k,
{
    let events = whole_run(submission(blob, user, domain, password), legs);
    if k == 0 {
        lemma_run_of_submission(check, blob, user, domain, password, legs);
    } else {
        lemma_run_of_legs(check, blob, user, domain, password, legs, k - 1);
        assert(events[5 + k - 1] == Event::Leg(legs[k - 1]));
        let now = check.run(events.subrange(0, 5 + k - 1));
        lemma_leg(check, now, (k - 1) % 2 == 0, legs[k - 1]);
        lemma_run_step(check, events, 5 + k - 1);
    }
}

proof fn lemma_run_is_accepted(
    check: CheckView,
    blob: u32,
    user: u32,
    domain: u32,
    password: u32,
    legs: Seq<Reply>,
    i: int,
)
    requires
        check.stage is Prompting,
        blob > 0,
        user > 0,
        password > 0,
        0 <= i < 5 + legs.len(),
        goes_on(legs, legs.len() - 1),
    ensures
        ({
            let events = whole_run(submission(blob, user, domain, password), legs);
            check.run(events.subrange(0, i)).answers(events[i])
        }),
{
    let events = whole_run(submission(blob, user, domain, password), legs);
    if i < 5 {
        lemma_run_of_submission(check, blob, user, domain, password, legs);
    } else {
        lemma_run_of_legs(check, blob, user, domain, password, legs, i - 5);
        assert(events[i] == Event::Leg(legs[i - 5]));
    }
}

proof fn lemma_last_leg(check: CheckView, now: CheckView, reply: Reply)
    requires
        check.wf(),
        at_leg(check, now, false),
    ensures
        ({
            let event = Event::Leg(reply);
            let after = now.next(event);
            &&& now.answers(event)
            &&& reply.status == 0 ==> now.outcome(event) == Some(OutcomeView::Verified)
                && after.stage is Finished
            &&& reply.status == -0x7ff6_fcf4 && check.attempts < 3 ==> now.outcome(event) is None
                && after.stage is Prompting && after.attempts == check.attempts + 1
            &&& reply.status == -0x7ff6_fcf4 && check.attempts == 3 ==> now.outcome(event) == Some(
                OutcomeView::Denied("Windows password could not be verified"@),
            )
        }),
{
}

/// Every run in which each call succeeds and the server accepts ends in `Verified`,
/// for every blob, every user, domain and password length, and however many legs the
/// handshake takes; and where the server denies the logon instead, the same run ends
/// in another dialog on the first two attempts and in denial on the third.
pub proof fn law_accepted_password_is_verified(
    check: CheckView,
    blob: u32,
    user: u32,
    domain: u32,
    password: u32,
    legs: Seq<Reply>,
)
    requires
        check.wf(),
        check.stage is Prompting,
        blob > 0,
        user > 0,
        password > 0,
        legs.len() > 0,
        legs.len() % 2 == 0,
        goes_on(legs, legs.len() - 1),
    ensures
        ({
            let events = whole_run(submission(blob, user, domain, password), legs);
            let before = check.run(events.drop_last());
            &&& check.accepts(events)
            &&& legs.last().status == 0 ==> before.outcome(events.last()) == Some(
                OutcomeView::Verified,
            ) && check.run(events).stage is Finished
            &&& legs.last().status == -0x7ff6_fcf4 && check.attempts < 3 ==> before.outcome(
                events.last(),
            ) is None && check.run(events).stage is Prompting && check.run(events).attempts
                == check.attempts + 1
            &&& legs.last().status == -0x7ff6_fcf4 && check.attempts == 3 ==> before.outcome(
                events.last(),
            ) == Some(OutcomeView::Denied("Windows password could not be verified"@))
        }),
{
    let events = whole_run(submission(blob, user, domain, password), legs);
    let k = legs.len() - 1;
    lemma_run_of_legs(check, blob, user, domain, password, legs, k);
    assert(events.drop_last() =~= events.subrange(0, 5 + k));
    assert(events.last() == Event::Leg(legs[k]));
    lemma_last_leg(check, check.run(events.drop_last()), legs[k]);
    assert(check.run(events) == check.run(events.drop_last()).next(events.last()));
    assert(check.accepts(events)) by {
        assert forall|i: int| 0 <= i < events.len() implies check.run(
            events.subrange(0, i),
        ).answers(#[trigger] events[i]) by {
            lemma_run_is_accepted(check, blob, user, domain, password, legs, i);
        }
    }
}

/// A fresh check shows the reason and the caption as zero-terminated UTF-16, reports
/// no error, and is at its first dialog.
pub proof fn law_fresh_check(reason: Seq<char>)
    ensures
        fresh_check(reason).message == text::utf16_of(reason) + seq![0u16],
        fresh_check(reason).caption == text::utf16_of("gocode-dev"@) + seq![0u16],
        fresh_check(reason).auth_error == 0,
        fresh_check(reason).attempts == 1,
        fresh_check(reason).stage is Prompting,
        fresh_check(reason).wf(),
{
    assert(text::utf16_of(reason).push(0) =~= text::utf16_of(reason) + seq![0u16]);
    assert(text::utf16_of("gocode-dev"@).push(0) =~= text::utf16_of("gocode-dev"@) + seq![0u16]);
}

/// No run shows more than three dialogs, and while one is waited for it is at most
/// the third; every dialog but the first shows the hint of a wrong password.
pub proof fn law_three_dialogs(reason: Seq<char>, events: Seq<Event>)
    requires
        fresh_check(reason).accepts(events),
    ensures
        prompts(events) <= 3,
        1 <= fresh_check(reason).run(events).attempts <= 3,
        fresh_check(reason).run(events).attempts == 1 ==> fresh_check(reason).run(events).auth_error
            == 0,
        fresh_check(reason).run(events).attempts > 1 ==> fresh_check(reason).run(events).auth_error
            == 1326,
{
    law_prompts_are_bounded(reason, events);
}

/// The length of a wide text is where its first zero unit is, or all of it.
pub proof fn law_wide_len(units: Seq<u16>)
    ensures
        0 <= wide_len(units) <= units.len(),
        forall|i: int| 0 <= i < wide_len(units) ==> #[trigger] units[i] != 0,
        wide_len(units) < units.len() ==> units[wide_len(units)] == 0,
    decreases units.len(),
{
    if units.len() > 0 && units[0] != 0 {
        let rest = units.drop_first();
        law_wide_len(rest);
        assert forall|i: int| 0 <= i < wide_len(units) implies #[trigger] units[i] != 0 by {
            if i > 0 {
                assert(rest[i - 1] == units[i]);
            }
        }
        if wide_len(units) < units.len() {
            assert(rest[wide_len(rest)] == units[wide_len(units)]);
        }
    }
}

/// The views of outcomes and verdicts keep their kind and their text.
pub proof fn law_outcomes_are_shown_as_they_are(o: PresenceOutcome, a: AuthCheck)
    ensures
        o is Verified <==> o@ is Verified,
        o matches PresenceOutcome::Denied(s) ==> o@ == OutcomeView::Denied(s@),
        o matches PresenceOutcome::Unavailable(s) ==> o@ == OutcomeView::Unavailable(s@),
        a is Verified <==> a@ is Verified,
        a is WrongPassword <==> a@ is WrongPassword,
        a matches AuthCheck::Unavailable(s) ==> a@ == AuthView::Unavailable(s@),
{
}

/// One leg of the exchange by itself: the client's verdict, the server's verdict, and
/// who comes next with which token.
pub proof fn law_loopback(resumed: bool, token: Option<Token>, reply: Reply)
    ensures
        ({
            let client = Loopback::Client { resumed, token };
            let server = Loopback::Server { resumed, token };
            &&& loopback_verdict(client, reply.status) is None <==> reply.status == 0
                || reply.status == 0x0009_0312
            &&& loopback_verdict(client, reply.status) is Some ==> loopback_verdict(
                client,
                reply.status,
            )->0 is Unavailable
            &&& loopback_verdict(server, reply.status) is None <==> reply.status == 0x0009_0312
            &&& loopback_verdict(server, reply.status) == Some(AuthView::Verified) <==> reply.status
                == 0
            &&& loopback_verdict(server, reply.status) == Some(AuthView::WrongPassword)
                <==> reply.status == -0x7ff6_fcf4
            &&& loopback_next(client, reply) == (Loopback::Server { resumed, token: reply.token })
            &&& loopback_next(server, reply) == (Loopback::Client {
                resumed: true,
                token: reply.token,
            })
        }),
{
}

/// Scrubbing leaves as many units as there were, all zero.
pub proof fn law_scrubbing(c: CredentialsView, i: int)
    ensures
        c.scrubbed().user.len() == c.user.len(),
        c.scrubbed().domain.len() == c.domain.len(),
        c.scrubbed().password.len() == c.password.len(),
        0 <= i < c.user.len() ==> c.scrubbed().user[i] == 0,
        0 <= i < c.domain.len() ==> c.scrubbed().domain[i] == 0,
        0 <= i < c.password.len() ==> c.scrubbed().password[i] == 0,
        no_credentials().user.len() == 0,
        no_credentials().domain.len() == 0,
        no_credentials().password.len() == 0,
{
}

/// The identity counts, in buffers that a length of the system can describe, the units of
/// the user and of the password in front of the first zero; and it names a domain exactly
/// where the domain's buffer begins with a unit that is not zero.
pub proof fn law_identity(c: CredentialsView, i: int)
    requires
        c.user.len() <= u32::MAX,
        c.domain.len() <= u32::MAX,
        c.password.len() <= u32::MAX,
    ensures
        identity_of(c).user_len <= c.user.len(),
        0 <= i < identity_of(c).user_len ==> c.user[i] != 0,
        identity_of(c).user_len < c.user.len() ==> c.user[identity_of(c).user_len as int] == 0,
        identity_of(c).password_len <= c.password.len(),
        0 <= i < identity_of(c).password_len ==> c.password[i] != 0,
        identity_of(c).password_len < c.password.len() ==> c.password[identity_of(
            c,
        ).password_len as int] == 0,
        identity_of(c).domain_len is Some <==> c.domain.len() > 0 && c.domain[0] != 0,
        identity_of(c).domain_len matches Some(n) ==> 0 < n <= c.domain.len() && (0 <= i < n
            ==> c.domain[i] != 0) && (n < c.domain.len() ==> c.domain[n as int] == 0),
{
    law_wide_len(c.user);
    law_wide_len(c.domain);
    law_wide_len(c.password);
}

}

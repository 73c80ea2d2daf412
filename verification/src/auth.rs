//! What the platform can do to authenticate its user.

use crate::error::{Error, ErrorView};
use crate::types::{BackendKind, Host, Platform};
use vstd::prelude::*;

verus! {

/// Capabilities of the platform's authentication.
#[derive(Clone, Debug)]
pub struct AuthCapabilities {
    /// A biometric authenticator is available.
    pub biometric_available: bool,
    /// The same flow falls back to a password or PIN.
    pub password_available: bool,
    /// A prompt can be reused for a while.
    pub presence_caching: bool,
    /// Name of the authenticator, if known.
    pub authenticator_name: Option<String>,
}

/// The mathematical content of [`AuthCapabilities`].
pub struct AuthView {
    pub biometric_available: bool,
    pub password_available: bool,
    pub presence_caching: bool,
    pub authenticator_name: Option<Seq<char>>,
}

impl View for AuthCapabilities {
    type V = AuthView;

    open spec fn view(&self) -> AuthView {
        AuthView {
            biometric_available: self.biometric_available,
            password_available: self.password_available,
            presence_caching: self.presence_caching,
            authenticator_name: match self.authenticator_name {
                Some(s) => Some(s@),
                None => None,
            },
        }
    }
}

/// What each platform can do. Reuse of a prompt is for macOS only, and only
/// there does the biometric authenticator depend on the machine.
pub open spec fn auth_capabilities(host: Host) -> AuthView {
    match host.platform {
        Platform::MacOs => AuthView {
            biometric_available: host.touch_id,
            password_available: true,
            presence_caching: true,
            authenticator_name: Some("Touch ID"@),
        },
        Platform::Windows => AuthView {
            biometric_available: true,
            password_available: true,
            presence_caching: false,
            authenticator_name: Some("Windows Hello"@),
        },
        _ => AuthView {
            biometric_available: false,
            password_available: false,
            presence_caching: false,
            authenticator_name: None,
        },
    }
}

/// What the platform can do, without a handle.
pub fn platform_auth_capabilities(host: &Host) -> (r: AuthCapabilities)
    ensures
        r@ == auth_capabilities(*host),
{
    match host.platform {
        Platform::MacOs => AuthCapabilities {
            biometric_available: host.touch_id,
            password_available: true,
            presence_caching: true,
            authenticator_name: Some("Touch ID".to_owned()),
        },
        Platform::Windows => AuthCapabilities {
            biometric_available: true,
            password_available: true,
            presence_caching: false,
            authenticator_name: Some("Windows Hello".to_owned()),
        },
        _ => AuthCapabilities {
            biometric_available: false,
            password_available: false,
            presence_caching: false,
            authenticator_name: None,
        },
    }
}

/// Handle to the platform's authentication.
#[derive(Debug)]
pub struct AuthHandle {
    backend_kind: BackendKind,
}

impl AuthHandle {
    pub closed spec fn spec_backend_kind(&self) -> BackendKind {
        self.backend_kind
    }

    /// A handle for a backend.
    pub fn new(backend_kind: BackendKind) -> (r: AuthHandle)
        ensures
            r.spec_backend_kind() == backend_kind,
    {
        AuthHandle { backend_kind }
    }

    /// What the platform can do. `host` is what is known of the machine now.
    pub fn capabilities(&self, host: &Host) -> (r: AuthCapabilities)
        ensures
            r@ == auth_capabilities(*host),
    {
        platform_auth_capabilities(host)
    }

    /// Ask for the user's presence. Where there is no biometric authenticator
    /// it cannot be had; elsewhere it is asked for with each operation. `host` is
    /// what is known of the machine now.
    pub fn request_presence(&self, host: &Host, _reason: &str) -> (r: Result<(), Error>)
        ensures
            r is Ok <==> auth_capabilities(*host).biometric_available,
            r is Ok <==> host.platform == Platform::Windows || (host.platform == Platform::MacOs
                && host.touch_id),
            r matches Err(e) ==> e@ == ErrorView::PresenceNotAvailable,
    {
        if !self.capabilities(host).biometric_available {
            return Err(Error::PresenceNotAvailable);
        }
        Ok(())
    }

    /// Drop a cached proof of presence. The handle keeps none, so there is
    /// nothing to do.
    pub fn evict_presence_cache(&self) {
    }

    /// The backend of the platform.
    pub fn backend_kind(&self) -> (r: BackendKind)
        ensures
            r == self.spec_backend_kind(),
    {
        self.backend_kind
    }
}

/// A presence request succeeds exactly where the capabilities say that there is
/// a biometric authenticator; a platform without one has none of the rest.
pub proof fn law_no_authenticator_no_presence(host: Host)
    ensures
        host.platform == Platform::Linux || host.platform == Platform::Other ==> {
            let c = auth_capabilities(host);
            !c.biometric_available && !c.password_available && !c.presence_caching
                && c.authenticator_name is None
        },
        auth_capabilities(host).presence_caching <==> host.platform == Platform::MacOs,
{
}

/// The capabilities of each platform, field by field.
pub proof fn law_capabilities(host: Host)
    ensures
        auth_capabilities(host).biometric_available <==> host.platform == Platform::Windows || (
        host.platform == Platform::MacOs && host.touch_id),
        auth_capabilities(host).password_available <==> host.platform == Platform::Windows
            || host.platform == Platform::MacOs,
        auth_capabilities(host).presence_caching <==> host.platform == Platform::MacOs,
        host.platform == Platform::MacOs ==> auth_capabilities(host).authenticator_name == Some(
            "Touch ID"@,
        ),
        host.platform == Platform::Windows ==> auth_capabilities(host).authenticator_name == Some(
            "Windows Hello"@,
        ),
        host.platform == Platform::Linux || host.platform == Platform::Other
            ==> auth_capabilities(host).authenticator_name is None,
{
}

/// The view of the capabilities keeps every field.
pub proof fn law_capabilities_are_shown_as_they_are(c: AuthCapabilities)
    ensures
        c@.biometric_available == c.biometric_available,
        c@.password_available == c.password_available,
        c@.presence_caching == c.presence_caching,
        c.authenticator_name matches Some(name) ==> c@.authenticator_name == Some(name@),
        c.authenticator_name is None ==> c@.authenticator_name is None,
{
}

}

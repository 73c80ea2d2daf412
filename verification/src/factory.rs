//! Creation of handles: which configurations are accepted, and what becomes of
//! those that ask for more than the binary may have.

use crate::auth::AuthHandle;
use crate::capabilities::{self, detect_backend, ensure_safe_app_name};
use crate::config::{EnclaveConfig, StorageConfig, StorageView};
use crate::error::{Error, ErrorView};
use crate::integrity::TamperEvidentHandle;
use crate::secret::SecretBytes;
use crate::types::{BackendKind, Host, Platform};
use vstd::prelude::*;

verus! {

/// A configuration that no fallback can serve: user presence without an access
/// group, on macOS. The legacy keychain has no such gate, whether the binary is
/// signed or not.
pub open spec fn needs_signing(sc: StorageView, host: Host) -> bool {
    &&& host.platform == Platform::MacOs
    &&& sc.wrapping_key_user_presence
    &&& sc.keychain_access_group is None
}

/// The access group that is asked for cannot be had.
pub open spec fn downgrades(sc: StorageView, host: Host, entitled: bool) -> bool {
    host.platform == Platform::MacOs && sc.keychain_access_group is Some && !entitled
}

/// What the storage is set up with. Without the entitlement for its access
/// group a configuration falls back to the legacy keychain, which has no
/// user-presence gate.
pub open spec fn resolved(sc: StorageView, host: Host, entitled: bool) -> StorageView {
    if downgrades(sc, host, entitled) {
        StorageView { keychain_access_group: None, wrapping_key_user_presence: false, ..sc }
    } else {
        sc
    }
}

/// The features that were asked for and are not to be had.
pub open spec fn downgraded(sc: StorageView, host: Host, entitled: bool) -> Seq<Seq<char>> {
    if !downgrades(sc, host, entitled) {
        Seq::empty()
    } else if sc.wrapping_key_user_presence {
        seq!["keychain_access_group"@, "wrapping_key_user_presence"@]
    } else {
        seq!["keychain_access_group"@]
    }
}

/// A configuration that was accepted.
#[derive(Debug)]
pub struct Resolved {
    /// What the storage is set up with.
    pub storage: StorageConfig,
    /// The features that were asked for and are not to be had.
    pub downgraded_features: Vec<String>,
}

/// Check a configuration against the machine and the binary, and work out what
/// the storage is set up with. `entitled` says whether the binary has the
/// entitlement for the access group that is asked for.
pub fn validate_and_resolve_config(config: &EnclaveConfig, host: &Host, entitled: bool) -> (r:
    Result<Resolved, Error>)
    ensures
        r is Err <==> needs_signing(config.storage(*host), *host),
        r is Err <==> host.platform == Platform::MacOs && config.wrapping_key_user_presence
            && config.keychain_access_group is None,
        r matches Ok(ok) ==> ok.storage@ == resolved(config.storage(*host), *host, entitled)
            && ok.downgraded_features@.map_values(|s: String| s@) == downgraded(
            config.storage(*host),
            *host,
            entitled,
        ),
        r matches Err(e) ==> e@ == (ErrorView::RequiresSigning {
            feature:
                "wrapping_key_user_presence (requires keychain_access_group + entitlement)"@,
        }),
{
    let mut sc = config.to_storage_config(host);
    let mut lost: Vec<String> = Vec::new();
    if host.platform == Platform::MacOs {
        if sc.wrapping_key_user_presence && sc.keychain_access_group.is_none() {
            return Err(
                Error::RequiresSigning {
                    feature:
                        "wrapping_key_user_presence (requires keychain_access_group + entitlement)".to_owned(),
                },
            );
        }
        if sc.keychain_access_group.is_some() && !entitled {
            lost.push("keychain_access_group".to_owned());
            if sc.wrapping_key_user_presence {
                lost.push("wrapping_key_user_presence".to_owned());
            }
            sc.keychain_access_group = None;
            sc.wrapping_key_user_presence = false;
        }
    }
    assert(lost@.map_values(|s: String| s@) =~= downgraded(
        config.storage(*host),
        *host,
        entitled,
    ));
    Ok(Resolved { storage: sc, downgraded_features: lost })
}

/// The backend of a machine.
pub fn resolve_backend_kind(host: &Host) -> (r: BackendKind)
    ensures
        r == capabilities::backend_of(*host),
{
    detect_backend(host)
}

/// Create an authentication handle. Every configuration is accepted.
pub fn create_auth(config: &EnclaveConfig, host: &Host) -> (r: Result<AuthHandle, Error>)
    ensures
        r is Ok,
        r matches Ok(h) ==> h.spec_backend_kind() == capabilities::backend_of(*host),
{
    let _ = config;
    Ok(AuthHandle::new(resolve_backend_kind(host)))
}

/// Create a tamper-evident handle, with the key that the secure store has for
/// the effective name of the application.
pub fn create_tamper_evident(app_name: &str, host: &Host, hmac_key: Option<SecretBytes>) -> (r:
    Result<TamperEvidentHandle, Error>)
    ensures
        r is Ok,
        r matches Ok(h) ==> h.spec_app_name() == capabilities::safe_app_name(
            app_name@,
            host.signed,
        ) && h.key() == (match hmac_key {
            Some(k) => Some(k@),
            None => None,
        }),
{
    let effective = ensure_safe_app_name(app_name, host.signed);
    Ok(TamperEvidentHandle::new(effective, hmac_key))
}

/// A configuration that is accepted keeps its names and policy. On macOS it has
/// a user-presence gate only together with an access group that the binary is
/// entitled to, and what it lost is recorded; elsewhere it is as it was asked
/// for.
pub proof fn law_no_gate_without_right(sc: StorageView, host: Host, entitled: bool)
    requires
        !needs_signing(sc, host),
    ensures
        ({
            let r = resolved(sc, host, entitled);
            let lost = downgraded(sc, host, entitled);
            &&& r.app_name == sc.app_name
            &&& r.key_label == sc.key_label
            &&& r.access_policy == sc.access_policy
            &&& host.platform == Platform::MacOs && r.wrapping_key_user_presence
                ==> r.keychain_access_group is Some && entitled
            &&& host.platform != Platform::MacOs ==> r == sc
            &&& r.keychain_access_group != sc.keychain_access_group <==> lost.len() >= 1
            &&& r.wrapping_key_user_presence != sc.wrapping_key_user_presence <==> lost.len() == 2
        }),
{
}

/// What becomes of a configuration, field by field, for every host: it is refused
/// exactly on macOS for user presence without an access group, signed or not; it loses
/// its access group and the presence gate exactly on macOS where the entitlement is
/// missing, and then both are recorded as far as they were asked for; and otherwise it
/// is as it was.
pub proof fn law_configurations(sc: StorageView, host: Host, entitled: bool)
    ensures
        needs_signing(sc, host) <==> host.platform == Platform::MacOs
            && sc.wrapping_key_user_presence && sc.keychain_access_group is None,
        host.platform == Platform::MacOs && sc.keychain_access_group is Some && !entitled ==> {
            &&& resolved(sc, host, entitled) == (StorageView {
                keychain_access_group: None,
                wrapping_key_user_presence: false,
                ..sc
            })
            &&& sc.wrapping_key_user_presence ==> downgraded(sc, host, entitled) == seq![
                "keychain_access_group"@,
                "wrapping_key_user_presence"@,
            ]
            &&& !sc.wrapping_key_user_presence ==> downgraded(sc, host, entitled) == seq![
                "keychain_access_group"@,
            ]
        },
        host.platform != Platform::MacOs || sc.keychain_access_group is None || entitled ==> {
            &&& resolved(sc, host, entitled) == sc
            &&& downgraded(sc, host, entitled).len() == 0
        },
{
}

}

//! What an application asks for, and what its storage is set up with.

use crate::capabilities::{self, ensure_safe_app_name};
use crate::types::{AccessPolicy, Host};
use vstd::prelude::*;

verus! {

/// What an application asks for.
#[derive(Debug)]
pub struct EnclaveConfig {
    /// The application's name. Binaries that are not signed get `-unsigned`
    /// appended before anything is stored.
    pub app_name: String,
    /// Label of the key that exists from the start.
    pub default_key_label: String,
    /// Policy of new keys.
    pub access_policy: AccessPolicy,
    /// User presence gates the wrapping key.
    pub wrapping_key_user_presence: bool,
    /// Keychain access group for the wrapping key.
    pub keychain_access_group: Option<String>,
}

/// What the storage is set up with.
#[derive(Debug)]
pub struct StorageConfig {
    pub app_name: String,
    pub key_label: String,
    pub access_policy: AccessPolicy,
    pub wrapping_key_user_presence: bool,
    pub keychain_access_group: Option<String>,
}

/// The mathematical content of a [`StorageConfig`].
#[verifier::ext_equal]
pub struct StorageView {
    pub app_name: Seq<char>,
    pub key_label: Seq<char>,
    pub access_policy: AccessPolicy,
    pub wrapping_key_user_presence: bool,
    pub keychain_access_group: Option<Seq<char>>,
}

/// A text that may be missing, by its view.
pub open spec fn opt_text(s: Option<String>) -> Option<Seq<char>> {
    match s {
        Some(s) => Some(s@),
        None => None,
    }
}

impl View for StorageConfig {
    type V = StorageView;

    open spec fn view(&self) -> StorageView {
        StorageView {
            app_name: self.app_name@,
            key_label: self.key_label@,
            access_policy: self.access_policy,
            wrapping_key_user_presence: self.wrapping_key_user_presence,
            keychain_access_group: opt_text(self.keychain_access_group),
        }
    }
}

impl EnclaveConfig {
    /// The storage configuration that this one asks for.
    pub open spec fn storage(&self, host: Host) -> StorageView {
        StorageView {
            app_name: capabilities::safe_app_name(self.app_name@, host.signed),
            key_label: self.default_key_label@,
            access_policy: self.access_policy,
            wrapping_key_user_presence: self.wrapping_key_user_presence,
            keychain_access_group: opt_text(self.keychain_access_group),
        }
    }

    /// The storage configuration that this one asks for.
    pub fn to_storage_config(&self, host: &Host) -> (r: StorageConfig)
        ensures
            r@ == self.storage(*host),
    {
        StorageConfig {
            app_name: ensure_safe_app_name(self.app_name.as_str(), host.signed),
            key_label: self.default_key_label.as_str().to_owned(),
            access_policy: self.access_policy,
            wrapping_key_user_presence: self.wrapping_key_user_presence,
            keychain_access_group: match &self.keychain_access_group {
                Some(group) => Some(group.as_str().to_owned()),
                None => None,
            },
        }
    }
}

/// The storage configuration asks for what the application asks for: only the name
/// depends on the host, and only on whether the binary is signed.
pub proof fn law_storage_config(config: EnclaveConfig, host: Host)
    ensures
        config.storage(host).key_label == config.default_key_label@,
        config.storage(host).access_policy == config.access_policy,
        config.storage(host).wrapping_key_user_presence == config.wrapping_key_user_presence,
        config.keychain_access_group matches Some(group) ==> config.storage(
            host,
        ).keychain_access_group == Some(group@),
        config.keychain_access_group is None ==> config.storage(host).keychain_access_group
            is None,
        host.signed ==> config.storage(host).app_name == config.app_name@,
        !host.signed ==> config.storage(host).app_name == capabilities::safe_app_name(
            config.app_name@,
            false,
        ),
{
}

/// The view of a storage configuration keeps every field.
pub proof fn law_storage_is_shown_as_it_is(sc: StorageConfig)
    ensures
        sc@.app_name == sc.app_name@,
        sc@.key_label == sc.key_label@,
        sc@.access_policy == sc.access_policy,
        sc@.wrapping_key_user_presence == sc.wrapping_key_user_presence,
        sc.keychain_access_group matches Some(group) ==> sc@.keychain_access_group == Some(group@),
        sc.keychain_access_group is None ==> sc@.keychain_access_group is None,
{
}

}

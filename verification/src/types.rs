//! Types shared by the signing, encryption and authentication handles.

use vstd::prelude::*;

verus! {

/// The operating system that the program runs on.
#[derive(Clone, Copy, Debug, PartialEq, Eq, Structural)]
pub enum Platform {
    MacOs,
    Windows,
    Linux,
    Other,
}

/// What is known of the machine and of the running binary.
#[derive(Clone, Copy, Debug, PartialEq, Eq, Structural)]
pub struct Host {
    pub platform: Platform,
    /// The program runs inside the Windows Subsystem for Linux.
    pub wsl: bool,
    /// Touch ID can be used.
    pub touch_id: bool,
    /// The binary counts as signed.
    pub signed: bool,
}

/// The security backend behind a handle.
#[derive(Clone, Copy, Debug, PartialEq, Eq, Structural)]
pub enum BackendKind {
    /// The Secure Enclave, on macOS.
    SecureEnclave,
    /// A TPM 2.0, on Windows.
    Tpm,
    /// The TPM of the Windows host, from inside WSL.
    TpmBridge,
    /// The system keyring, with keys in software.
    Keyring,
}

/// What a key asks of the user before each use.
#[derive(Clone, Copy, Debug, PartialEq, Eq, Structural)]
pub enum AccessPolicy {
    /// Nothing.
    Unrestricted,
    /// Biometrics or the password.
    Any,
    BiometricOnly,
    PasswordOnly,
}

/// What a key is for.
#[derive(Clone, Copy, Debug, PartialEq, Eq, Structural)]
pub enum KeyType {
    Signing,
    Encryption,
}

/// How a signing request treats user presence.
#[derive(Clone, Copy, Debug, PartialEq, Eq, Structural)]
pub enum PresenceMode {
    /// No presence is asked for.
    Off,
    /// A recent proof of presence may be reused.
    Cached,
    /// Presence has to be proved for this operation.
    Strict,
}

/// Public projection of key metadata.
#[derive(Clone, Debug)]
pub struct KeyInfo {
    pub label: String,
    pub key_type: KeyType,
    pub access_policy: AccessPolicy,
    /// Uncompressed SEC1 public key (0x04 || X || Y, 65 bytes).
    pub public_key: Vec<u8>,
}

/// The mathematical content of a [`KeyInfo`].
pub struct KeyInfoView {
    pub label: Seq<char>,
    pub key_type: KeyType,
    pub access_policy: AccessPolicy,
    pub public_key: Seq<u8>,
}

impl View for KeyInfo {
    type V = KeyInfoView;

    open spec fn view(&self) -> KeyInfoView {
        KeyInfoView {
            label: self.label@,
            key_type: self.key_type,
            access_policy: self.access_policy,
            public_key: self.public_key@,
        }
    }
}

/// Options for signing with user presence.
#[derive(Clone, Debug)]
pub struct PresenceOptions {
    pub mode: PresenceMode,
    /// How long a presence token may be reused.
    pub cache_ttl_secs: u64,
    /// Reason shown in the prompt.
    pub reason: String,
}

impl PresenceOptions {
    /// Presence for this one operation; nothing is reused.
    pub fn strict(reason: &str) -> (r: Self)
        ensures
            r.mode == PresenceMode::Strict,
            r.cache_ttl_secs == 0,
            r.reason@ == reason@,
    {
        Self { mode: PresenceMode::Strict, cache_ttl_secs: 0, reason: reason.to_owned() }
    }

    /// Presence that may be reused for `ttl_secs` seconds.
    pub fn cached(reason: &str, ttl_secs: u64) -> (r: Self)
        ensures
            r.mode == PresenceMode::Cached,
            r.cache_ttl_secs == ttl_secs,
            r.reason@ == reason@,
    {
        Self { mode: PresenceMode::Cached, cache_ttl_secs: ttl_secs, reason: reason.to_owned() }
    }
}

/// The view of a listed key keeps its label, its type, its policy and its public key.
pub proof fn law_keys_are_shown_as_they_are(k: KeyInfo)
    ensures
        k@.label == k.label@,
        k@.key_type == k.key_type,
        k@.access_policy == k.access_policy,
        k@.public_key == k.public_key@,
{
}

}

use enclave::auth::platform_auth_capabilities;
use enclave::capabilities::{
    check_entitlement_macos, detect_backend, ensure_safe_app_name, has_keychain_entitlement,
    is_binary_signed, security_capabilities, EntitlementCache,
};
use enclave::config::EnclaveConfig;
use enclave::encryption::EncryptorHandle;
use enclave::error::Error;
use enclave::factory::{create_auth, resolve_backend_kind, validate_and_resolve_config};
use enclave::plist::names_group;
use enclave::signing::{SignRequest, SignerHandle};
use enclave::types::{
    AccessPolicy, BackendKind, Host, KeyType, Platform, PresenceMode, PresenceOptions,
};

fn host(platform: Platform) -> Host {
    Host {
        platform,
        wsl: false,
        touch_id: false,
        signed: true,
    }
}

fn config() -> EnclaveConfig {
    EnclaveConfig {
        app_name: "app".to_string(),
        default_key_label: "default".to_string(),
        access_policy: AccessPolicy::Any,
        wrapping_key_user_presence: false,
        keychain_access_group: None,
    }
}

#[test]
fn auth_capabilities_by_platform() {
    let mac = platform_auth_capabilities(&Host { touch_id: true, ..host(Platform::MacOs) });
    assert!(mac.biometric_available && mac.password_available && mac.presence_caching);
    assert_eq!(mac.authenticator_name.as_deref(), Some("Touch ID"));
    let windows = platform_auth_capabilities(&host(Platform::Windows));
    assert!(windows.biometric_available && windows.password_available);
    assert!(!windows.presence_caching);
    assert_eq!(windows.authenticator_name.as_deref(), Some("Windows Hello"));
    for platform in [Platform::Linux, Platform::Other] {
        let none = platform_auth_capabilities(&Host { touch_id: true, ..host(platform) });
        assert!(!none.biometric_available && !none.password_available && !none.presence_caching);
        assert!(none.authenticator_name.is_none());
    }
}

#[test]
fn presence_requests() {
    let windows = host(Platform::Windows);
    let granted = create_auth(&config(), &windows).unwrap();
    assert!(granted.request_presence(&windows, "why").is_ok());
    assert_eq!(granted.backend_kind(), BackendKind::Tpm);
    granted.evict_presence_cache();
    let mac = host(Platform::MacOs);
    let handle = create_auth(&config(), &mac).unwrap();
    assert_eq!(format!("{handle:?}"), "AuthHandle { backend_kind: SecureEnclave }");
    assert!(!handle.capabilities(&mac).biometric_available);
    assert!(matches!(
        handle.request_presence(&mac, "why"),
        Err(Error::PresenceNotAvailable)
    ));
    // The machine is asked anew each time.
    let mac = Host { touch_id: true, ..mac };
    assert!(handle.capabilities(&mac).biometric_available);
    assert!(handle.request_presence(&mac, "why").is_ok());
}

#[test]
fn backends_by_platform() {
    assert_eq!(detect_backend(&host(Platform::MacOs)), BackendKind::SecureEnclave);
    assert_eq!(detect_backend(&host(Platform::Windows)), BackendKind::Tpm);
    assert_eq!(detect_backend(&host(Platform::Linux)), BackendKind::Keyring);
    assert_eq!(detect_backend(&host(Platform::Other)), BackendKind::Keyring);
    let wsl = Host { wsl: true, ..host(Platform::Linux) };
    assert_eq!(resolve_backend_kind(&wsl), BackendKind::TpmBridge);
}

#[test]
fn entitlements_are_found_and_cached() {
    let mac = host(Platform::MacOs);
    let mut cache = EntitlementCache::new();
    assert_eq!(has_keychain_entitlement(&cache, &host(Platform::Linux), "G"), Some(false));
    assert_eq!(has_keychain_entitlement(&cache, &mac, "TEAM.app"), None);
    let list = entitlements("<string>TEAM.app</string>\n  <string>TEAM.shared</string>");
    assert!(cache.record("TEAM.app", Some((&list, ""))));
    assert!(!cache.record("TEAM.other", Some((&list, "error"))));
    assert!(!cache.record("TEAM.third", None));
    assert_eq!(has_keychain_entitlement(&cache, &mac, "TEAM.app"), Some(true));
    assert_eq!(has_keychain_entitlement(&cache, &mac, "TEAM.other"), Some(false));
    assert_eq!(has_keychain_entitlement(&cache, &mac, "TEAM.third"), Some(false));
    assert!(check_entitlement_macos("TEAM.shared", Some(("", &list))));
}

fn entitlements(groups: &str) -> String {
    format!(
        "<?xml version=\"1.0\"?><plist version=\"1.0\"><dict>\
         <key>com.apple.application-identifier</key><string>TEAM.id</string>\
         <key>keychain-access-groups</key> \n <array>{groups}</array>\
         <key>other</key><array><string>TEAM.elsewhere</string></array></dict></plist>"
    )
}

#[test]
fn only_listed_groups_count() {
    let list = entitlements("<string>TEAM.app.longer</string><string>TEAM.b</string>");
    assert!(names_group(&list, "TEAM.app.longer"));
    assert!(names_group(&list, "TEAM.b"));
    // Neither parts of a group, nor the empty text, nor strings elsewhere.
    for other in ["", "TEAM.app", "TEAM", "TEAM.id", "TEAM.elsewhere", "string"] {
        assert!(!names_group(&list, other));
    }
    assert!(!names_group(&entitlements(""), ""));
    assert!(names_group(&entitlements("<string></string>"), ""));
    assert!(!names_group("<key>keychain-access-groups</key><array/>", "TEAM.b"));
    assert!(!names_group("<key>keychain-access-groups</key><array><string>G</string>", "G"));
    assert!(!names_group("", "G"));
}

#[test]
fn signed_binaries() {
    assert!(is_binary_signed(Platform::Linux, "/usr/bin/app", false));
    assert!(!is_binary_signed(Platform::Linux, "/src/target/debug/app", true));
    assert!(!is_binary_signed(Platform::Windows, "C:\\x\\target\\app.exe", true));
    assert!(is_binary_signed(Platform::MacOs, "/Applications/app", true));
    assert!(!is_binary_signed(Platform::MacOs, "/Applications/app", false));
}

#[test]
fn unsigned_names() {
    assert_eq!(ensure_safe_app_name("app", true), "app");
    let name = ensure_safe_app_name("app", false);
    assert_eq!(name, "app-unsigned");
    assert_eq!(ensure_safe_app_name(&name, false), "app-unsigned");
    assert_eq!(ensure_safe_app_name("", false), "-unsigned");
}

#[test]
fn security_by_signature() {
    let signed = security_capabilities("app", &host(Platform::Windows));
    assert!(signed.binary_signed && signed.hardware_presence && !signed.presence_caching);
    assert_eq!(signed.recommended_access_policy, AccessPolicy::Unrestricted);
    assert_eq!(signed.effective_app_name, "app");
    assert_eq!(signed.backend, BackendKind::Tpm);
    let unsigned = Host { signed: false, ..host(Platform::MacOs) };
    let caps = security_capabilities("app", &unsigned);
    assert!(!caps.binary_signed && !caps.hardware_presence && caps.presence_caching);
    assert_eq!(caps.recommended_access_policy, AccessPolicy::Any);
    assert_eq!(caps.effective_app_name, "app-unsigned");
    assert!(caps.effective_keychain_group.is_none());
    assert!(!caps.code_signature_binding && !caps.keychain_user_presence);
    assert!(caps.downgraded_features.is_empty());
}

#[test]
fn configurations_are_checked() {
    let unsigned_mac = Host { signed: false, ..host(Platform::MacOs) };
    let gate = EnclaveConfig { wrapping_key_user_presence: true, ..config() };
    assert!(matches!(
        validate_and_resolve_config(&gate, &unsigned_mac, false),
        Err(Error::RequiresSigning { feature })
            if feature == "wrapping_key_user_presence (requires keychain_access_group + entitlement)"
    ));
    assert!(matches!(
        validate_and_resolve_config(&gate, &host(Platform::MacOs), true),
        Err(Error::RequiresSigning { .. })
    ));
    let unsigned_linux = Host { signed: false, ..host(Platform::Linux) };
    let resolved = validate_and_resolve_config(&gate, &unsigned_linux, false).unwrap();
    assert!(resolved.downgraded_features.is_empty());
    let sc = resolved.storage;
    assert!(sc.wrapping_key_user_presence);
    assert_eq!(sc.app_name, "app-unsigned");
    assert_eq!(sc.key_label, "default");
    assert_eq!(sc.access_policy, AccessPolicy::Any);
}

#[test]
fn missing_entitlement_downgrades() {
    let mac = host(Platform::MacOs);
    let group = || EnclaveConfig {
        wrapping_key_user_presence: true,
        keychain_access_group: Some("G".to_string()),
        ..config()
    };
    let resolved = validate_and_resolve_config(&group(), &mac, false).unwrap();
    assert_eq!(
        resolved.downgraded_features,
        vec!["keychain_access_group", "wrapping_key_user_presence"]
    );
    let down = resolved.storage;
    assert!(down.keychain_access_group.is_none());
    assert!(!down.wrapping_key_user_presence);
    let plain = EnclaveConfig { wrapping_key_user_presence: false, ..group() };
    let resolved = validate_and_resolve_config(&plain, &mac, false).unwrap();
    assert_eq!(resolved.downgraded_features, vec!["keychain_access_group"]);
    let resolved = validate_and_resolve_config(&group(), &mac, true).unwrap();
    assert!(resolved.downgraded_features.is_empty());
    let kept = resolved.storage;
    assert_eq!(kept.keychain_access_group.as_deref(), Some("G"));
    assert!(kept.wrapping_key_user_presence);
    let elsewhere = validate_and_resolve_config(&group(), &host(Platform::Linux), false)
        .unwrap()
        .storage;
    assert_eq!(elsewhere.keychain_access_group.as_deref(), Some("G"));
}

#[test]
fn key_policies() {
    let on = host(Platform::Linux);
    let linux = SignerHandle::new(BackendKind::Keyring);
    assert!(matches!(
        linux.generate_key(&on, "l", AccessPolicy::BiometricOnly),
        Err(Error::PolicyNotSupported { policy }) if policy == "BiometricOnly"
    ));
    assert!(matches!(
        linux.generate_key(&on, "l", AccessPolicy::PasswordOnly),
        Err(Error::PolicyNotSupported { policy }) if policy == "PasswordOnly"
    ));
    let request = linux.generate_key(&on, "l", AccessPolicy::Any).unwrap();
    assert_eq!(request.label, "l");
    assert_eq!(request.key_type, KeyType::Signing);
    assert_eq!(request.policy, AccessPolicy::Any);
    assert!(linux.generate_key(&on, "l", AccessPolicy::Unrestricted).is_ok());
    let on = host(Platform::MacOs);
    let mac = SignerHandle::new(BackendKind::SecureEnclave);
    assert!(mac.generate_key(&on, "l", AccessPolicy::BiometricOnly).is_ok());
}

#[test]
fn presence_modes() {
    let on = host(Platform::Linux);
    let linux = SignerHandle::new(BackendKind::Keyring);
    assert!(!linux.presence_available(&on));
    assert_eq!(linux.backend_kind(), BackendKind::Keyring);
    assert!(matches!(
        linux.sign_with_presence(&on, "l", &PresenceOptions::strict("why")),
        Err(Error::PresenceNotAvailable)
    ));
    let request = linux
        .sign_with_presence(&on, "l", &PresenceOptions::cached("why", 60))
        .unwrap();
    assert!(matches!(request, SignRequest::Plain { label } if label == "l"));
    let on = Host { touch_id: true, ..host(Platform::MacOs) };
    let mac = SignerHandle::new(BackendKind::SecureEnclave);
    assert!(mac.presence_available(&on));
    let request = mac
        .sign_with_presence(&on, "l", &PresenceOptions::strict("why"))
        .unwrap();
    assert!(matches!(
        request,
        SignRequest::Presence { label, mode: PresenceMode::Strict, cache_ttl_secs: 0, reason }
            if label == "l" && reason == "why"
    ));
    let request = mac
        .sign_with_presence(&on, "l", &PresenceOptions::cached("why", 60))
        .unwrap();
    assert!(matches!(
        request,
        SignRequest::Presence { mode: PresenceMode::Cached, cache_ttl_secs: 60, .. }
    ));
}

#[test]
fn unreadable_keys_are_not_listed() {
    let signer = SignerHandle::new(BackendKind::Keyring);
    let labels = vec!["a".to_string(), "b".to_string(), "c".to_string()];
    let keys = vec![Ok(vec![1]), Err(Error::NotAvailable), Ok(vec![3])];
    let policies = vec![
        AccessPolicy::Any,
        AccessPolicy::Unrestricted,
        AccessPolicy::BiometricOnly,
    ];
    let infos = signer.list_keys(Ok(labels), &keys, &policies).unwrap();
    assert_eq!(infos.len(), 2);
    assert_eq!(infos[0].label, "a");
    assert_eq!(infos[0].public_key, vec![1]);
    assert_eq!(infos[1].label, "c");
    assert_eq!(infos[1].public_key, vec![3]);
    assert_eq!(infos[1].key_type, KeyType::Signing);
    assert_eq!(infos[0].access_policy, AccessPolicy::Any);
    assert_eq!(infos[1].access_policy, AccessPolicy::BiometricOnly);
    let failed = signer.list_keys(Err(Error::NotAvailable), &vec![], &vec![]);
    assert!(matches!(failed, Err(Error::NotAvailable)));
}

#[test]
fn decrypted_bytes_are_wrapped() {
    let handle = EncryptorHandle::new(BackendKind::Keyring);
    assert_eq!(handle.backend_kind(), BackendKind::Keyring);
    assert_eq!(handle.decrypt(Ok(vec![1, 2, 3])).unwrap().as_slice(), &[1, 2, 3]);
    assert!(matches!(
        handle.decrypt(Err(Error::NotAvailable)),
        Err(Error::NotAvailable)
    ));
}

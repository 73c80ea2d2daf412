use enclave::password_gate::{
    run_loopback, validate_via_sspi, verify_current_user, wlen, AuthCheck, BlobCheck, Cleanup,
    Credentials, Event, Loopback, PresenceCheck, PresenceOutcome, Reply, Sspi, Stage, Token,
    ERROR_CANCELLED_CODE, ERROR_LOGON_FAILURE_CODE, ERROR_SUCCESS_CODE, MAX_ATTEMPTS,
    SEC_E_LOGON_DENIED, SEC_E_OK, SEC_I_CONTINUE_NEEDED,
};

/// A drift of these codes would change what counts as denied.
#[test]
fn win32_codes_match_platform_definitions() {
    assert_eq!(ERROR_SUCCESS_CODE, 0);
    assert_eq!(ERROR_CANCELLED_CODE, 1223);
    assert_eq!(ERROR_LOGON_FAILURE_CODE, 1326);
}

/// Denied blocks, unavailable degrades: the two stay apart.
#[test]
fn outcomes_carry_the_expected_shape() {
    let denied = PresenceOutcome::Denied("cancelled".into());
    let unavailable = PresenceOutcome::Unavailable("headless".into());
    assert!(matches!(denied, PresenceOutcome::Denied(_)));
    assert!(matches!(unavailable, PresenceOutcome::Unavailable(_)));
    assert!(matches!(
        PresenceOutcome::Verified,
        PresenceOutcome::Verified
    ));
}

#[test]
fn status_codes_are_those_of_sspi() {
    assert_eq!(SEC_E_OK as u32, 0);
    assert_eq!(SEC_I_CONTINUE_NEEDED as u32, 0x0009_0312);
    assert_eq!(SEC_E_LOGON_DENIED as u32, 0x8009_030c);
}

fn token(address: usize) -> Token {
    Token { address, len: 40 }
}

fn leg(status: i32, token: Option<Token>) -> Event {
    Event::Leg(Reply { status, token })
}

/// Feed the events up to the first leg of the handshake.
fn up_to_handshake(check: &mut PresenceCheck) {
    let events = [
        Event::Prompted { code: 0, blob: Some(120) },
        Event::Sized { user: 6, domain: 0, password: 9 },
        Event::Unpacked { ok: true },
        Event::Acquired { ok: true },
        Event::Acquired { ok: true },
    ];
    for event in events {
        let (cleanup, outcome) = check.advance(event);
        assert!(cleanup.is_empty());
        assert!(outcome.is_none());
    }
}

#[test]
fn dialog_texts_are_wide_and_terminated() {
    let check = verify_current_user("é€𝄞");
    assert_eq!(check.message, vec![0xe9, 0x20ac, 0xd834, 0xdd1e, 0]);
    let caption: Vec<u16> = "gocode-dev\0".encode_utf16().collect();
    assert_eq!(check.caption, caption);
    assert_eq!(check.auth_error, 0);
    assert_eq!(check.attempts, 1);
}

#[test]
fn right_password_is_verified_and_everything_is_given_back() {
    let mut check = verify_current_user("Unlock");
    up_to_handshake(&mut check);

    let (cleanup, outcome) = check.advance(leg(SEC_I_CONTINUE_NEEDED, Some(token(1))));
    assert!(cleanup.is_empty() && outcome.is_none());
    let (cleanup, outcome) = check.advance(leg(SEC_I_CONTINUE_NEEDED, Some(token(2))));
    assert_eq!(cleanup, vec![Cleanup::FreeToken(token(1))]);
    assert!(outcome.is_none());
    let (cleanup, outcome) = check.advance(leg(SEC_E_OK, Some(token(3))));
    assert_eq!(cleanup, vec![Cleanup::FreeToken(token(2))]);
    assert!(outcome.is_none());
    let (cleanup, outcome) = check.advance(leg(SEC_E_OK, None));
    assert_eq!(
        cleanup,
        vec![
            Cleanup::FreeToken(token(3)),
            Cleanup::DeleteClientContext,
            Cleanup::DeleteServerContext,
            Cleanup::FreeClientCredential,
            Cleanup::FreeServerCredential,
            Cleanup::ScrubBlob,
        ]
    );
    assert!(matches!(outcome, Some(PresenceOutcome::Verified)));
    assert!(matches!(check.stage, Stage::Finished));
}

#[test]
fn three_wrong_passwords_are_denied() {
    let mut check = verify_current_user("Unlock");
    for attempt in 1..=MAX_ATTEMPTS {
        assert_eq!(check.attempts, attempt);
        assert_eq!(
            check.auth_error,
            if attempt == 1 { 0 } else { ERROR_LOGON_FAILURE_CODE }
        );
        up_to_handshake(&mut check);
        let (_, outcome) = check.advance(leg(SEC_E_OK, None));
        assert!(outcome.is_none());
        let (cleanup, outcome) = check.advance(leg(SEC_E_LOGON_DENIED, None));
        assert_eq!(cleanup.last(), Some(&Cleanup::ScrubBlob));
        if attempt < MAX_ATTEMPTS {
            assert!(outcome.is_none());
            assert!(matches!(check.stage, Stage::Prompting));
        } else {
            assert!(matches!(
                outcome,
                Some(PresenceOutcome::Denied(text)) if text == "Windows password could not be verified"
            ));
        }
    }
}

#[test]
fn cancelled_prompt_is_denied() {
    let mut check = verify_current_user("Unlock");
    let (cleanup, outcome) = check.advance(Event::Prompted {
        code: ERROR_CANCELLED_CODE,
        blob: None,
    });
    assert!(cleanup.is_empty());
    assert!(matches!(
        outcome,
        Some(PresenceOutcome::Denied(text)) if text == "user cancelled the password prompt"
    ));
}

#[test]
fn failed_prompt_is_unavailable() {
    let mut check = verify_current_user("Unlock");
    let (_, outcome) = check.advance(Event::Prompted { code: 0x8007_04c7, blob: None });
    assert!(matches!(
        outcome,
        Some(PresenceOutcome::Unavailable(text))
            if text == "CredUIPromptForWindowsCredentialsW failed (0x800704C7)"
    ));
}

#[test]
fn unusable_blobs_are_unavailable() {
    for (blob, cleanup) in [(None, vec![]), (Some(0), vec![Cleanup::ScrubBlob])] {
        let mut check = verify_current_user("Unlock");
        let (given_back, outcome) = check.advance(Event::Prompted { code: 0, blob });
        assert_eq!(given_back, cleanup);
        assert!(matches!(
            outcome,
            Some(PresenceOutcome::Unavailable(text)) if text == "empty credential buffer"
        ));
    }
}

#[test]
fn sizing_and_unpacking_failures() {
    let mut check = BlobCheck::begin(Some(10)).unwrap_or_else(|_| panic!());
    let (_, verdict) = check.verify_auth_buffer(Event::Sized { user: 0, domain: 3, password: 4 });
    assert!(matches!(
        verdict,
        Some(AuthCheck::Unavailable(text)) if text == "could not size unpacked credentials"
    ));

    let mut check = BlobCheck::begin(Some(10)).unwrap_or_else(|_| panic!());
    let (_, verdict) = check.verify_auth_buffer(Event::Sized { user: 2, domain: 0, password: 4 });
    assert!(verdict.is_none());
    assert_eq!(check.credentials.user, vec![0, 0]);
    assert_eq!(check.credentials.domain, vec![0]);
    assert_eq!(check.credentials.password, vec![0, 0, 0, 0]);
    check.credentials.password[0] = 77;
    let (_, verdict) = check.verify_auth_buffer(Event::Unpacked { ok: false });
    assert!(matches!(
        verdict,
        Some(AuthCheck::Unavailable(text)) if text == "could not unpack credentials"
    ));
    assert_eq!(check.credentials.password, vec![0, 0, 0, 0]);
    assert_eq!(check.credentials.user, vec![0, 0]);
}

#[test]
fn identity_counts_up_to_the_terminator() {
    let mut credentials = Credentials {
        user: vec![65, 66, 0, 67],
        domain: vec![0],
        password: vec![1, 2, 3],
    };
    let identity = credentials.identity();
    assert_eq!(identity.user_len, 2);
    assert_eq!(identity.domain_len, None);
    assert_eq!(identity.password_len, 3);
    credentials.domain = vec![68, 0];
    assert_eq!(credentials.identity().domain_len, Some(1));
    assert_eq!(wlen(&[]), 0);
    credentials.scrub();
    assert_eq!(credentials.user, vec![0; 4]);
    assert_eq!(credentials.domain, vec![0; 2]);
    assert_eq!(credentials.password, vec![0; 3]);
}

#[test]
fn credentials_that_cannot_be_acquired() {
    let (cleanup, next) = validate_via_sspi(Sspi::Outbound, Event::Acquired { ok: false });
    assert!(cleanup.is_empty());
    assert!(matches!(
        next,
        Err(AuthCheck::Unavailable(text)) if text == "AcquireCredentialsHandle(outbound) failed"
    ));
    let (cleanup, next) = validate_via_sspi(Sspi::Inbound, Event::Acquired { ok: false });
    assert_eq!(cleanup, vec![Cleanup::FreeClientCredential]);
    assert!(matches!(
        next,
        Err(AuthCheck::Unavailable(text)) if text == "AcquireCredentialsHandle(inbound) failed"
    ));
}

#[test]
fn failing_legs_are_unavailable() {
    let client = Loopback::Client { resumed: false, token: None };
    let (cleanup, next) = run_loopback(
        client,
        Reply { status: -0x7ff6_fcfb, token: Some(token(5)) },
    );
    assert_eq!(
        cleanup,
        vec![Cleanup::FreeToken(token(5)), Cleanup::DeleteClientContext]
    );
    assert!(matches!(
        next,
        Err(AuthCheck::Unavailable(text)) if text == "InitializeSecurityContext failed (0x80090305)"
    ));

    let server = Loopback::Server { resumed: true, token: Some(token(6)) };
    let (cleanup, next) = run_loopback(server, Reply { status: 1, token: None });
    assert_eq!(
        cleanup,
        vec![
            Cleanup::FreeToken(token(6)),
            Cleanup::DeleteClientContext,
            Cleanup::DeleteServerContext,
        ]
    );
    assert!(matches!(
        next,
        Err(AuthCheck::Unavailable(text)) if text == "AcceptSecurityContext failed (0x00000001)"
    ));

    let resumed = Loopback::Client { resumed: true, token: Some(token(7)) };
    let (cleanup, next) = run_loopback(resumed, Reply { status: SEC_E_LOGON_DENIED, token: None });
    assert_eq!(
        cleanup,
        vec![
            Cleanup::FreeToken(token(7)),
            Cleanup::DeleteClientContext,
            Cleanup::DeleteServerContext,
        ]
    );
    // A denial counts only where the server pronounces it.
    assert!(matches!(next, Err(AuthCheck::Unavailable(_))));
}

use increase_app_version::app_errors::{AppErrors, Operation};
use increase_app_version::installation_token_data::{
    InstallationToken, InstallationTokenFileContent, InstallationTokenPermissions, UnixTime,
};
use increase_app_version::token_lifecycle::{
    jwt_claims, JwtClaims, TokenAction, TokenEvent, TokenLifecycle, TokenPhase,
};

fn token(expires_at: &str) -> InstallationToken {
    InstallationToken {
        token: "SECRET-REDACTED".to_string(),
        expires_at: expires_at.to_string(),
        permissions: InstallationTokenPermissions {
            contents: "write".to_string(),
            metadata: "read".to_string(),
        },
        repository_selection: "selected".to_string(),
    }
}

// 2024-01-01T00:00:00Z
const NOW: UnixTime = UnixTime { seconds: 1_704_067_200, nanos: 0 };

#[test]
fn expiry_is_compared_with_now() {
    assert!(token("2024-01-01T01:00:00Z").is_token_valid_at(NOW));
    assert!(!token("2023-12-31T23:00:00Z").is_token_valid_at(NOW));
    assert!(!token("2024-01-01T00:00:00Z").is_token_valid_at(NOW));
    assert!(token("2024-01-01T00:00:00.5Z").is_token_valid_at(NOW));
    assert!(token("2024-01-01T00:30:00+00:30").is_token_valid_at(UnixTime { seconds: 1_704_067_199, nanos: 0 }));
    assert!(!token("2024-01-01T00:30:00+00:30").is_token_valid_at(NOW));
}

#[test]
fn unreadable_expiry_is_never_valid() {
    assert!(!token("tomorrow").is_token_valid_at(NOW));
    assert!(!token("").is_token_valid());
}

#[test]
fn validity_by_the_system_clock() {
    assert!(token("2999-01-01T00:00:00Z").is_token_valid());
    assert!(!token("2001-01-01T00:00:00Z").is_token_valid());
}

#[test]
fn claims_expire_ten_minutes_after_issue() {
    assert_eq!(
        jwt_claims(371_931, NOW),
        Some(JwtClaims { iss: 371_931, iat: 1_704_067_200, exp: 1_704_067_800 })
    );
    assert_eq!(jwt_claims(1, UnixTime { seconds: i64::MAX - 599, nanos: 0 }), None);
}

#[test]
fn valid_stored_token_needs_no_remote_call() {
    let (lifecycle, action) = TokenLifecycle::start(42, 7);
    assert!(matches!(action, TokenAction::ReadStore { installation_id: 42 }));
    let stored = InstallationTokenFileContent { token_data: token("2024-01-01T01:00:00Z") };
    let (lifecycle, action) =
        lifecycle.handle(TokenEvent::StoreRead { stored: Some(stored), now: NOW });
    assert!(matches!(action, TokenAction::Finish));
    match &lifecycle.phase {
        TokenPhase::Done(t) => assert_eq!(t.expires_at, "2024-01-01T01:00:00Z"),
        _ => panic!("the stored token should be used"),
    }
    let (lifecycle, action) = lifecycle.handle(TokenEvent::JwtSigned(Ok("x".to_string())));
    assert!(matches!(action, TokenAction::Finish));
    assert!(matches!(lifecycle.phase, TokenPhase::Done(_)));
}

fn refresh_from(stored: Option<InstallationTokenFileContent>) {
    let (lifecycle, _) = TokenLifecycle::start(42, 7);
    let (lifecycle, action) = lifecycle.handle(TokenEvent::StoreRead { stored, now: NOW });
    match action {
        TokenAction::SignJwt { claims } => {
            assert_eq!(claims, JwtClaims { iss: 7, iat: NOW.seconds, exp: NOW.seconds + 600 })
        }
        _ => panic!("expected signing"),
    }
    let (lifecycle, action) = lifecycle.handle(TokenEvent::JwtSigned(Ok("signed.jwt".to_string())));
    match action {
        TokenAction::ExchangeToken { installation_id, jwt } => {
            assert_eq!(installation_id, 42);
            assert_eq!(jwt, "signed.jwt");
        }
        _ => panic!("expected the exchange"),
    }
    let fresh = token("2024-01-01T01:00:00Z");
    let (lifecycle, action) = lifecycle.handle(TokenEvent::TokenExchanged(Ok(fresh)));
    match action {
        TokenAction::StoreToken { installation_id, token } => {
            assert_eq!(installation_id, 42);
            assert_eq!(token.expires_at, "2024-01-01T01:00:00Z");
        }
        _ => panic!("expected storing"),
    }
    let (lifecycle, action) =
        lifecycle.handle(TokenEvent::TokenStored(Err("disk full".to_string())));
    assert!(matches!(action, TokenAction::Finish));
    match lifecycle.phase {
        TokenPhase::Done(t) => assert_eq!(t.token, "SECRET-REDACTED"),
        _ => panic!("a failed store is not fatal"),
    }
}

#[test]
fn missing_token_is_minted_and_exchanged() {
    refresh_from(None);
}

#[test]
fn expired_token_is_minted_and_exchanged() {
    refresh_from(Some(InstallationTokenFileContent { token_data: token("2023-12-31T23:59:59Z") }));
}

#[test]
fn signing_failure_ends_the_lifecycle() {
    let (lifecycle, _) = TokenLifecycle::start(1, 2);
    let (lifecycle, _) = lifecycle.handle(TokenEvent::StoreRead { stored: None, now: NOW });
    let (lifecycle, action) =
        lifecycle.handle(TokenEvent::JwtSigned(Err("bad key".to_string())));
    assert!(matches!(action, TokenAction::Finish));
    match lifecycle.phase {
        TokenPhase::Failed(AppErrors::FailedToProcessJWD(cause)) => assert_eq!(cause, "bad key"),
        _ => panic!("expected a signing failure"),
    }
}

#[test]
fn exchange_failure_ends_the_lifecycle() {
    let (lifecycle, _) = TokenLifecycle::start(1, 2);
    let (lifecycle, _) = lifecycle.handle(TokenEvent::StoreRead { stored: None, now: NOW });
    let (lifecycle, _) = lifecycle.handle(TokenEvent::JwtSigned(Ok("jwt".to_string())));
    let (lifecycle, action) =
        lifecycle.handle(TokenEvent::TokenExchanged(Err("401".to_string())));
    assert!(matches!(action, TokenAction::Finish));
    assert!(matches!(
        lifecycle.phase,
        TokenPhase::Failed(AppErrors::ApiFailure(Operation::GetAccessToken, _))
    ));
}

#[test]
fn claims_out_of_range_end_the_lifecycle() {
    let (lifecycle, _) = TokenLifecycle::start(1, 2);
    let now = UnixTime { seconds: i64::MAX, nanos: 0 };
    let (lifecycle, action) = lifecycle.handle(TokenEvent::StoreRead { stored: None, now });
    assert!(matches!(action, TokenAction::Finish));
    assert!(matches!(lifecycle.phase, TokenPhase::Failed(AppErrors::JwtClaimsOutOfRange)));
}

#[test]
fn unexpected_event_ends_the_lifecycle() {
    let (lifecycle, _) = TokenLifecycle::start(1, 2);
    let (lifecycle, action) = lifecycle.handle(TokenEvent::TokenStored(Ok(())));
    assert!(matches!(action, TokenAction::Finish));
    assert!(matches!(lifecycle.phase, TokenPhase::Failed(AppErrors::UnexpectedEvent)));
}

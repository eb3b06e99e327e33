//! How an installation token is obtained: from the store while it is valid,
//! otherwise by signing the app's own short-lived token and exchanging it.
//!
//! The decisions are a state machine. A driver performs each action (reading
//! the store, signing, calling the platform, writing the store) and hands the
//! result back as the next event.
use vstd::prelude::*;

use crate::app_errors::{AppErrors, Operation};
use crate::installation_token_data::{InstallationToken, InstallationTokenFileContent, UnixTime};

verus! {

/// How long the app's signed token stays valid, in seconds.
pub const JWT_LIFETIME_SECONDS: i64 = 600;

/// The claims of the app's signed token.
#[derive(Clone, Copy, Debug, PartialEq, Eq, Structural)]
pub struct JwtClaims {
    /// The app's id.
    pub iss: u128,
    /// Issued at, in seconds since the Unix epoch.
    pub iat: i64,
    /// Expires at, in seconds since the Unix epoch.
    pub exp: i64,
}

/// The claims for the app `app_id` at `now`, or `None` where the expiry does
/// not fit in an `i64`.
pub open spec fn spec_jwt_claims(app_id: u128, now: UnixTime) -> Option<JwtClaims> {
    if now.seconds + JWT_LIFETIME_SECONDS <= i64::MAX {
        Some(JwtClaims { iss: app_id, iat: now.seconds, exp: (now.seconds + JWT_LIFETIME_SECONDS) as i64 })
    } else {
        None
    }
}

/// The claims of the app's signed token: issued now, expiring ten minutes
/// later, issued by the app.
pub fn jwt_claims(app_id: u128, now: UnixTime) -> (r: Option<JwtClaims>)
    ensures
        r == spec_jwt_claims(app_id, now),
{
    match now.seconds.checked_add(JWT_LIFETIME_SECONDS) {
        Some(exp) => Some(JwtClaims { iss: app_id, iat: now.seconds, exp }),
        None => None,
    }
}

/// Where the lifecycle stands.
pub enum TokenPhase {
    /// Waiting for the stored record and the time.
    ReadingStore,
    /// Waiting for the signed app token.
    SigningJwt,
    /// Waiting for the platform's answer to the exchange.
    Exchanging,
    /// Waiting for the new token to be stored.
    Storing(InstallationToken),
    /// The token to use.
    Done(InstallationToken),
    /// No token could be had.
    Failed(AppErrors),
}

/// What the driver must do next.
pub enum TokenAction {
    /// Read the stored record of the installation, and the time now.
    ReadStore { installation_id: u128 },
    /// Sign these claims with the app's private key (RS256).
    SignJwt { claims: JwtClaims },
    /// Exchange the signed app token for an installation token.
    ExchangeToken { installation_id: u128, jwt: String },
    /// Store this token for the installation; a failure there is not fatal.
    StoreToken { installation_id: u128, token: InstallationToken },
    /// Stop: the phase holds the token, or the failure.
    Finish,
}

/// What the driver reports back.
pub enum TokenEvent {
    /// The stored record, if one could be read, and the time now.
    StoreRead { stored: Option<InstallationTokenFileContent>, now: UnixTime },
    /// The signed app token, or why signing failed.
    JwtSigned(Result<String, String>),
    /// The platform's new token, or why the exchange failed.
    TokenExchanged(Result<InstallationToken, String>),
    /// Whether the token could be stored.
    TokenStored(Result<(), String>),
}

/// The token lifecycle of one request for one installation.
pub struct TokenLifecycle {
    pub installation_id: u128,
    pub app_id: u128,
    pub phase: TokenPhase,
}

impl TokenAction {
    /// The action calls the platform.
    pub open spec fn is_remote(self) -> bool {
        self is ExchangeToken
    }
}

impl TokenPhase {
    pub open spec fn is_finished(self) -> bool {
        self is Done || self is Failed
    }
}

impl TokenLifecycle {
    pub open spec fn with_phase(self, phase: TokenPhase) -> TokenLifecycle {
        TokenLifecycle { installation_id: self.installation_id, app_id: self.app_id, phase }
    }

    /// Without a usable stored token: sign new claims, or fail where they
    /// cannot be made.
    pub open spec fn spec_refresh(self, now: UnixTime) -> (TokenLifecycle, TokenAction) {
        match spec_jwt_claims(self.app_id, now) {
            Some(claims) => (self.with_phase(TokenPhase::SigningJwt), TokenAction::SignJwt { claims }),
            None => (self.with_phase(TokenPhase::Failed(AppErrors::JwtClaimsOutOfRange)), TokenAction::Finish),
        }
    }

    /// The next phase and action after `event`.
    pub open spec fn spec_handle(self, event: TokenEvent) -> (TokenLifecycle, TokenAction) {
        let id = self.installation_id;
        match (self.phase, event) {
            (TokenPhase::ReadingStore, TokenEvent::StoreRead { stored, now }) => match stored {
                Some(c) => if c.token_data.spec_valid_at(now) {
                    (self.with_phase(TokenPhase::Done(c.token_data)), TokenAction::Finish)
                } else {
                    self.spec_refresh(now)
                },
                None => self.spec_refresh(now),
            },
            (TokenPhase::SigningJwt, TokenEvent::JwtSigned(signed)) => match signed {
                Ok(jwt) => (self.with_phase(TokenPhase::Exchanging), TokenAction::ExchangeToken { installation_id: id, jwt }),
                Err(cause) => (
                    self.with_phase(TokenPhase::Failed(AppErrors::FailedToProcessJWD(cause))),
                    TokenAction::Finish,
                ),
            },
            (TokenPhase::Exchanging, TokenEvent::TokenExchanged(exchanged)) => match exchanged {
                Ok(token) => (
                    self.with_phase(TokenPhase::Storing(token)),
                    TokenAction::StoreToken { installation_id: id, token },
                ),
                Err(cause) => (
                    self.with_phase(TokenPhase::Failed(AppErrors::ApiFailure(Operation::GetAccessToken, cause))),
                    TokenAction::Finish,
                ),
            },
            (TokenPhase::Storing(token), TokenEvent::TokenStored(_)) => (
                self.with_phase(TokenPhase::Done(token)),
                TokenAction::Finish,
            ),
            (TokenPhase::Done(token), _) => (self.with_phase(TokenPhase::Done(token)), TokenAction::Finish),
            (TokenPhase::Failed(e), _) => (self.with_phase(TokenPhase::Failed(e)), TokenAction::Finish),
            _ => (self.with_phase(TokenPhase::Failed(AppErrors::UnexpectedEvent)), TokenAction::Finish),
        }
    }

    /// A lifecycle for the installation, and its first action: read the store.
    pub fn start(installation_id: u128, app_id: u128) -> (r: (TokenLifecycle, TokenAction))
        ensures
            r.0 == (TokenLifecycle { installation_id, app_id, phase: TokenPhase::ReadingStore }),
            r.1 == (TokenAction::ReadStore { installation_id }),
    {
        (
            TokenLifecycle { installation_id, app_id, phase: TokenPhase::ReadingStore },
            TokenAction::ReadStore { installation_id },
        )
    }

    fn refresh(installation_id: u128, app_id: u128, now: UnixTime) -> (r: (TokenLifecycle, TokenAction))
        ensures
            r == (TokenLifecycle { installation_id, app_id, phase: TokenPhase::ReadingStore }).spec_refresh(now),
    {
        match jwt_claims(app_id, now) {
            Some(claims) => (
                TokenLifecycle { installation_id, app_id, phase: TokenPhase::SigningJwt },
                TokenAction::SignJwt { claims },
            ),
            None => (
                TokenLifecycle { installation_id, app_id, phase: TokenPhase::Failed(AppErrors::JwtClaimsOutOfRange) },
                TokenAction::Finish,
            ),
        }
    }

    /// Takes in the result of the last action and decides the next one.
    pub fn handle(self, event: TokenEvent) -> (r: (TokenLifecycle, TokenAction))
        ensures
            r == self.spec_handle(event),
    {
        let installation_id = self.installation_id;
        let app_id = self.app_id;
        match (self.phase, event) {
            (TokenPhase::ReadingStore, TokenEvent::StoreRead { stored, now }) => match stored {
                Some(c) => {
                    if c.token_data.is_token_valid_at(now) {
                        (TokenLifecycle { installation_id, app_id, phase: TokenPhase::Done(c.token_data) }, TokenAction::Finish)
                    } else {
                        Self::refresh(installation_id, app_id, now)
                    }
                },
                None => Self::refresh(installation_id, app_id, now),
            },
            (TokenPhase::SigningJwt, TokenEvent::JwtSigned(signed)) => match signed {
                Ok(jwt) => (
                    TokenLifecycle { installation_id, app_id, phase: TokenPhase::Exchanging },
                    TokenAction::ExchangeToken { installation_id, jwt },
                ),
                Err(cause) => (
                    TokenLifecycle { installation_id, app_id, phase: TokenPhase::Failed(AppErrors::FailedToProcessJWD(cause)) },
                    TokenAction::Finish,
                ),
            },
            (TokenPhase::Exchanging, TokenEvent::TokenExchanged(exchanged)) => match exchanged {
                Ok(token) => {
                    let copy = token.duplicate();
                    (
                        TokenLifecycle { installation_id, app_id, phase: TokenPhase::Storing(token) },
                        TokenAction::StoreToken { installation_id, token: copy },
                    )
                },
                Err(cause) => (
                    TokenLifecycle {
                        installation_id,
                        app_id,
                        phase: TokenPhase::Failed(AppErrors::ApiFailure(Operation::GetAccessToken, cause)),
                    },
                    TokenAction::Finish,
                ),
            },
            (TokenPhase::Storing(token), TokenEvent::TokenStored(_)) => (
                TokenLifecycle { installation_id, app_id, phase: TokenPhase::Done(token) },
                TokenAction::Finish,
            ),
            (TokenPhase::Done(token), _) => (
                TokenLifecycle { installation_id, app_id, phase: TokenPhase::Done(token) },
                TokenAction::Finish,
            ),
            (TokenPhase::Failed(e), _) => (
                TokenLifecycle { installation_id, app_id, phase: TokenPhase::Failed(e) },
                TokenAction::Finish,
            ),
            _ => (
                TokenLifecycle { installation_id, app_id, phase: TokenPhase::Failed(AppErrors::UnexpectedEvent) },
                TokenAction::Finish,
            ),
        }
    }
}

/// A finished lifecycle stays as it is and asks for nothing more.
pub proof fn lemma_finished_lifecycle_is_final(m: TokenLifecycle, event: TokenEvent)
    requires
        m.phase.is_finished(),
    ensures
        m.spec_handle(event) == (m, TokenAction::Finish),
{
}

/// A stored token that is still valid is used as it is: the lifecycle
/// finishes with it at once, and no later step calls the platform.
pub proof fn lemma_valid_stored_token_used(m: TokenLifecycle, stored: InstallationTokenFileContent, now: UnixTime)
    requires
        m.phase is ReadingStore,
        stored.token_data.spec_valid_at(now),
    ensures
        ({
            let (next, action) = m.spec_handle(TokenEvent::StoreRead { stored: Some(stored), now });
            &&& next.phase == TokenPhase::Done(stored.token_data)
            &&& action == TokenAction::Finish
            &&& forall|e: TokenEvent| #[trigger] next.spec_handle(e) == (next, TokenAction::Finish)
        }),
{
    let (next, action) = m.spec_handle(TokenEvent::StoreRead { stored: Some(stored), now });
    assert forall|e: TokenEvent| #[trigger] next.spec_handle(e) == (next, TokenAction::Finish) by {
        lemma_finished_lifecycle_is_final(next, e);
    }
}

/// Without a stored token that is valid now, the lifecycle always signs
/// claims for the app, issued now and expiring ten minutes later, and then
/// exchanges the signed token with the platform.
pub proof fn lemma_missing_or_expired_token_refreshed(
    m: TokenLifecycle,
    stored: Option<InstallationTokenFileContent>,
    now: UnixTime,
    jwt: String,
)
    requires
        m.phase is ReadingStore,
        !(stored matches Some(c) && c.token_data.spec_valid_at(now)),
        now.seconds + JWT_LIFETIME_SECONDS <= i64::MAX,
    ensures
        ({
            let (signing, first) = m.spec_handle(TokenEvent::StoreRead { stored, now });
            let (exchanging, second) = signing.spec_handle(TokenEvent::JwtSigned(Ok(jwt)));
            &&& first == (TokenAction::SignJwt {
                claims: JwtClaims {
                    iss: m.app_id,
                    iat: now.seconds,
                    exp: (now.seconds + JWT_LIFETIME_SECONDS) as i64,
                },
            })
            &&& second.is_remote()
            &&& second == (TokenAction::ExchangeToken { installation_id: m.installation_id, jwt })
        }),
{
}

} // verus!

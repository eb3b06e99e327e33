//! Installation access tokens and the instants at which they expire.
use vstd::prelude::*;

verus! {

/// An instant, as whole seconds since the Unix epoch (UTC) and the
/// nanoseconds after them. As in chrono, `nanos` reaches past 999,999,999
/// only inside a leap second.
#[derive(Clone, Copy, Debug, PartialEq, Eq, Structural)]
pub struct UnixTime {
    pub seconds: i64,
    pub nanos: u32,
}

impl UnixTime {
    pub open spec fn spec_is_after(self, other: UnixTime) -> bool {
        self.seconds > other.seconds || (self.seconds == other.seconds && self.nanos > other.nanos)
    }

    /// Whether `self` comes strictly after `other`.
    pub fn is_after(&self, other: &UnixTime) -> (r: bool)
        ensures
            r == self.spec_is_after(*other),
    {
        self.seconds > other.seconds || (self.seconds == other.seconds && self.nanos > other.nanos)
    }
}

/// The instant that an RFC 3339 text names, as seconds since the Unix epoch
/// and nanoseconds, or `None` where chrono refuses the text.
pub uninterp spec fn rfc3339_instant(text: Seq<char>) -> Option<(i64, u32)>;

/// Relies on chrono's `DateTime::parse_from_rfc3339`, read back through
/// `timestamp` and `timestamp_subsec_nanos`: the result depends on the text
/// alone.
#[verifier::external_body]
fn parse_rfc3339(text: &str) -> (r: Option<UnixTime>)
    ensures
        r == match rfc3339_instant(text@) {
            Some((s, n)) => Some(UnixTime { seconds: s, nanos: n }),
            None => None::<UnixTime>,
        },
{
    match chrono::DateTime::parse_from_rfc3339(text) {
        Ok(t) => Some(UnixTime { seconds: t.timestamp(), nanos: t.timestamp_subsec_nanos() }),
        Err(_) => None,
    }
}

/// Relies on chrono's `Utc::now`: the system clock, which has no leap
/// seconds, so the nanoseconds stay under one second.
#[verifier::external_body]
fn current_time() -> (r: UnixTime)
    ensures
        r.nanos < 1_000_000_000,
{
    let now = chrono::Utc::now();
    UnixTime { seconds: now.timestamp(), nanos: now.timestamp_subsec_nanos() }
}

/// What an installation token may do.
pub struct InstallationTokenPermissions {
    pub contents: String,
    pub metadata: String,
}

/// An installation access token, as the platform issues it.
pub struct InstallationToken {
    pub token: String,
    /// When the token expires, in RFC 3339.
    pub expires_at: String,
    pub permissions: InstallationTokenPermissions,
    pub repository_selection: String,
}

/// The record kept for an installation.
pub struct InstallationTokenFileContent {
    pub token_data: InstallationToken,
}

impl InstallationTokenPermissions {
    /// A copy of the permissions.
    pub fn duplicate(&self) -> (r: InstallationTokenPermissions)
        ensures
            r == *self,
    {
        InstallationTokenPermissions { contents: self.contents.clone(), metadata: self.metadata.clone() }
    }
}

impl InstallationToken {
    /// The token is valid at `now`: its expiry reads as RFC 3339 and lies
    /// strictly after `now`.
    pub open spec fn spec_valid_at(&self, now: UnixTime) -> bool {
        match rfc3339_instant(self.expires_at@) {
            Some((s, n)) => (UnixTime { seconds: s, nanos: n }).spec_is_after(now),
            None => false,
        }
    }

    /// Whether the token is still valid at `now`.
    pub fn is_token_valid_at(&self, now: UnixTime) -> (r: bool)
        ensures
            r == self.spec_valid_at(now),
    {
        match parse_rfc3339(self.expires_at.as_str()) {
            Some(expiry) => expiry.is_after(&now),
            None => false,
        }
    }

    /// Whether the token is still valid now, by the system clock. A token
    /// whose expiry does not read as RFC 3339 is never valid.
    pub fn is_token_valid(&self) -> (r: bool)
        ensures
            r ==> rfc3339_instant(self.expires_at@) is Some,
            exists|now: UnixTime| now.nanos < 1_000_000_000 && r == #[trigger] self.spec_valid_at(now),
    {
        let now = current_time();
        let r = self.is_token_valid_at(now);
        assert(now.nanos < 1_000_000_000 && r == self.spec_valid_at(now));
        r
    }

    /// A copy of the token.
    pub fn duplicate(&self) -> (r: InstallationToken)
        ensures
            r == *self,
    {
        InstallationToken {
            token: self.token.clone(),
            expires_at: self.expires_at.clone(),
            permissions: self.permissions.duplicate(),
            repository_selection: self.repository_selection.clone(),
        }
    }
}

} // verus!

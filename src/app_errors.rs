//! The library's failures: one closed, tagged type, each variant carrying
//! what went wrong and, for remote work, which operation failed.
use vstd::prelude::*;

use crate::app_config::EnvVar;
use crate::callback_validator::RequiredHeader;

verus! {

/// The remote operations that a webhook can lead to.
#[derive(Clone, Copy, Debug, PartialEq, Eq, Structural)]
pub enum Operation {
    GetAccessToken,
    GetRepoFileContent,
    CreateTree,
    CreateCommit,
    UpdateReference,
}

/// Why an environment variable was refused.
#[derive(Clone, Copy, Debug, PartialEq, Eq, Structural)]
pub enum EnvVarProblem {
    /// Not `true` or `false`.
    InvalidBool,
    /// Not an unsigned integer.
    InvalidUnsigned,
    /// It names a key file that could not be read.
    UnreadableFile,
}

/// Why the webhook signature was refused.
#[derive(Clone, Copy, Debug, PartialEq, Eq, Structural)]
pub enum SignatureFailure {
    /// The hex digest has an odd number of digits.
    OddLength,
    /// The digest is not hexadecimal.
    InvalidHex,
    /// The digest is not the HMAC-SHA256 of the body.
    Mismatch,
}

/// Why the content of the tracked file could not be decoded.
#[derive(Clone, Copy, Debug, PartialEq, Eq, Structural)]
pub enum DecodeFailure {
    /// The content is not in the `base64` encoding.
    UnsupportedEncoding,
    /// A line of the content is not valid base64.
    InvalidBase64,
    /// The decoded bytes are not UTF-8 text.
    InvalidUtf8,
}

/// Why the version in the tracked file could not be increased.
#[derive(Clone, Copy, Debug, PartialEq, Eq, Structural)]
pub enum VersionFailure {
    /// The version pattern does not occur in the text.
    PatternNotFound,
    /// The version is not three dot-separated unsigned numbers.
    MalformedVersion,
    /// The minor number is already the largest one.
    MinorOverflow,
}

#[derive(Debug)]
pub enum AppErrors {
    /// The variables that are not set, in reading order.
    MissingEvironmentVariables(Vec<EnvVar>),
    InvalidEvironmentVariable(EnvVar, EnvVarProblem),
    /// The number of query parameters, where none are accepted.
    TooManyQueryParams(usize),
    /// A required header is absent.
    MissingHeader(RequiredHeader),
    /// A header's value does not have the expected form.
    HeaderInvalidFormatError(RequiredHeader),
    /// A header's value is not visible ASCII.
    HeaderParsingError(RequiredHeader),
    SignatureError(SignatureFailure),
    /// The body is not a webhook event; the parser's description.
    InvalidPayload(String),
    InvalidDeserializationInstallationFile(String),
    FailedToSaveInstallationFile(String),
    /// The app's token could not be signed; the cause.
    FailedToProcessJWD(String),
    /// The expiry of the app's token does not fit in the time range.
    JwtClaimsOutOfRange,
    /// A remote call failed in transport; the cause.
    ApiFailure(Operation, String),
    /// A remote call answered with a status that is not its success status.
    UnexpectedStatus(Operation, u16),
    FailedToDecodeFile(DecodeFailure),
    FailedToIncreaseVersionInFile(VersionFailure),
    /// The push event lists no commit to build on.
    NoCommits,
    /// A step of a workflow received an event that it did not ask for.
    UnexpectedEvent,
}

} // verus!

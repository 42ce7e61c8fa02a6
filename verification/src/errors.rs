//! The rejection kinds of the authentication protocol.

use vstd::prelude::*;

verus! {

/// Why a request was rejected.
#[derive(Clone, Copy, Debug, PartialEq, Eq, Structural)]
pub enum AuthError {
    /// The correlation id is unknown, or its challenge has expired.
    ChallengeNotFound,
    /// The submitted answer is not the expected one.
    ChallengeAnswerMismatch,
    /// Unknown user or wrong password; the two are deliberately not told apart.
    InvalidSigninCredentials,
    /// An account with this username already exists.
    UsernameTaken,
    /// The token is malformed or its signature does not match.
    InvalidToken,
    /// A protected operation was called without a token.
    Unauthorized,
    /// The token's expiration lies in the past.
    ExpiredToken,
    /// An access token was presented where a refresh token is required.
    NotRefreshToken,
    /// The refresh token was presented before its activation time.
    UnActiveRefreshToken,
    /// The token's subject no longer exists.
    UserNotFound,
    /// Something failed on the server's side; no detail is exposed.
    InternalServer,
}

/// The storage layer failed: it could not be reached, or it answered with an
/// error. It says nothing of what is stored.
#[derive(Clone, Copy, Debug, PartialEq, Eq, Structural)]
pub struct StorageFailure;

impl AuthError {
    /// The HTTP status under which each kind is reported.
    pub open spec fn spec_status_code(self) -> u16 {
        match self {
            AuthError::ChallengeNotFound => 403,
            AuthError::ChallengeAnswerMismatch => 403,
            AuthError::InvalidSigninCredentials => 400,
            AuthError::UsernameTaken => 400,
            AuthError::InvalidToken => 401,
            AuthError::Unauthorized => 401,
            AuthError::ExpiredToken => 401,
            AuthError::NotRefreshToken => 400,
            AuthError::UnActiveRefreshToken => 403,
            AuthError::UserNotFound => 404,
            AuthError::InternalServer => 500,
        }
    }

    /// The text shown to the caller for each kind.
    pub open spec fn spec_message(self) -> Seq<char> {
        match self {
            AuthError::ChallengeNotFound => "Invalid captcha token"@,
            AuthError::ChallengeAnswerMismatch => "Invalid captcha answer"@,
            AuthError::InvalidSigninCredentials => "Invalid username or password"@,
            AuthError::UsernameTaken => "Username already exists"@,
            AuthError::InvalidToken => "Invalid token"@,
            AuthError::Unauthorized => "Unauthorized, missing JWT"@,
            AuthError::ExpiredToken => "The token is expired"@,
            AuthError::NotRefreshToken => "The token is not a refresh token"@,
            AuthError::UnActiveRefreshToken => "The refresh token is not active yet"@,
            AuthError::UserNotFound => "User not found"@,
            AuthError::InternalServer => "Internal server error"@,
        }
    }

    pub fn status_code(&self) -> (code: u16)
        ensures
            code == self.spec_status_code(),
    {
        match self {
            AuthError::ChallengeNotFound => 403,
            AuthError::ChallengeAnswerMismatch => 403,
            AuthError::InvalidSigninCredentials => 400,
            AuthError::UsernameTaken => 400,
            AuthError::InvalidToken => 401,
            AuthError::Unauthorized => 401,
            AuthError::ExpiredToken => 401,
            AuthError::NotRefreshToken => 400,
            AuthError::UnActiveRefreshToken => 403,
            AuthError::UserNotFound => 404,
            AuthError::InternalServer => 500,
        }
    }

    pub fn message(&self) -> (text: String)
        ensures
            text@ == self.spec_message(),
    {
        let text: &str = match self {
            AuthError::ChallengeNotFound => "Invalid captcha token",
            AuthError::ChallengeAnswerMismatch => "Invalid captcha answer",
            AuthError::InvalidSigninCredentials => "Invalid username or password",
            AuthError::UsernameTaken => "Username already exists",
            AuthError::InvalidToken => "Invalid token",
            AuthError::Unauthorized => "Unauthorized, missing JWT",
            AuthError::ExpiredToken => "The token is expired",
            AuthError::NotRefreshToken => "The token is not a refresh token",
            AuthError::UnActiveRefreshToken => "The refresh token is not active yet",
            AuthError::UserNotFound => "User not found",
            AuthError::InternalServer => "Internal server error",
        };
        text.to_owned()
    }
}

} // verus!

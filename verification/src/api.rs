//! The decisions behind the four endpoints of the protocol: `captcha`,
//! `signup`, `signin` and `refresh`.
//!
//! Each function takes what the storage layer answered and returns the
//! response or the rejection. Where the storage layer failed, the response is
//! the internal error, whatever else holds. The variants that end in `_at`
//! take the instant as an argument; the others read the wall clock.

use vstd::prelude::*;
use crate::challenge::{
    answers_match, fits_base64, image_uri, png_data_uri, spec_verify_answer, AnswerMatching,
    ChallengeDraft, ChallengePass, ChallengeView,
};
use crate::claims::JwtClaims;
use crate::clock::{current_time, is_clock_reading};
use crate::codec::key_bytes;
use crate::credentials::{bcrypt_verdict, found_view, spec_verify, verify};
use crate::errors::{AuthError, StorageFailure};
use crate::gate::{spec_authorize, GateOutcome};
use crate::session::{
    can_issue_at, issue_at, spec_issue, IdentityRecord, IdentityView, TokenPair, TokenPairView,
};

verus! {

/// What every component is built with, fixed at startup.
#[derive(Debug)]
pub struct AuthConfig {
    /// The secret under which tokens are signed.
    pub secret_key: String,
    /// How puzzle answers are compared.
    pub answer_matching: AnswerMatching,
}

impl AuthConfig {
    pub fn new(secret_key: String, answer_matching: AnswerMatching) -> (config: AuthConfig)
        ensures
            config.secret_key == secret_key,
            config.answer_matching == answer_matching,
    {
        AuthConfig { secret_key, answer_matching }
    }

    /// The signing key's bytes.
    pub open spec fn key(&self) -> Seq<u8> {
        key_bytes(self.secret_key@)
    }
}

/// What the client receives for a new challenge.
#[derive(Debug)]
pub struct CaptchaSchema {
    /// The correlation id to send back with the answer.
    pub captcha_token: u128,
    /// The puzzle, as a data URI of a PNG image.
    pub captcha_image: String,
    /// The last instant at which an answer is accepted.
    pub expired_at: i64,
}

/// The mathematical value of a `CaptchaSchema`.
pub struct CaptchaView {
    pub captcha_token: u128,
    pub captcha_image: Seq<char>,
    pub expired_at: i64,
}

impl View for CaptchaSchema {
    type V = CaptchaView;

    open spec fn view(&self) -> CaptchaView {
        CaptchaView {
            captcha_token: self.captcha_token,
            captcha_image: self.captcha_image@,
            expired_at: self.expired_at,
        }
    }
}

/// The view of an optional image.
pub open spec fn image_view(image: Option<Vec<u8>>) -> Option<Seq<u8>> {
    match image {
        Some(png) => Some(png@),
        None => None,
    }
}

/// What the storage layer answered to a lookup or a creation of an account: the
/// account, `None` where there is none to give, or its failure.
pub open spec fn answer_view(answer: Result<Option<&IdentityRecord>, StorageFailure>) -> Result<
    Option<IdentityView>,
    StorageFailure,
> {
    match answer {
        Ok(found) => Ok(found_view(found)),
        Err(failure) => Err(failure),
    }
}

/// The response to a request for a challenge, given the id under which the
/// record was stored (or the failure to store it), the rendered puzzle (`None`
/// if rendering failed) and the record's expiry. Whatever goes wrong is an
/// internal error.
pub open spec fn spec_captcha(
    stored: Result<u128, StorageFailure>,
    image: Option<Seq<u8>>,
    expiry: i64,
) -> Result<CaptchaView, AuthError> {
    match (stored, image) {
        (Ok(correlation_id), Some(png)) => if fits_base64(png.len()) {
            Ok(
                CaptchaView {
                    captcha_token: correlation_id,
                    captcha_image: image_uri(png),
                    expired_at: expiry,
                },
            )
        } else {
            Err(AuthError::InternalServer)
        },
        _ => Err(AuthError::InternalServer),
    }
}

/// Whether an executable response is the one a specification gives.
pub open spec fn is_captcha(
    response: Result<CaptchaSchema, AuthError>,
    expected: Result<CaptchaView, AuthError>,
) -> bool {
    match response {
        Ok(schema) => expected == Ok::<CaptchaView, AuthError>(schema@),
        Err(e) => expected == Err::<CaptchaView, AuthError>(e),
    }
}

/// Whether an executable response is the one a specification gives.
pub open spec fn is_session(
    response: Result<TokenPair, AuthError>,
    expected: Result<TokenPairView, AuthError>,
) -> bool {
    match response {
        Ok(pair) => expected == Ok::<TokenPairView, AuthError>(pair@),
        Err(e) => expected == Err::<TokenPairView, AuthError>(e),
    }
}

/// Answers a request for a new challenge, once its draft has been stored.
pub fn captcha(draft: &ChallengeDraft, stored: Result<u128, StorageFailure>) -> (response: Result<
    CaptchaSchema,
    AuthError,
>)
    ensures
        is_captcha(response, spec_captcha(stored, image_view(draft.image), draft.expiry)),
{
    let correlation_id = match stored {
        Ok(correlation_id) => correlation_id,
        Err(_) => {
            return Err(AuthError::InternalServer);
        },
    };
    let png = match &draft.image {
        Some(png) => png,
        None => {
            return Err(AuthError::InternalServer);
        },
    };
    match png_data_uri(png.as_slice()) {
        Some(captcha_image) => Ok(
            CaptchaSchema { captcha_token: correlation_id, captcha_image, expired_at: draft.expiry },
        ),
        None => Err(AuthError::InternalServer),
    }
}

/// The response to a sign-up once the puzzle is solved: the internal error, if
/// the storage layer failed; `UsernameTaken`, if it created no account; else
/// the new account's token pair.
pub open spec fn spec_enroll(
    created: Result<Option<IdentityView>, StorageFailure>,
    key: Seq<u8>,
    now: i64,
) -> Result<TokenPairView, AuthError> {
    match created {
        Err(_) => Err(AuthError::InternalServer),
        Ok(None) => Err(AuthError::UsernameTaken),
        Ok(Some(identity)) => Ok(spec_issue(identity.subject, key, now)),
    }
}

/// The response to a whole sign-up at the instant `now`: the rejection of the
/// puzzle answer, if it is rejected; else what `spec_enroll` gives.
pub open spec fn spec_signup(
    challenge: Option<ChallengeView>,
    answer: Seq<char>,
    matching: AnswerMatching,
    created: Result<Option<IdentityView>, StorageFailure>,
    key: Seq<u8>,
    now: i64,
) -> Result<TokenPairView, AuthError> {
    match spec_verify_answer(challenge, answer, matching, now as int) {
        Err(e) => Err(e),
        Ok(_) => spec_enroll(created, key, now),
    }
}

/// Decides a sign-up as of the instant `now`.
///
/// `pass` is what `verify_answer` gave for the submitted answer; it is used up
/// here. `created` is what the storage layer answered when asked to create the
/// account: the account, `None` where the username was taken, or its failure.
pub fn signup_at(
    config: &AuthConfig,
    pass: ChallengePass,
    created: Result<Option<&IdentityRecord>, StorageFailure>,
    now: i64,
) -> (response: Result<TokenPair, AuthError>)
    requires
        can_issue_at(now),
    ensures
        is_session(response, spec_enroll(answer_view(created), config.key(), now)),
{
    let _ = pass.redeem();
    match created {
        Err(_) => Err(AuthError::InternalServer),
        Ok(None) => Err(AuthError::UsernameTaken),
        Ok(Some(identity)) => Ok(issue_at(identity, config.secret_key.as_str(), now)),
    }
}

/// Decides a sign-up as of the wall clock.
pub fn signup(
    config: &AuthConfig,
    pass: ChallengePass,
    created: Result<Option<&IdentityRecord>, StorageFailure>,
) -> (response: Result<TokenPair, AuthError>)
    ensures
        exists|now: i64|
            is_clock_reading(now) && is_session(
                response,
                #[trigger] spec_enroll(answer_view(created), config.key(), now),
            ),
{
    let now = current_time();
    signup_at(config, pass, created, now)
}

/// No session comes out of a sign-up unless the puzzle was solved in time and
/// an account was created; and the session is the created account's.
pub proof fn lemma_signup_needs_a_solved_puzzle(
    challenge: Option<ChallengeView>,
    answer: Seq<char>,
    matching: AnswerMatching,
    created: Result<Option<IdentityView>, StorageFailure>,
    key: Seq<u8>,
    now: i64,
)
    ensures
        spec_signup(challenge, answer, matching, created, key, now) is Ok <==> {
            &&& challenge is Some
            &&& now <= challenge.unwrap().expiry
            &&& answers_match(challenge.unwrap().expected_answer, answer, matching)
            &&& created matches Ok(Some(_))
        },
        spec_signup(challenge, answer, matching, created, key, now) is Ok ==> spec_signup(
            challenge,
            answer,
            matching,
            created,
            key,
            now,
        ) == Ok::<TokenPairView, AuthError>(
            spec_issue(created.unwrap().unwrap().subject, key, now),
        ),
{
}

/// The response to a sign-in at the instant `now`: the internal error, if the
/// lookup failed, and then no password is checked and no token minted; the
/// token pair of the account, if one was found and the password is accepted;
/// else `InvalidSigninCredentials`.
pub open spec fn spec_signin(
    found: Result<Option<IdentityView>, StorageFailure>,
    password: Seq<char>,
    key: Seq<u8>,
    now: i64,
) -> Result<TokenPairView, AuthError> {
    match found {
        Err(_) => Err(AuthError::InternalServer),
        Ok(account) => match spec_verify(account, password) {
            Err(e) => Err(e),
            Ok(identity) => Ok(spec_issue(identity.subject, key, now)),
        },
    }
}

/// Decides a sign-in as of the instant `now`.
///
/// `found` is what the storage layer answered to the lookup of the submitted
/// username: the account, `None` where there is none, or its failure.
pub fn signin_at(
    config: &AuthConfig,
    found: Result<Option<&IdentityRecord>, StorageFailure>,
    password: &str,
    now: i64,
) -> (response: Result<TokenPair, AuthError>)
    requires
        can_issue_at(now),
    ensures
        is_session(response, spec_signin(answer_view(found), password@, config.key(), now)),
{
    match found {
        Err(_) => Err(AuthError::InternalServer),
        Ok(account) => match verify(account, password) {
            Err(e) => Err(e),
            Ok(identity) => Ok(issue_at(identity, config.secret_key.as_str(), now)),
        },
    }
}

/// Decides a sign-in as of the wall clock.
pub fn signin(
    config: &AuthConfig,
    found: Result<Option<&IdentityRecord>, StorageFailure>,
    password: &str,
) -> (response: Result<TokenPair, AuthError>)
    ensures
        exists|now: i64|
            is_clock_reading(now) && is_session(
                response,
                #[trigger] spec_signin(answer_view(found), password@, config.key(), now),
            ),
{
    let now = current_time();
    signin_at(config, found, password, now)
}

/// Whose session a token may renew at the instant `now`: an expired token
/// gives `ExpiredToken`; a token without activation time, `NotRefreshToken`;
/// one whose activation time lies after `now`, `UnActiveRefreshToken`; else
/// the token's subject.
pub open spec fn spec_refresh_subject(claims: JwtClaims, now: int) -> Result<u128, AuthError> {
    if claims.spec_is_expired_at(now) {
        Err(AuthError::ExpiredToken)
    } else {
        match claims.active_after {
            None => Err(AuthError::NotRefreshToken),
            Some(instant) => if instant > now {
                Err(AuthError::UnActiveRefreshToken)
            } else {
                Ok(claims.uuid)
            },
        }
    }
}

/// Names the account to look up for a renewal as of the instant `now`.
pub fn refresh_subject_at(claims: &JwtClaims, now: i64) -> (subject: Result<u128, AuthError>)
    ensures
        subject == spec_refresh_subject(*claims, now as int),
{
    if claims.is_expired_at(now) {
        Err(AuthError::ExpiredToken)
    } else {
        match claims.active_after {
            None => Err(AuthError::NotRefreshToken),
            Some(instant) => if instant > now {
                Err(AuthError::UnActiveRefreshToken)
            } else {
                Ok(claims.uuid)
            },
        }
    }
}

/// Names the account to look up for a renewal as of the wall clock.
pub fn refresh_subject(claims: &JwtClaims) -> (subject: Result<u128, AuthError>)
    ensures
        exists|now: i64|
            is_clock_reading(now) && subject == #[trigger] spec_refresh_subject(
                *claims,
                now as int,
            ),
{
    let now = current_time();
    refresh_subject_at(claims, now)
}

/// The response to a renewal at the instant `now`: the rejection of the
/// token, if it may not renew a session; the internal error, if the lookup
/// failed; `UserNotFound`, if no account was found or the account found is not
/// the token's subject; else a new token pair for the token's subject.
pub open spec fn spec_refresh(
    claims: JwtClaims,
    found: Result<Option<IdentityView>, StorageFailure>,
    key: Seq<u8>,
    now: i64,
) -> Result<TokenPairView, AuthError> {
    match spec_refresh_subject(claims, now as int) {
        Err(e) => Err(e),
        Ok(subject) => match found {
            Err(_) => Err(AuthError::InternalServer),
            Ok(None) => Err(AuthError::UserNotFound),
            Ok(Some(identity)) => if identity.subject == subject {
                Ok(spec_issue(subject, key, now))
            } else {
                Err(AuthError::UserNotFound)
            },
        },
    }
}

/// Decides a renewal as of the instant `now`.
///
/// `claims` are the claims that the auth gate let through and `found` what the
/// storage layer answered to the lookup of their subject: the account, `None`
/// where there is none, or its failure. An account of another subject counts
/// as none.
pub fn refresh_at(
    config: &AuthConfig,
    claims: &JwtClaims,
    found: Result<Option<&IdentityRecord>, StorageFailure>,
    now: i64,
) -> (response: Result<TokenPair, AuthError>)
    requires
        can_issue_at(now),
    ensures
        is_session(response, spec_refresh(*claims, answer_view(found), config.key(), now)),
{
    match refresh_subject_at(claims, now) {
        Err(e) => Err(e),
        Ok(subject) => match found {
            Err(_) => Err(AuthError::InternalServer),
            Ok(None) => Err(AuthError::UserNotFound),
            Ok(Some(identity)) => if identity.subject == subject {
                Ok(issue_at(identity, config.secret_key.as_str(), now))
            } else {
                Err(AuthError::UserNotFound)
            },
        },
    }
}

/// Decides a renewal as of the wall clock.
pub fn refresh(
    config: &AuthConfig,
    claims: &JwtClaims,
    found: Result<Option<&IdentityRecord>, StorageFailure>,
) -> (response: Result<TokenPair, AuthError>)
    ensures
        exists|now: i64|
            is_clock_reading(now) && is_session(
                response,
                #[trigger] spec_refresh(*claims, answer_view(found), config.key(), now),
            ),
{
    let now = current_time();
    refresh_at(config, claims, found, now)
}

/// A sign-in with a known username and a password that is not accepted, and a
/// sign-in with an unknown username, get the same response: the same error
/// kind, and with it the same message and status.
pub proof fn lemma_signin_failures_look_alike(
    identity: IdentityView,
    wrong_password: Seq<char>,
    any_password: Seq<char>,
    key: Seq<u8>,
    now: i64,
)
    ensures
        bcrypt_verdict(wrong_password, identity.password_hash) != Some(true) ==> spec_signin(
            Ok(Some(identity)),
            wrong_password,
            key,
            now,
        ) == spec_signin(Ok(None), any_password, key, now),
        spec_signin(Ok(None), any_password, key, now) == Err::<TokenPairView, AuthError>(
            AuthError::InvalidSigninCredentials,
        ),
{
}

/// A storage failure is reported as the internal error and as nothing else: no
/// sign-in, sign-up or renewal mints a token on it, and none reports it as a
/// fault of the caller. A renewal still turns a token away on the token's own
/// grounds first.
pub proof fn lemma_storage_failure_is_internal(
    failure: StorageFailure,
    claims: JwtClaims,
    password: Seq<char>,
    key: Seq<u8>,
    now: i64,
)
    ensures
        spec_signin(Err(failure), password, key, now) == Err::<TokenPairView, AuthError>(
            AuthError::InternalServer,
        ),
        spec_enroll(Err(failure), key, now) == Err::<TokenPairView, AuthError>(
            AuthError::InternalServer,
        ),
        spec_refresh_subject(claims, now as int) is Ok ==> spec_refresh(
            claims,
            Err(failure),
            key,
            now,
        ) == Err::<TokenPairView, AuthError>(AuthError::InternalServer),
{
}

/// A renewal mints tokens for the token's own subject and for nobody else.
pub proof fn lemma_refresh_keeps_the_subject(
    claims: JwtClaims,
    found: Result<Option<IdentityView>, StorageFailure>,
    key: Seq<u8>,
    now: i64,
)
    ensures
        spec_refresh(claims, found, key, now) is Ok ==> {
            &&& found matches Ok(Some(identity)) && identity.subject == claims.uuid
            &&& spec_refresh(claims, found, key, now) == Ok::<TokenPairView, AuthError>(
                spec_issue(claims.uuid, key, now),
            )
        },
{
}

/// Behind the auth gate a renewal is never turned away as expired: of claims
/// that were let through at `now`, an access token gives `NotRefreshToken`, a
/// refresh token that is not yet active gives `UnActiveRefreshToken`, and any
/// other names its subject.
pub proof fn lemma_refresh_behind_the_gate(token: Option<Seq<char>>, key: Seq<u8>, now: int)
    ensures
        match spec_authorize(token, key, now) {
            GateOutcome::Admitted(claims) => match claims.active_after {
                None => spec_refresh_subject(claims, now) == Err::<u128, AuthError>(
                    AuthError::NotRefreshToken,
                ),
                Some(instant) => if instant > now {
                    spec_refresh_subject(claims, now) == Err::<u128, AuthError>(
                        AuthError::UnActiveRefreshToken,
                    )
                } else {
                    spec_refresh_subject(claims, now) == Ok::<u128, AuthError>(claims.uuid)
                },
            },
            GateOutcome::Rejected(_) => true,
        },
{
}

/// A refresh token cannot renew the session it was issued with before that
/// session's access token has run out.
pub proof fn lemma_fresh_refresh_token_must_wait(subject: u128, issued: i64, now: int)
    requires
        can_issue_at(issued),
        now < issued + crate::session::ACCESS_TTL,
    ensures
        spec_refresh_subject(crate::session::refresh_claims(subject, issued), now) is Err,
        issued <= now ==> spec_refresh_subject(crate::session::refresh_claims(subject, issued), now)
            == Err::<u128, AuthError>(AuthError::UnActiveRefreshToken),
{
}

} // verus!

//! The session issuer: mints the access and refresh token of one sign-in.

use vstd::prelude::*;
use crate::claims::JwtClaims;
use crate::clock::{current_time, is_clock_reading};
use crate::codec::{encode, key_bytes, lemma_decode_inverts_encode, spec_decode, spec_encode};
use crate::errors::AuthError;

verus! {

/// Seconds for which an access token is valid.
pub const ACCESS_TTL: i64 = 3600;

/// Seconds for which a refresh token is valid. Longer than `ACCESS_TTL`.
pub const REFRESH_TTL: i64 = 10800;

/// A stored account, as the storage layer hands it over.
#[derive(Debug)]
pub struct IdentityRecord {
    /// The stable handle of the account.
    pub subject: u128,
    /// The unique username.
    pub username: String,
    /// The one-way hash of the password.
    pub password_hash: String,
}

/// The mathematical value of an `IdentityRecord`.
pub struct IdentityView {
    pub subject: u128,
    pub username: Seq<char>,
    pub password_hash: Seq<char>,
}

impl View for IdentityRecord {
    type V = IdentityView;

    open spec fn view(&self) -> IdentityView {
        IdentityView {
            subject: self.subject,
            username: self.username@,
            password_hash: self.password_hash@,
        }
    }
}

impl IdentityRecord {
    pub fn new(subject: u128, username: String, password_hash: String) -> (record: IdentityRecord)
        ensures
            record@ == (IdentityView {
                subject,
                username: username@,
                password_hash: password_hash@,
            }),
    {
        IdentityRecord { subject, username, password_hash }
    }
}

/// The two tokens of a session, with the instants a client needs to plan its
/// next refresh.
#[derive(Debug)]
pub struct TokenPair {
    /// The signed access token.
    pub access_token: String,
    /// When the access token expires.
    pub access_expiration: i64,
    /// The signed refresh token.
    pub refresh_token: String,
    /// From when the refresh token may be used.
    pub refresh_activation: i64,
    /// When the refresh token expires.
    pub refresh_expiration: i64,
}

/// The mathematical value of a `TokenPair`.
pub struct TokenPairView {
    pub access_token: Seq<char>,
    pub access_expiration: i64,
    pub refresh_token: Seq<char>,
    pub refresh_activation: i64,
    pub refresh_expiration: i64,
}

impl View for TokenPair {
    type V = TokenPairView;

    open spec fn view(&self) -> TokenPairView {
        TokenPairView {
            access_token: self.access_token@,
            access_expiration: self.access_expiration,
            refresh_token: self.refresh_token@,
            refresh_activation: self.refresh_activation,
            refresh_expiration: self.refresh_expiration,
        }
    }
}

/// The instants for which both expirations fit a 64-bit timestamp.
pub open spec fn can_issue_at(now: i64) -> bool {
    now + REFRESH_TTL <= i64::MAX
}

/// The claims of the access token issued to `subject` at `now`: usable at once,
/// for `ACCESS_TTL` seconds.
pub open spec fn access_claims(subject: u128, now: i64) -> JwtClaims {
    JwtClaims { uuid: subject, active_after: None, exp: (now + ACCESS_TTL) as i64 }
}

/// The claims of the refresh token issued to `subject` at `now`: usable from the
/// instant the access token expires, until `REFRESH_TTL` seconds after `now`.
pub open spec fn refresh_claims(subject: u128, now: i64) -> JwtClaims {
    JwtClaims {
        uuid: subject,
        active_after: Some((now + ACCESS_TTL) as i64),
        exp: (now + REFRESH_TTL) as i64,
    }
}

/// The token pair issued to `subject` at `now` under `key`.
pub open spec fn spec_issue(subject: u128, key: Seq<u8>, now: i64) -> TokenPairView {
    TokenPairView {
        access_token: spec_encode(access_claims(subject, now), key),
        access_expiration: access_claims(subject, now).exp,
        refresh_token: spec_encode(refresh_claims(subject, now), key),
        refresh_activation: (now + ACCESS_TTL) as i64,
        refresh_expiration: refresh_claims(subject, now).exp,
    }
}

/// Mints the token pair of `identity` as of the instant `now`.
pub fn issue_at(identity: &IdentityRecord, secret_key: &str, now: i64) -> (pair: TokenPair)
    requires
        can_issue_at(now),
    ensures
        pair@ == spec_issue(identity.subject, key_bytes(secret_key@), now),
{
    let access_expiration = now + ACCESS_TTL;
    let refresh_expiration = now + REFRESH_TTL;
    let access = JwtClaims::new(identity.subject, None, access_expiration);
    let refresh = JwtClaims::new(identity.subject, Some(access_expiration), refresh_expiration);
    TokenPair {
        access_token: encode(&access, secret_key),
        access_expiration,
        refresh_token: encode(&refresh, secret_key),
        refresh_activation: access_expiration,
        refresh_expiration,
    }
}

/// Mints the token pair of `identity` as of the wall clock.
pub fn issue(identity: &IdentityRecord, secret_key: &str) -> (pair: TokenPair)
    ensures
        exists|now: i64|
            is_clock_reading(now) && pair@ == #[trigger] spec_issue(
                identity.subject,
                key_bytes(secret_key@),
                now,
            ),
{
    let now = current_time();
    issue_at(identity, secret_key, now)
}

/// Decoding the access token of a fresh pair gives an access token's claims for
/// the subject, and decoding its refresh token gives a refresh token's claims.
pub proof fn lemma_issued_tokens_decode(subject: u128, key: Seq<u8>, now: i64)
    ensures
        spec_decode(spec_issue(subject, key, now).access_token, key) == Ok::<
            JwtClaims,
            AuthError,
        >(access_claims(subject, now)),
        !access_claims(subject, now).spec_is_refresh_token(),
        spec_decode(spec_issue(subject, key, now).refresh_token, key) == Ok::<
            JwtClaims,
            AuthError,
        >(refresh_claims(subject, now)),
        refresh_claims(subject, now).spec_is_refresh_token(),
{
    lemma_decode_inverts_encode(access_claims(subject, now), key);
    lemma_decode_inverts_encode(refresh_claims(subject, now), key);
}

/// The refresh token becomes usable at the very second the access token
/// expires: in the pair's own fields and in the claims inside the two tokens.
pub proof fn lemma_staggered_activation(subject: u128, key: Seq<u8>, now: i64)
    ensures
        spec_issue(subject, key, now).refresh_activation == spec_issue(
            subject,
            key,
            now,
        ).access_expiration,
        spec_decode(spec_issue(subject, key, now).refresh_token, key).unwrap().active_after
            == Some(
            spec_decode(spec_issue(subject, key, now).access_token, key).unwrap().exp,
        ),
{
    lemma_issued_tokens_decode(subject, key, now);
}

/// The refresh token outlives the access token, and neither token of a fresh
/// pair is expired at the instant of issue.
pub proof fn lemma_fresh_pair_is_live(subject: u128, key: Seq<u8>, now: i64)
    requires
        can_issue_at(now),
    ensures
        spec_issue(subject, key, now).access_expiration < spec_issue(
            subject,
            key,
            now,
        ).refresh_expiration,
        !access_claims(subject, now).spec_is_expired_at(now as int),
        !refresh_claims(subject, now).spec_is_expired_at(now as int),
{
}

} // verus!

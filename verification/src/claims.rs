//! The payload of a signed token.

use vstd::prelude::*;
use crate::clock::current_time;

verus! {

/// The claims carried by a token: who it speaks for and when it is usable.
///
/// A value is either an access token (`active_after` is `None`) or a refresh
/// token (`active_after` is `Some`), never anything in between.
#[derive(Clone, Copy, Debug, PartialEq, Eq, Structural)]
pub struct JwtClaims {
    /// The user's uuid, as a 128-bit number.
    pub uuid: u128,
    /// The instant from which a refresh token may be used.
    pub active_after: Option<i64>,
    /// The instant after which the token is rejected.
    pub exp: i64,
}

impl JwtClaims {
    pub fn new(uuid: u128, active_after: Option<i64>, exp: i64) -> (claims: JwtClaims)
        ensures
            claims == (JwtClaims { uuid, active_after, exp }),
    {
        JwtClaims { uuid, active_after, exp }
    }

    /// A token is a refresh token exactly when it carries an activation time.
    pub open spec fn spec_is_refresh_token(self) -> bool {
        self.active_after is Some
    }

    /// A token is expired at `now` when its expiration lies strictly before `now`.
    pub open spec fn spec_is_expired_at(self, now: int) -> bool {
        self.exp < now
    }

    /// Returns whether the token is a refresh token.
    pub fn is_refresh_token(&self) -> (refresh: bool)
        ensures
            refresh == self.spec_is_refresh_token(),
    {
        self.active_after.is_some()
    }

    /// Returns whether the token is expired at the instant `now`.
    pub fn is_expired_at(&self, now: i64) -> (expired: bool)
        ensures
            expired == self.spec_is_expired_at(now as int),
    {
        self.exp < now
    }

    /// Returns whether the token is expired by the wall clock.
    pub fn is_expired(&self) -> (expired: bool)
        ensures
            exists|now: i64|
                crate::clock::is_clock_reading(now) && expired == #[trigger] self.spec_is_expired_at(
                    now as int,
                ),
    {
        let now = current_time();
        self.is_expired_at(now)
    }
}

/// Before its expiration a token is never reported expired; after it, always.
/// At the very second of expiration the token still counts as valid.
pub proof fn lemma_expiry_boundary(claims: JwtClaims, now: int)
    ensures
        now <= claims.exp ==> !claims.spec_is_expired_at(now),
        now > claims.exp ==> claims.spec_is_expired_at(now),
{
}

} // verus!

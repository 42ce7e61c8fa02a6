//! The auth gate: the stage in front of every protected operation. It finds
//! the inbound token, validates it, and either hands the claims on or turns
//! the request away with one named rejection.

use vstd::prelude::*;
use vstd::string::*;
use crate::claims::JwtClaims;
use crate::clock::{current_time, is_clock_reading};
use crate::codec::{
    claims_payload, decode, key_bytes, lemma_one_changed_character, one_character_changed,
    same_tag, spec_decode, spec_encode, token_parts,
};
use crate::errors::AuthError;

verus! {

/// How a request leaves the auth gate.
#[derive(Clone, Copy, Debug, PartialEq, Eq, Structural)]
pub enum GateOutcome {
    /// The token is genuine and unexpired; its claims go to the handler.
    Admitted(JwtClaims),
    /// The request stops here.
    Rejected(AuthError),
}

/// The view of an optional token.
pub open spec fn token_view(token: Option<&str>) -> Option<Seq<char>> {
    match token {
        Some(text) => Some(text@),
        None => None,
    }
}

/// The decision on an inbound token at the instant `now`:
/// no token, `Unauthorized`; a token that does not decode, `InvalidToken`; a
/// token whose expiration lies before `now`, `ExpiredToken`; else admitted.
pub open spec fn spec_authorize(token: Option<Seq<char>>, key: Seq<u8>, now: int) -> GateOutcome {
    match token {
        None => GateOutcome::Rejected(AuthError::Unauthorized),
        Some(text) => match spec_decode(text, key) {
            Err(_) => GateOutcome::Rejected(AuthError::InvalidToken),
            Ok(claims) => if claims.spec_is_expired_at(now) {
                GateOutcome::Rejected(AuthError::ExpiredToken)
            } else {
                GateOutcome::Admitted(claims)
            },
        },
    }
}

/// Validates an inbound token as of the instant `now`.
pub fn authorize_at(token: Option<&str>, secret_key: &str, now: i64) -> (outcome: GateOutcome)
    ensures
        outcome == spec_authorize(token_view(token), key_bytes(secret_key@), now as int),
{
    match token {
        None => GateOutcome::Rejected(AuthError::Unauthorized),
        Some(text) => match decode(text, secret_key) {
            Err(_) => GateOutcome::Rejected(AuthError::InvalidToken),
            Ok(claims) => if claims.is_expired_at(now) {
                GateOutcome::Rejected(AuthError::ExpiredToken)
            } else {
                GateOutcome::Admitted(claims)
            },
        },
    }
}

/// Validates an inbound token as of the wall clock.
pub fn authorize(token: Option<&str>, secret_key: &str) -> (outcome: GateOutcome)
    ensures
        exists|now: i64|
            is_clock_reading(now) && outcome == #[trigger] spec_authorize(
                token_view(token),
                key_bytes(secret_key@),
                now as int,
            ),
{
    let now = current_time();
    authorize_at(token, secret_key, now)
}

/// The scheme word that precedes a token in an `Authorization` header.
pub open spec fn bearer_prefix() -> Seq<char> {
    seq!['B', 'e', 'a', 'r', 'e', 'r', ' ']
}

/// The token that an `Authorization` header carries: what follows the prefix
/// `Bearer `, if the header starts with it.
pub open spec fn spec_bearer_token(header: Seq<char>) -> Option<Seq<char>> {
    if header.len() >= 7 && header.subrange(0, 7) == bearer_prefix() {
        Some(header.subrange(7, header.len() as int))
    } else {
        None
    }
}

/// Takes the token out of an `Authorization` header.
pub fn bearer_token(header: &str) -> (token: Option<&str>)
    ensures
        token_view(token) == spec_bearer_token(header@),
{
    let n = header.unicode_len();
    if n < 7 {
        return None;
    }
    let scheme = header.substring_char(0, 7);
    proof {
        reveal_strlit("Bearer ");
        assert("Bearer "@ =~= bearer_prefix());
    }
    if scheme.to_owned() == "Bearer ".to_owned() {
        Some(header.substring_char(7, n))
    } else {
        None
    }
}

/// There are exactly four ways out, and what is let through is genuine and
/// unexpired.
pub proof fn lemma_gate_outcomes(token: Option<Seq<char>>, key: Seq<u8>, now: int)
    ensures
        match spec_authorize(token, key, now) {
            GateOutcome::Admitted(claims) => token is Some && spec_decode(token.unwrap(), key)
                == Ok::<JwtClaims, AuthError>(claims) && !claims.spec_is_expired_at(now),
            GateOutcome::Rejected(kind) => kind == AuthError::Unauthorized || kind
                == AuthError::InvalidToken || kind == AuthError::ExpiredToken,
        },
        spec_authorize(token, key, now) == GateOutcome::Rejected(AuthError::Unauthorized)
            <==> token is None,
{
}

/// A request that carries a token with one character changed is turned away
/// with `InvalidToken`, at every instant and whatever the place and the new
/// character: no claims are handed on, so nothing is looked up and nothing
/// minted. The single way out is a changed text whose signed bytes have the
/// very tag of the genuine ones, a collision of HMAC-SHA256.
pub proof fn lemma_changed_token_is_turned_away(
    claims: JwtClaims,
    key: Seq<u8>,
    changed: Seq<char>,
    place: int,
    now: int,
)
    ensures
        one_character_changed(spec_encode(claims, key), changed, place) ==> {
            ||| spec_authorize(Some(changed), key, now) == GateOutcome::Rejected(
                AuthError::InvalidToken,
            )
            ||| token_parts(changed) is Some && same_tag(
                key,
                claims_payload(claims),
                token_parts(changed).unwrap().0,
            )
        },
{
    lemma_one_changed_character(claims, key, changed, place);
}

} // verus!

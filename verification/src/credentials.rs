//! The credential verifier: does a password belong to a stored account?

use vstd::prelude::*;
use crate::errors::AuthError;
use crate::session::{IdentityRecord, IdentityView};

verus! {

/// What `bcrypt::verify` returns for a password and a stored hash: `Some` with
/// its verdict, or `None` where it reports an error (a hash it cannot read).
/// Nothing is assumed about its value.
pub uninterp spec fn bcrypt_verdict(password: Seq<char>, hash: Seq<char>) -> Option<bool>;

/// Calls `bcrypt::verify(password, hash)` and drops the detail of its error.
///
/// Trusted: the verdict depends on the password and the hash alone, so it is
/// given the name `bcrypt_verdict`. The call compares in constant time and
/// returns for every input.
#[verifier::external_body]
fn bcrypt_verify(password: &str, hash: &str) -> (verdict: Option<bool>)
    ensures
        verdict == bcrypt_verdict(password@, hash@),
{
    bcrypt::verify(password, hash).ok()
}

/// The outcome of a sign-in attempt, given the account that was found and the
/// verdict on the password. Only a found account with a positive verdict is
/// let through; a missing account, a wrong password and a hashing error all
/// give the same rejection.
pub open spec fn spec_settle(found: Option<IdentityView>, verdict: Option<bool>) -> Result<
    IdentityView,
    AuthError,
> {
    match found {
        Some(identity) => if verdict == Some(true) {
            Ok(identity)
        } else {
            Err(AuthError::InvalidSigninCredentials)
        },
        None => Err(AuthError::InvalidSigninCredentials),
    }
}

/// The outcome of checking `password` against the account that was found.
pub open spec fn spec_verify(found: Option<IdentityView>, password: Seq<char>) -> Result<
    IdentityView,
    AuthError,
> {
    match found {
        Some(identity) => spec_settle(found, bcrypt_verdict(password, identity.password_hash)),
        None => Err(AuthError::InvalidSigninCredentials),
    }
}

/// The view of an optional account.
pub open spec fn found_view(found: Option<&IdentityRecord>) -> Option<IdentityView> {
    match found {
        Some(identity) => Some(identity@),
        None => None,
    }
}

/// Whether an executable outcome is the one a specification gives.
pub open spec fn is_outcome(
    outcome: Result<&IdentityRecord, AuthError>,
    expected: Result<IdentityView, AuthError>,
) -> bool {
    match outcome {
        Ok(identity) => expected == Ok::<IdentityView, AuthError>(identity@),
        Err(e) => expected == Err::<IdentityView, AuthError>(e),
    }
}

/// Decides a sign-in attempt from the account that was found and the verdict
/// on the password.
pub fn settle<'a>(found: Option<&'a IdentityRecord>, verdict: Option<bool>) -> (outcome: Result<
    &'a IdentityRecord,
    AuthError,
>)
    ensures
        is_outcome(outcome, spec_settle(found_view(found), verdict)),
        outcome matches Ok(identity) ==> found == Some(identity),
{
    match found {
        Some(identity) => match verdict {
            Some(true) => Ok(identity),
            _ => Err(AuthError::InvalidSigninCredentials),
        },
        None => Err(AuthError::InvalidSigninCredentials),
    }
}

/// Checks `password` against the account found under a username.
///
/// A missing account and a wrong password are rejected alike.
pub fn verify<'a>(found: Option<&'a IdentityRecord>, password: &str) -> (outcome: Result<
    &'a IdentityRecord,
    AuthError,
>)
    ensures
        is_outcome(outcome, spec_verify(found_view(found), password@)),
        outcome matches Ok(identity) ==> found == Some(identity),
{
    match found {
        Some(identity) => {
            let verdict = bcrypt_verify(password, identity.password_hash.as_str());
            settle(found, verdict)
        },
        None => Err(AuthError::InvalidSigninCredentials),
    }
}

/// A sign-in with a known username and a password that is not accepted, and a
/// sign-in with an unknown username, give the same error kind, and so the same
/// message and status.
pub proof fn lemma_failures_look_alike(
    identity: IdentityView,
    wrong_password: Seq<char>,
    any_password: Seq<char>,
)
    ensures
        bcrypt_verdict(wrong_password, identity.password_hash) != Some(true) ==> spec_verify(
            Some(identity),
            wrong_password,
        ) == spec_verify(None, any_password),
        spec_verify(None, any_password) == Err::<IdentityView, AuthError>(
            AuthError::InvalidSigninCredentials,
        ),
{
}

/// Whatever is not a positive verdict on a
/// found account is rejected as a missing account is.
pub proof fn lemma_rejections_look_alike(
    found: Option<IdentityView>,
    verdict: Option<bool>,
    other_verdict: Option<bool>,
)
    ensures
        spec_settle(found, verdict) is Err ==> spec_settle(found, verdict) == spec_settle(
            None,
            other_verdict,
        ),
{
}

} // verus!

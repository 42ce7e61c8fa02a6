use xors_auth::claims::JwtClaims;
use xors_auth::clock::{current_time, CLOCK_BOUND};

#[test]
fn new_keeps_its_arguments() {
    let claims = JwtClaims::new(9, Some(5), 7);
    assert_eq!(claims.uuid, 9);
    assert_eq!(claims.active_after, Some(5));
    assert_eq!(claims.exp, 7);
}

#[test]
fn a_token_with_activation_time_is_a_refresh_token() {
    assert!(JwtClaims::new(1, Some(0), 10).is_refresh_token());
    assert!(JwtClaims::new(1, Some(i64::MIN), 10).is_refresh_token());
    assert!(JwtClaims::new(1, Some(i64::MAX), 10).is_refresh_token());
}

#[test]
fn a_token_without_activation_time_is_an_access_token() {
    assert!(!JwtClaims::new(1, None, 10).is_refresh_token());
    assert!(!JwtClaims::new(1, None, i64::MAX).is_refresh_token());
}

#[test]
fn a_token_is_not_expired_before_its_expiration() {
    let claims = JwtClaims::new(1, None, 1000);
    assert!(!claims.is_expired_at(999));
    assert!(!claims.is_expired_at(0));
    assert!(!claims.is_expired_at(i64::MIN));
}

#[test]
fn a_token_is_still_valid_at_the_second_of_its_expiration() {
    assert!(!JwtClaims::new(1, None, 1000).is_expired_at(1000));
    assert!(!JwtClaims::new(1, None, i64::MAX).is_expired_at(i64::MAX));
}

#[test]
fn a_token_is_expired_after_its_expiration() {
    let claims = JwtClaims::new(1, None, 1000);
    assert!(claims.is_expired_at(1001));
    assert!(claims.is_expired_at(i64::MAX));
}

#[test]
fn expiry_by_the_wall_clock() {
    assert!(JwtClaims::new(1, None, 0).is_expired());
    assert!(JwtClaims::new(1, Some(0), -CLOCK_BOUND).is_expired());
    assert!(!JwtClaims::new(1, None, CLOCK_BOUND).is_expired());
    assert!(!JwtClaims::new(1, None, current_time() + 60).is_expired());
    assert!(JwtClaims::new(1, None, current_time() - 60).is_expired());
}

#[test]
fn the_clock_reads_a_plausible_time() {
    let now = current_time();
    assert!(now > 1_600_000_000);
    assert!(now < CLOCK_BOUND);
    assert!(current_time() >= now);
}

use xors_auth::claims::JwtClaims;
use xors_auth::clock::current_time;
use xors_auth::codec::encode;
use xors_auth::errors::AuthError;
use xors_auth::gate::{authorize, authorize_at, bearer_token, GateOutcome};

const KEY: &str = "gate key";

#[test]
fn a_missing_token_is_unauthorized() {
    assert_eq!(authorize_at(None, KEY, 0), GateOutcome::Rejected(AuthError::Unauthorized));
    assert_eq!(authorize(None, KEY), GateOutcome::Rejected(AuthError::Unauthorized));
}

#[test]
fn a_token_that_does_not_decode_is_invalid() {
    for text in ["", "garbage", "00.00", "Bearer abc"] {
        assert_eq!(authorize_at(Some(text), KEY, 0), GateOutcome::Rejected(AuthError::InvalidToken));
    }
    let foreign = encode(&JwtClaims::new(1, None, 1000), "another key");
    assert_eq!(authorize_at(Some(&foreign), KEY, 0), GateOutcome::Rejected(AuthError::InvalidToken));
}

#[test]
fn an_expired_token_is_rejected() {
    let token = encode(&JwtClaims::new(1, None, 1000), KEY);
    assert_eq!(authorize_at(Some(&token), KEY, 1001), GateOutcome::Rejected(AuthError::ExpiredToken));
    assert_eq!(authorize_at(Some(&token), KEY, i64::MAX), GateOutcome::Rejected(AuthError::ExpiredToken));
    assert_eq!(authorize(Some(&token), KEY), GateOutcome::Rejected(AuthError::ExpiredToken));
}

#[test]
fn an_unexpired_token_is_admitted_with_its_claims() {
    let access = JwtClaims::new(1, None, 1000);
    let token = encode(&access, KEY);
    assert_eq!(authorize_at(Some(&token), KEY, 999), GateOutcome::Admitted(access));
    assert_eq!(authorize_at(Some(&token), KEY, 1000), GateOutcome::Admitted(access));
    let refresh = JwtClaims::new(2, Some(5000), 9000);
    let token = encode(&refresh, KEY);
    assert_eq!(authorize_at(Some(&token), KEY, 0), GateOutcome::Admitted(refresh));
}

#[test]
fn the_gate_by_the_wall_clock() {
    let claims = JwtClaims::new(1, None, current_time() + 60);
    let token = encode(&claims, KEY);
    assert_eq!(authorize(Some(&token), KEY), GateOutcome::Admitted(claims));
}

#[test]
fn a_tampered_token_does_not_pass_the_gate() {
    let token = encode(&JwtClaims::new(1, None, 1000), KEY);
    let mut exp_raised = token.clone();
    exp_raised.replace_range(32..34, "ff");
    assert_ne!(exp_raised, token);
    assert_eq!(authorize_at(Some(&exp_raised), KEY, 0), GateOutcome::Rejected(AuthError::InvalidToken));
}

#[test]
fn the_token_follows_the_bearer_prefix() {
    assert_eq!(bearer_token("Bearer abc.def"), Some("abc.def"));
    assert_eq!(bearer_token("Bearer "), Some(""));
    assert_eq!(bearer_token("Bearer  two spaces"), Some(" two spaces"));
    assert_eq!(bearer_token("Bearer é"), Some("é"));
}

#[test]
fn a_header_without_the_bearer_prefix_carries_no_token() {
    for header in ["", "Bearer", "bearer abc", "BEARER abc", "Basic abc", " Bearer abc", "Bearerabc", "Béarer abc"] {
        assert_eq!(bearer_token(header), None, "{header:?}");
    }
}

#[test]
fn a_header_passes_the_gate_through_its_token() {
    let claims = JwtClaims::new(3, None, 1000);
    let header = format!("Bearer {}", encode(&claims, KEY));
    assert_eq!(authorize_at(bearer_token(&header), KEY, 10), GateOutcome::Admitted(claims));
    assert_eq!(authorize_at(bearer_token("Basic abc"), KEY, 10), GateOutcome::Rejected(AuthError::Unauthorized));
}

#[test]
fn every_single_byte_change_of_a_refresh_token_is_turned_away() {
    let claims = JwtClaims::new(7, Some(1000), 9000);
    let token = encode(&claims, KEY);
    assert_eq!(authorize_at(Some(&token), KEY, 2000), GateOutcome::Admitted(claims));
    let bytes = token.as_bytes();
    for place in 0..bytes.len() {
        for value in [b'0', b'1', b'8', b'9', b'a', b'e', b'f', b'.', b'A', b'g', b' ', 0u8, 0x7f] {
            if bytes[place] == value {
                continue;
            }
            let mut changed = bytes.to_vec();
            changed[place] = value;
            let changed = String::from_utf8(changed).unwrap();
            let header = format!("Bearer {changed}");
            assert_eq!(
                authorize_at(bearer_token(&header), KEY, 2000),
                GateOutcome::Rejected(AuthError::InvalidToken),
                "place {place}, value {value}"
            );
        }
    }
}

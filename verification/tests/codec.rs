use xors_auth::claims::JwtClaims;
use xors_auth::codec::{decode, encode, payload_bytes, read_payload};
use xors_auth::errors::AuthError;
use xors_auth::hex::{from_hex, to_hex};

const SUBJECT: u128 = 0x0123_4567_89ab_cdef_0123_4567_89ab_cdef;

const ACCESS_TOKEN: &str = "efcdab8967452301efcdab896745230100f1536500000080.3d5f4199571564abdcb91b285bf17edbac43c3b0dd616b8c1b7a885a05c25203";

const REFRESH_TOKEN: &str = "efcdab8967452301efcdab8967452301301b54650000008010ff536500000080.1d145d46efd9139b8ce4f4c1ae5ee228b64091e66efd6b5b4b3b236ad61a88c8";

fn access() -> JwtClaims {
    JwtClaims::new(SUBJECT, None, 1_700_000_000)
}

fn refresh() -> JwtClaims {
    JwtClaims::new(SUBJECT, Some(1_700_003_600), 1_700_010_800)
}

#[test]
fn hex_of_bytes_is_lower_case_two_digits_each() {
    assert_eq!(to_hex(&[]), "");
    assert_eq!(to_hex(&[0x00, 0x0f, 0xa0, 0xff]), "000fa0ff");
    assert_eq!(to_hex(&[0xde, 0xad, 0xbe, 0xef]), "deadbeef");
}

#[test]
fn hex_text_reads_back_as_its_bytes() {
    assert_eq!(from_hex(""), Some(vec![]));
    assert_eq!(from_hex("000fa0ff"), Some(vec![0x00, 0x0f, 0xa0, 0xff]));
    let all: Vec<u8> = (0..=255u8).collect();
    assert_eq!(from_hex(&to_hex(&all)), Some(all));
}

#[test]
fn hex_text_must_be_even_lower_case_digits() {
    assert_eq!(from_hex("abc"), None);
    assert_eq!(from_hex("AB"), None);
    assert_eq!(from_hex("0g"), None);
    assert_eq!(from_hex("0."), None);
    assert_eq!(from_hex(" 00"), None);
    assert_eq!(from_hex("0é"), None);
    assert_eq!(from_hex("éé"), None);
}

#[test]
fn payload_of_an_access_token_is_24_bytes() {
    let bytes = payload_bytes(&JwtClaims::new(7, None, 0));
    assert_eq!(bytes.len(), 24);
    assert_eq!(to_hex(&bytes), "070000000000000000000000000000000000000000000080");
}

#[test]
fn payload_of_a_refresh_token_is_32_bytes() {
    let bytes = payload_bytes(&refresh());
    assert_eq!(bytes.len(), 32);
    assert_eq!(
        to_hex(&bytes),
        "efcdab8967452301efcdab8967452301301b54650000008010ff536500000080"
    );
}

#[test]
fn payload_reads_back_as_its_claims() {
    for claims in [
        access(),
        refresh(),
        JwtClaims::new(0, None, i64::MIN),
        JwtClaims::new(u128::MAX, Some(i64::MIN), i64::MAX),
        JwtClaims::new(1, Some(-1), 0),
    ] {
        assert_eq!(read_payload(&payload_bytes(&claims)), Some(claims));
    }
}

#[test]
fn payload_of_another_length_is_no_claims() {
    assert_eq!(read_payload(&[]), None);
    assert_eq!(read_payload(&[0u8; 23]), None);
    assert_eq!(read_payload(&[0u8; 25]), None);
    assert_eq!(read_payload(&[0u8; 31]), None);
    assert_eq!(read_payload(&[0u8; 33]), None);
    assert_eq!(read_payload(&[0u8; 24]), Some(JwtClaims::new(0, None, i64::MIN)));
}

#[test]
fn encode_gives_the_signed_text_of_the_claims() {
    assert_eq!(encode(&access(), "secret"), ACCESS_TOKEN);
    assert_eq!(encode(&refresh(), "secret"), REFRESH_TOKEN);
    assert_eq!(
        encode(&JwtClaims::new(0, None, -1), ""),
        "00000000000000000000000000000000ffffffffffffff7f.d6e6e462ba7c4baae5cdbeda12d64a3f3a9f28d76fa7b770fd82a6201d9bf34a"
    );
    assert_eq!(
        encode(&JwtClaims::new(u128::MAX, Some(i64::MIN), i64::MAX), "kéy"),
        "ffffffffffffffffffffffffffffffffffffffffffffffff0000000000000000.9712f32214421c23500584a94683c0ce306f3694dfda3ba9751de08a8087ab26"
    );
}

#[test]
fn encode_is_deterministic() {
    assert_eq!(encode(&access(), "secret"), encode(&access(), "secret"));
    assert_ne!(encode(&access(), "secret"), encode(&access(), "Secret"));
    assert_ne!(encode(&access(), "secret"), encode(&refresh(), "secret"));
}

#[test]
fn decode_gives_the_claims_back() {
    assert_eq!(decode(ACCESS_TOKEN, "secret"), Ok(access()));
    assert_eq!(decode(REFRESH_TOKEN, "secret"), Ok(refresh()));
    for claims in [
        JwtClaims::new(0, None, i64::MIN),
        JwtClaims::new(u128::MAX, Some(i64::MIN), i64::MAX),
        JwtClaims::new(5, Some(0), -7),
    ] {
        for key in ["", "k", "a much longer key than the block of the hash function, which is sixty-four bytes long"] {
            assert_eq!(decode(&encode(&claims, key), key), Ok(claims));
        }
    }
}

#[test]
fn decode_does_not_look_at_expiration() {
    let long_gone = JwtClaims::new(SUBJECT, None, 1);
    let decoded = decode(&encode(&long_gone, "secret"), "secret");
    assert_eq!(decoded, Ok(long_gone));
    assert!(long_gone.is_expired_at(2));
}

#[test]
fn decode_rejects_another_key() {
    assert_eq!(decode(ACCESS_TOKEN, "Secret"), Err(AuthError::InvalidToken));
    assert_eq!(decode(ACCESS_TOKEN, ""), Err(AuthError::InvalidToken));
    assert_eq!(decode(REFRESH_TOKEN, "secret "), Err(AuthError::InvalidToken));
}

#[test]
fn decode_rejects_every_single_character_change() {
    let replacements = ['0', '1', '7', 'a', 'f', '.', 'g', 'F', ' '];
    for token in [ACCESS_TOKEN, REFRESH_TOKEN] {
        let chars: Vec<char> = token.chars().collect();
        for place in 0..chars.len() {
            for replacement in replacements {
                if chars[place] == replacement {
                    continue;
                }
                let mut changed = chars.clone();
                changed[place] = replacement;
                let changed: String = changed.into_iter().collect();
                assert_eq!(
                    decode(&changed, "secret"),
                    Err(AuthError::InvalidToken),
                    "place {place}, replacement {replacement:?}"
                );
            }
        }
    }
}

#[test]
fn decode_rejects_every_single_byte_change_of_the_signed_bytes() {
    let payload = payload_bytes(&refresh());
    let tag = &REFRESH_TOKEN[65..];
    for place in 0..payload.len() {
        for flip in [0x01u8, 0x10, 0x80, 0xff] {
            let mut changed = payload.clone();
            changed[place] ^= flip;
            let token = format!("{}.{}", to_hex(&changed), tag);
            assert_eq!(decode(&token, "secret"), Err(AuthError::InvalidToken));
        }
    }
}

#[test]
fn decode_rejects_truncated_and_extended_tokens() {
    for end in 0..ACCESS_TOKEN.len() {
        assert_eq!(decode(&ACCESS_TOKEN[..end], "secret"), Err(AuthError::InvalidToken));
    }
    assert_eq!(decode(&format!("{ACCESS_TOKEN}00"), "secret"), Err(AuthError::InvalidToken));
    assert_eq!(decode(&format!("00{ACCESS_TOKEN}"), "secret"), Err(AuthError::InvalidToken));
    assert_eq!(decode(&format!("{ACCESS_TOKEN}."), "secret"), Err(AuthError::InvalidToken));
}

#[test]
fn decode_rejects_malformed_text() {
    for text in [
        "",
        ".",
        "..",
        "00",
        "no dot at all",
        "zz.zz",
        "0011.",
        ".0011",
        "é.é",
        "00.11.22",
        "EFCDAB8967452301EFCDAB896745230100F1536500000080.3D5F4199571564ABDCB91B285BF17EDBAC43C3B0DD616B8C1B7A885A05C25203",
    ] {
        assert_eq!(decode(text, "secret"), Err(AuthError::InvalidToken), "{text:?}");
    }
}

#[test]
fn decode_rejects_signed_bytes_that_are_no_claims() {
    let ten_bytes = "00010203040506070809.33ea1d1636550d4d9d4112ee9249e837e47f18863e36d5bf00984323e70d09db";
    assert_eq!(decode(ten_bytes, "secret"), Err(AuthError::InvalidToken));
}

#[test]
fn decode_accepts_any_signed_claims_bytes() {
    let token = "000102030405060708090a0b0c0d0e0f1011121314151617.2d9e52eef95fbcbde766faa85c9ae789d972aafb67fe8eeac2c513f910ef1a4f";
    assert_eq!(
        decode(token, "secret"),
        Ok(JwtClaims::new(
            0x0f0e_0d0c_0b0a_0908_0706_0504_0302_0100,
            None,
            -7_559_831_748_531_318_512
        ))
    );
}

#[test]
fn an_accepted_text_is_the_encoding_of_its_claims() {
    for token in [ACCESS_TOKEN, REFRESH_TOKEN] {
        let claims = decode(token, "secret").unwrap();
        assert_eq!(encode(&claims, "secret"), token);
    }
}

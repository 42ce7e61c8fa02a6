//! The token codec: claims to and from a signed, printable token.
//!
//! A token is the hexadecimal text of the claims' bytes, a dot, and the
//! hexadecimal text of the HMAC-SHA256 tag of those bytes under the signing
//! key. The claims' bytes are the subject (16 bytes), the expiration (8 bytes)
//! and, for a refresh token only, the activation time (8 bytes), each least
//! significant byte first.

use vstd::prelude::*;
use vstd::bytes::*;
use vstd::slice::slice_subrange;
use vstd::string::*;
use vstd::utf8::*;
use hmac::{Hmac, Mac};
use sha2::Sha256;
use crate::claims::JwtClaims;
use crate::errors::AuthError;
use crate::hex::{
    append_hex, ascii_chars, hex_decode, hex_encode, is_hex_text, lemma_ascii_bytes,
    lemma_decode_encode, lemma_encode_decode, lemma_value_digit, parse_hex,
};

verus! {

/// Half the range of a 64-bit number: instants are stored shifted by it, so
/// that the earliest instant is written as zero.
pub const TIME_OFFSET: u64 = 0x8000_0000_0000_0000;

/// The unsigned number under which an instant is stored.
pub open spec fn time_code(instant: i64) -> u64 {
    (instant + TIME_OFFSET) as u64
}

/// The instant stored under an unsigned number.
pub open spec fn time_of(code: u64) -> i64 {
    (code - TIME_OFFSET) as i64
}

/// The bytes that are signed for a claims value.
pub open spec fn claims_payload(claims: JwtClaims) -> Seq<u8> {
    spec_u128_to_le_bytes(claims.uuid) + spec_u64_to_le_bytes(time_code(claims.exp))
        + match claims.active_after {
        Some(instant) => spec_u64_to_le_bytes(time_code(instant)),
        None => Seq::<u8>::empty(),
    }
}

/// The claims value that a byte string stands for: 24 bytes make an access
/// token, 32 bytes a refresh token, any other length nothing.
pub open spec fn parse_payload(bytes: Seq<u8>) -> Option<JwtClaims> {
    if bytes.len() == 24 {
        Some(
            JwtClaims {
                uuid: spec_u128_from_le_bytes(bytes.subrange(0, 16)),
                active_after: None,
                exp: time_of(spec_u64_from_le_bytes(bytes.subrange(16, 24))),
            },
        )
    } else if bytes.len() == 32 {
        Some(
            JwtClaims {
                uuid: spec_u128_from_le_bytes(bytes.subrange(0, 16)),
                active_after: Some(time_of(spec_u64_from_le_bytes(bytes.subrange(24, 32)))),
                exp: time_of(spec_u64_from_le_bytes(bytes.subrange(16, 24))),
            },
        )
    } else {
        None
    }
}

/// Parsing the bytes of a claims value gives the value back.
pub proof fn lemma_parse_payload_inverts(claims: JwtClaims)
    ensures
        parse_payload(claims_payload(claims)) == Some(claims),
        claims_payload(claims).len() == if claims.active_after is Some {
            32int
        } else {
            24int
        },
{
    lemma_auto_spec_u64_to_from_le_bytes();
    lemma_auto_spec_u128_to_from_le_bytes();
    let bytes = claims_payload(claims);
    let subject = spec_u128_to_le_bytes(claims.uuid);
    let expiry = spec_u64_to_le_bytes(time_code(claims.exp));
    assert(bytes.subrange(0, 16) =~= subject);
    assert(bytes.subrange(16, 24) =~= expiry);
    assert(time_of(time_code(claims.exp)) == claims.exp);
    match claims.active_after {
        Some(instant) => {
            assert(bytes.subrange(24, 32) =~= spec_u64_to_le_bytes(time_code(instant)));
            assert(time_of(time_code(instant)) == instant);
        },
        None => {},
    }
}

/// A byte string that parses is the bytes of what it parses to: each claims
/// value has exactly one byte string.
pub proof fn lemma_payload_is_canonical(bytes: Seq<u8>)
    requires
        parse_payload(bytes) is Some,
    ensures
        claims_payload(parse_payload(bytes).unwrap()) == bytes,
{
    lemma_auto_spec_u64_to_from_le_bytes();
    lemma_auto_spec_u128_to_from_le_bytes();
    let claims = parse_payload(bytes).unwrap();
    let exp_code = spec_u64_from_le_bytes(bytes.subrange(16, 24));
    assert(time_code(time_of(exp_code)) == exp_code);
    assert(spec_u128_to_le_bytes(claims.uuid) == bytes.subrange(0, 16));
    assert(spec_u64_to_le_bytes(time_code(claims.exp)) == bytes.subrange(16, 24));
    if bytes.len() == 32 {
        let act_code = spec_u64_from_le_bytes(bytes.subrange(24, 32));
        assert(time_code(time_of(act_code)) == act_code);
        assert(claims_payload(claims) =~= bytes);
    } else {
        assert(claims_payload(claims) =~= bytes);
    }
}

/// The unsigned number under which `instant` is stored.
fn encode_time(instant: i64) -> (code: u64)
    ensures
        code == time_code(instant),
{
    if instant >= 0 {
        instant as u64 + TIME_OFFSET
    } else {
        (instant - i64::MIN) as u64
    }
}

/// The instant stored under `code`.
fn decode_time(code: u64) -> (instant: i64)
    ensures
        instant == time_of(code),
{
    if code >= TIME_OFFSET {
        (code - TIME_OFFSET) as i64
    } else {
        code as i64 + i64::MIN
    }
}

/// Writes a claims value as the bytes that get signed.
pub fn payload_bytes(claims: &JwtClaims) -> (bytes: Vec<u8>)
    ensures
        bytes@ == claims_payload(*claims),
{
    let mut bytes = u128_to_le_bytes(claims.uuid);
    let mut expiry = u64_to_le_bytes(encode_time(claims.exp));
    bytes.append(&mut expiry);
    match claims.active_after {
        Some(instant) => {
            let mut activation = u64_to_le_bytes(encode_time(instant));
            bytes.append(&mut activation);
        },
        None => {},
    }
    assert(bytes@ =~= claims_payload(*claims));
    bytes
}

/// Reads a claims value from the bytes that were signed.
pub fn read_payload(bytes: &[u8]) -> (claims: Option<JwtClaims>)
    ensures
        claims == parse_payload(bytes@),
{
    let n = bytes.len();
    if n != 24 && n != 32 {
        return None;
    }
    let uuid = u128_from_le_bytes(slice_subrange(bytes, 0, 16));
    let exp = decode_time(u64_from_le_bytes(slice_subrange(bytes, 16, 24)));
    let active_after = if n == 32 {
        Some(decode_time(u64_from_le_bytes(slice_subrange(bytes, 24, 32))))
    } else {
        None
    };
    Some(JwtClaims { uuid, active_after, exp })
}

/// The HMAC-SHA256 tag of `message` under `key`, as the `hmac` crate computes
/// it. Nothing is assumed about its value.
pub uninterp spec fn hmac_sha256(key: Seq<u8>, message: Seq<u8>) -> Seq<u8>;

/// Runs `Hmac::<Sha256>` of the `hmac` crate over `message`: `new_from_slice`,
/// `update`, `finalize`.
///
/// Trusted: the tag depends on the key and the message alone, so it is given the
/// name `hmac_sha256`. HMAC takes keys of every length, hence `new_from_slice`
/// never fails here.
#[verifier::external_body]
fn hmac_sha256_tag(key: &[u8], message: &[u8]) -> (tag: Vec<u8>)
    ensures
        tag@ == hmac_sha256(key@, message@),
{
    let mut mac = Hmac::<Sha256>::new_from_slice(key).expect("HMAC takes keys of every length");
    mac.update(message);
    mac.finalize().into_bytes().to_vec()
}

/// The signing key's bytes: the UTF-8 encoding of the secret.
pub open spec fn key_bytes(secret: Seq<char>) -> Seq<u8> {
    encode_utf8(secret)
}

/// The text of a token with the given signed bytes and tag.
pub open spec fn token_text(payload: Seq<u8>, tag: Seq<u8>) -> Seq<char> {
    hex_encode(payload) + seq!['.'] + hex_encode(tag)
}

/// The signed bytes and the tag that a text holds, if it has the shape of a
/// token: hexadecimal text, the first dot, hexadecimal text.
pub open spec fn token_parts(token: Seq<char>) -> Option<(Seq<u8>, Seq<u8>)> {
    match token.index_of_first('.') {
        Some(dot) => match (
            hex_decode(token.subrange(0, dot)),
            hex_decode(token.subrange(dot + 1, token.len() as int)),
        ) {
            (Some(payload), Some(tag)) => Some((payload, tag)),
            _ => None,
        },
        None => None,
    }
}

/// The token for a claims value under a key.
pub open spec fn spec_encode(claims: JwtClaims, key: Seq<u8>) -> Seq<char> {
    token_text(claims_payload(claims), hmac_sha256(key, claims_payload(claims)))
}

/// What decoding a text under a key gives: the claims, if the text has the
/// shape of a token, its tag is the tag of its signed bytes under the key, and
/// those bytes stand for a claims value; `InvalidToken` in every other case.
/// Expiration plays no part.
pub open spec fn spec_decode(token: Seq<char>, key: Seq<u8>) -> Result<JwtClaims, AuthError> {
    match token_parts(token) {
        Some((payload, tag)) => if tag == hmac_sha256(key, payload) {
            match parse_payload(payload) {
                Some(claims) => Ok(claims),
                None => Err(AuthError::InvalidToken),
            }
        } else {
            Err(AuthError::InvalidToken)
        },
        None => Err(AuthError::InvalidToken),
    }
}

/// Hexadecimal text holds no dot and only ASCII characters.
proof fn lemma_hex_text_chars(text: Seq<char>)
    requires
        is_hex_text(text),
    ensures
        !text.contains('.'),
        is_ascii_chars(text),
{
    assert forall|i: int| 0 <= i < text.len() implies text[i] != '.' && '\0' <= #[trigger] text[i]
        <= '\u{7f}' by {
        lemma_value_digit(text[i]);
    }
}

/// Where the first dot of a text stands, given a place that holds a dot and has
/// none before it.
proof fn lemma_first_dot(token: Seq<char>, dot: int)
    requires
        0 <= dot < token.len(),
        token[dot] == '.',
        forall|j: int| 0 <= j < dot ==> token[j] != '.',
    ensures
        token.index_of_first('.') == Some(dot),
{
    token.index_of_first_ensures('.');
    assert(token.contains('.'));
}

/// The parts of a well-formed token are the parts it was made of.
pub proof fn lemma_token_parts(payload: Seq<u8>, tag: Seq<u8>)
    ensures
        token_parts(token_text(payload, tag)) == Some((payload, tag)),
{
    let token = token_text(payload, tag);
    let dot = hex_encode(payload).len() as int;
    lemma_decode_encode(payload);
    lemma_decode_encode(tag);
    lemma_hex_text_chars(hex_encode(payload));
    assert forall|j: int| 0 <= j < dot implies token[j] != '.' by {
        assert(token[j] == hex_encode(payload)[j]);
        assert(hex_encode(payload).contains(token[j]));
    }
    lemma_first_dot(token, dot);
    assert(token.subrange(0, dot) =~= hex_encode(payload));
    assert(token.subrange(dot + 1, token.len() as int) =~= hex_encode(tag));
}

/// A text with the shape of a token splits at its first dot into two
/// hexadecimal texts.
proof fn lemma_token_shape(token: Seq<char>) -> (dot: int)
    requires
        token_parts(token) is Some,
    ensures
        0 <= dot < token.len(),
        token.index_of_first('.') == Some(dot),
        is_hex_text(token.subrange(0, dot)),
        is_hex_text(token.subrange(dot + 1, token.len() as int)),
        hex_decode(token.subrange(0, dot)) == Some(token_parts(token).unwrap().0),
        hex_decode(token.subrange(dot + 1, token.len() as int)) == Some(
            token_parts(token).unwrap().1,
        ),
        token == token.subrange(0, dot) + seq!['.'] + token.subrange(
            dot + 1,
            token.len() as int,
        ),
{
    token.index_of_first_ensures('.');
    let dot = token.index_of_first('.').unwrap();
    assert(token =~= token.subrange(0, dot) + seq!['.'] + token.subrange(
        dot + 1,
        token.len() as int,
    ));
    dot
}

/// A text with the shape of a token is the text of its parts: no two texts
/// hold the same signed bytes and tag.
pub proof fn lemma_token_text_is_canonical(token: Seq<char>)
    requires
        token_parts(token) is Some,
    ensures
        token == token_text(token_parts(token).unwrap().0, token_parts(token).unwrap().1),
{
    let dot = lemma_token_shape(token);
    lemma_encode_decode(token.subrange(0, dot));
    lemma_encode_decode(token.subrange(dot + 1, token.len() as int));
}

/// A text with the shape of a token holds ASCII characters only.
proof fn lemma_token_is_ascii(token: Seq<char>)
    requires
        token_parts(token) is Some,
    ensures
        is_ascii_chars(token),
{
    let dot = lemma_token_shape(token);
    let before = token.subrange(0, dot);
    let after = token.subrange(dot + 1, token.len() as int);
    lemma_hex_text_chars(before);
    lemma_hex_text_chars(after);
    assert(is_ascii_chars(seq!['.']));
    assert(is_ascii_chars(before + seq!['.'])) by {
        is_ascii_chars_concat(before + seq!['.'], before, seq!['.']);
    }
    assert(is_ascii_chars(token)) by {
        is_ascii_chars_concat(token, before + seq!['.'], after);
    }
}

/// Decoding a freshly encoded token under the same key gives the claims back.
pub proof fn lemma_decode_inverts_encode(claims: JwtClaims, key: Seq<u8>)
    ensures
        spec_decode(spec_encode(claims, key), key) == Ok::<JwtClaims, AuthError>(claims),
{
    let payload = claims_payload(claims);
    lemma_token_parts(payload, hmac_sha256(key, payload));
    lemma_parse_payload_inverts(claims);
}

/// A text that decodes to some claims under a key is the very token that
/// encoding those claims under that key gives. So changing a token in any way
/// either makes it fail to decode or turns it into the genuine token of other
/// claims.
pub proof fn lemma_accepted_token_is_genuine(token: Seq<char>, key: Seq<u8>)
    requires
        spec_decode(token, key) is Ok,
    ensures
        token == spec_encode(spec_decode(token, key).unwrap(), key),
{
    lemma_token_text_is_canonical(token);
    lemma_payload_is_canonical(token_parts(token).unwrap().0);
}

/// Nobody gets a changed token accepted without a tag of their own: if a
/// text other than the token of `claims` decodes under the key, then it holds
/// other claims, and its tag is the genuine tag of those claims' bytes.
/// Changing the tag alone, the dot, or anything that leaves the signed bytes as
/// they were, always fails.
pub proof fn lemma_tampering_needs_a_forged_tag(
    claims: JwtClaims,
    key: Seq<u8>,
    tampered: Seq<char>,
)
    ensures
        tampered != spec_encode(claims, key) && spec_decode(tampered, key) is Ok ==> {
            &&& spec_decode(tampered, key).unwrap() != claims
            &&& token_parts(tampered).unwrap().0 != claims_payload(claims)
            &&& token_parts(tampered).unwrap().1 == hmac_sha256(
                key,
                claims_payload(spec_decode(tampered, key).unwrap()),
            )
        },
        tampered != spec_encode(claims, key) && token_parts(tampered) is Some && token_parts(
            tampered,
        ).unwrap().0 == claims_payload(claims) ==> spec_decode(tampered, key) is Err,
{
    if tampered != spec_encode(claims, key) && token_parts(tampered) is Some {
        let (payload, tag) = token_parts(tampered).unwrap();
        lemma_token_text_is_canonical(tampered);
        if payload == claims_payload(claims) {
            lemma_parse_payload_inverts(claims);
            assert(tag != hmac_sha256(key, payload));
        }
        if spec_decode(tampered, key) is Ok {
            lemma_accepted_token_is_genuine(tampered, key);
            lemma_payload_is_canonical(payload);
        }
    }
}

/// Whether `changed` is `token` with the character at `place`, and no other,
/// replaced by another one.
pub open spec fn one_character_changed(token: Seq<char>, changed: Seq<char>, place: int) -> bool {
    &&& changed.len() == token.len()
    &&& 0 <= place < token.len()
    &&& changed[place] != token[place]
    &&& forall|i: int| 0 <= i < token.len() && i != place ==> changed[i] == token[i]
}

/// Two different byte strings that have the same tag under a key.
pub open spec fn same_tag(key: Seq<u8>, one: Seq<u8>, other: Seq<u8>) -> bool {
    one != other && hmac_sha256(key, one) == hmac_sha256(key, other)
}

/// A token with one character changed is rejected as invalid, whatever the
/// place and the new character, with a single way out: the change hits the
/// signed bytes, and the changed bytes have the very tag of the genuine ones.
/// Such a pair of byte strings is a collision of HMAC-SHA256; none is known,
/// and nothing here claims that none exists.
pub proof fn lemma_one_changed_character(
    claims: JwtClaims,
    key: Seq<u8>,
    changed: Seq<char>,
    place: int,
)
    ensures
        spec_decode(changed, key) is Err ==> spec_decode(changed, key) == Err::<
            JwtClaims,
            AuthError,
        >(AuthError::InvalidToken),
        one_character_changed(spec_encode(claims, key), changed, place) && spec_decode(
            changed,
            key,
        ) is Ok ==> token_parts(changed) is Some && same_tag(
            key,
            claims_payload(claims),
            token_parts(changed).unwrap().0,
        ),
{
    let token = spec_encode(claims, key);
    if one_character_changed(token, changed, place) && spec_decode(changed, key) is Ok {
        let payload = claims_payload(claims);
        let tag = hmac_sha256(key, payload);
        let dot = hex_encode(payload).len() as int;
        lemma_decode_encode(payload);
        lemma_decode_encode(tag);
        lemma_hex_text_chars(hex_encode(payload));
        lemma_hex_text_chars(hex_encode(tag));
        assert(token.len() == dot + 1 + hex_encode(tag).len());
        assert(token[dot] == '.');

        let other_dot = lemma_token_shape(changed);
        let before = changed.subrange(0, other_dot);
        let after = changed.subrange(other_dot + 1, changed.len() as int);
        let other_payload = token_parts(changed).unwrap().0;
        let other_tag = token_parts(changed).unwrap().1;
        lemma_hex_text_chars(before);
        lemma_hex_text_chars(after);
        assert(changed[other_dot] == '.');

        // Both dots stand at the same place: else the two texts differ at
        // both of them.
        if other_dot < dot {
            assert(token[other_dot] == hex_encode(payload)[other_dot]);
            assert(hex_encode(payload).contains(token[other_dot]));
            assert(changed[dot] == after[dot - other_dot - 1]);
            assert(after.contains(changed[dot]));
            assert(false);
        }
        if dot < other_dot {
            assert(changed[dot] == before[dot]);
            assert(before.contains(changed[dot]));
            assert(token[other_dot] == hex_encode(tag)[other_dot - dot - 1]);
            assert(hex_encode(tag).contains(token[other_dot]));
            assert(false);
        }
        assert(other_dot == dot);

        // The signed bytes differ, so the change lies before the dot.
        assert(changed != token) by {
            assert(changed[place] != token[place]);
        }
        lemma_tampering_needs_a_forged_tag(claims, key, changed);
        assert(other_payload != payload);
        if place >= dot {
            assert(before =~= hex_encode(payload));
            assert(false);
        }
        // Hence the text of the tag is untouched.

        assert(after =~= hex_encode(tag)) by {
            assert forall|j: int| 0 <= j < after.len() implies after[j] == hex_encode(tag)[j] by {
                assert(after[j] == changed[dot + 1 + j]);
                assert(token[dot + 1 + j] == hex_encode(tag)[j]);
            }
        }
        assert(other_tag == tag);
    }
}

/// Compares two tags without stopping at the first difference.
fn tags_match(left: &[u8], right: &[u8]) -> (same: bool)
    ensures
        same == (left@ == right@),
{
    if left.len() != right.len() {
        return false;
    }
    let mut difference: u8 = 0;
    let mut i: usize = 0;
    assert(left@.subrange(0, 0) =~= right@.subrange(0, 0));
    while i < left.len()
        invariant
            i <= left.len(),
            left.len() == right.len(),
            (difference == 0) == (left@.subrange(0, i as int) == right@.subrange(0, i as int)),
        decreases left.len() - i,
    {
        let a = left[i];
        let b = right[i];
        let ghost earlier = difference;
        difference = difference | (a ^ b);
        proof {
            assert((earlier | (a ^ b)) == 0 <==> (earlier == 0 && a == b)) by (bit_vector);
            let l0 = left@.subrange(0, i as int);
            let r0 = right@.subrange(0, i as int);
            let l1 = left@.subrange(0, i + 1);
            let r1 = right@.subrange(0, i + 1);
            if l0 == r0 && a == b {
                assert(l1 =~= r1);
            }
            if l1 == r1 {
                assert(l1[i as int] == r1[i as int]);
                assert(l0 =~= l1.subrange(0, i as int));
                assert(r0 =~= r1.subrange(0, i as int));
            }
        }
        i += 1;
    }
    proof {
        assert(left@.subrange(0, i as int) =~= left@);
        assert(right@.subrange(0, i as int) =~= right@);
    }
    difference == 0
}

/// Encodes and signs a claims value.
///
/// The same claims under the same key always give the same token.
pub fn encode(claims: &JwtClaims, secret_key: &str) -> (token: String)
    ensures
        token@ == spec_encode(*claims, key_bytes(secret_key@)),
{
    let payload = payload_bytes(claims);
    let tag = hmac_sha256_tag(secret_key.as_bytes(), payload.as_slice());
    let mut token = String::new();
    append_hex(&mut token, payload.as_slice());
    token.append(".");
    append_hex(&mut token, tag.as_slice());
    proof {
        reveal_strlit(".");
        assert("."@ =~= seq!['.']);
        assert(token@ =~= token_text(payload@, tag@));
    }
    token
}

/// The place of the first dot among the character codes of a text.
fn find_dot(text: &[u8]) -> (place: Option<usize>)
    ensures
        match place {
            Some(dot) => dot < text.len() && text@[dot as int] == 46 && forall|j: int|
                0 <= j < dot ==> text@[j] != 46,
            None => forall|j: int| 0 <= j < text.len() ==> text@[j] != 46,
        },
{
    let mut i: usize = 0;
    while i < text.len()
        invariant
            i <= text.len(),
            forall|j: int| 0 <= j < i ==> text@[j] != 46,
        decreases text.len() - i,
    {
        if text[i] == 46 {
            return Some(i);
        }
        i += 1;
    }
    None
}

/// Checks a token's signature and reads its claims.
///
/// Expiration is not looked at: that is for the caller to decide.
pub fn decode(token: &str, secret_key: &str) -> (claims: Result<JwtClaims, AuthError>)
    ensures
        claims == spec_decode(token@, key_bytes(secret_key@)),
{
    if !token.is_ascii() {
        proof {
            if token_parts(token@) is Some {
                lemma_token_is_ascii(token@);
            }
        }
        return Err(AuthError::InvalidToken);
    }
    let text = token.as_bytes();
    proof {
        lemma_ascii_bytes(token);
        token@.index_of_first_ensures('.');
    }
    let dot = match find_dot(text) {
        Some(dot) => dot,
        None => {
            proof {
                if token@.contains('.') {
                    let j = choose|j: int| 0 <= j < token@.len() && token@[j] == '.';
                    assert(text@[j] as char == '.');
                }
            }
            return Err(AuthError::InvalidToken);
        },
    };
    proof {
        assert(token@[dot as int] == text@[dot as int] as char);
        assert forall|j: int| 0 <= j < dot implies token@[j] != '.' by {
            assert(token@[j] == text@[j] as char);
        }
        lemma_first_dot(token@, dot as int);
    }
    let before = slice_subrange(text, 0, dot);
    let after = slice_subrange(text, dot + 1, text.len());
    proof {
        assert(ascii_chars(before@) =~= token@.subrange(0, dot as int));
        assert(ascii_chars(after@) =~= token@.subrange(dot + 1, token@.len() as int));
    }
    let payload = match parse_hex(before) {
        Some(payload) => payload,
        None => {
            return Err(AuthError::InvalidToken);
        },
    };
    let tag = match parse_hex(after) {
        Some(tag) => tag,
        None => {
            return Err(AuthError::InvalidToken);
        },
    };
    let expected = hmac_sha256_tag(secret_key.as_bytes(), payload.as_slice());
    if !tags_match(tag.as_slice(), expected.as_slice()) {
        return Err(AuthError::InvalidToken);
    }
    match read_payload(payload.as_slice()) {
        Some(claims) => Ok(claims),
        None => Err(AuthError::InvalidToken),
    }
}

} // verus!

//! Lower-case hexadecimal text: two digits per byte, most significant first.

use vstd::prelude::*;
use vstd::string::*;
use vstd::utf8::*;

verus! {

/// The digit that stands for a value below sixteen.
pub open spec fn hex_digit(nibble: u8) -> char
    recommends
        nibble < 16,
{
    if nibble < 10 {
        (nibble + 48) as char
    } else {
        (nibble + 87) as char
    }
}

/// The value of a digit; `None` for every character that is not one of
/// `0`-`9`, `a`-`f`.
pub open spec fn hex_value(c: char) -> Option<u8> {
    if '0' <= c <= '9' {
        Some((c as u8 - 48) as u8)
    } else if 'a' <= c <= 'f' {
        Some((c as u8 - 87) as u8)
    } else {
        None
    }
}

/// Text of even length that holds digits only.
pub open spec fn is_hex_text(text: Seq<char>) -> bool {
    &&& text.len() % 2 == 0
    &&& forall|i: int| 0 <= i < text.len() ==> hex_value(#[trigger] text[i]) is Some
}

/// The text that stands for a byte string.
pub open spec fn hex_encode(bytes: Seq<u8>) -> Seq<char> {
    Seq::new(
        2 * bytes.len(),
        |i: int|
            if i % 2 == 0 {
                hex_digit(bytes[i / 2] / 16)
            } else {
                hex_digit(bytes[i / 2] % 16)
            },
    )
}

/// The byte string that a text stands for, if it stands for one.
pub open spec fn hex_decode(text: Seq<char>) -> Option<Seq<u8>> {
    if is_hex_text(text) {
        Some(
            Seq::new(
                text.len() / 2,
                |i: int|
                    (hex_value(text[2 * i]).unwrap() * 16 + hex_value(
                        text[2 * i + 1],
                    ).unwrap()) as u8,
            ),
        )
    } else {
        None
    }
}

/// A digit's value is the value it was written for.
pub proof fn lemma_digit_value(nibble: u8)
    requires
        nibble < 16,
    ensures
        hex_value(hex_digit(nibble)) == Some(nibble),
        hex_digit(nibble) != '.',
{
}

/// A digit is written back as itself.
pub proof fn lemma_value_digit(c: char)
    requires
        hex_value(c) is Some,
    ensures
        hex_value(c).unwrap() < 16,
        hex_digit(hex_value(c).unwrap()) == c,
        c != '.',
{
}

/// A byte is sixteen times its high half plus its low half.
proof fn lemma_halves(high: u8, low: u8)
    requires
        high < 16,
        low < 16,
    ensures
        high * 16 + low < 256,
        (high * 16 + low) / 16 == high,
        (high * 16 + low) % 16 == low,
{
}

/// The two digits written for the byte at place `k` read back as that byte.
proof fn lemma_decode_encode_at(bytes: Seq<u8>, k: int)
    requires
        0 <= k < bytes.len(),
    ensures
        hex_encode(bytes)[2 * k] == hex_digit(bytes[k] / 16),
        hex_encode(bytes)[2 * k + 1] == hex_digit(bytes[k] % 16),
        hex_value(hex_encode(bytes)[2 * k]) == Some(bytes[k] / 16),
        hex_value(hex_encode(bytes)[2 * k + 1]) == Some(bytes[k] % 16),
{
    assert((2 * k) / 2 == k && (2 * k) % 2 == 0);
    assert((2 * k + 1) / 2 == k && (2 * k + 1) % 2 == 1);
    lemma_digit_value(bytes[k] / 16);
    lemma_digit_value(bytes[k] % 16);
}

/// Decoding undoes encoding.
pub proof fn lemma_decode_encode(bytes: Seq<u8>)
    ensures
        is_hex_text(hex_encode(bytes)),
        hex_decode(hex_encode(bytes)) == Some(bytes),
{
    let text = hex_encode(bytes);
    assert(text.len() == 2 * bytes.len());
    assert forall|i: int| 0 <= i < text.len() implies hex_value(#[trigger] text[i]) is Some by {
        let k = i / 2;
        lemma_decode_encode_at(bytes, k);
        assert(i == 2 * k || i == 2 * k + 1);
    }
    assert(is_hex_text(text));
    let back = hex_decode(text).unwrap();
    assert(back.len() == bytes.len());
    assert forall|k: int| 0 <= k < bytes.len() implies back[k] == bytes[k] by {
        lemma_decode_encode_at(bytes, k);
        let b = bytes[k];
        assert(b == (b / 16) * 16 + b % 16);
    }
    assert(back =~= bytes);
}

/// The byte read at place `k` is written back as the two digits it was read
/// from.
proof fn lemma_encode_decode_at(text: Seq<char>, k: int)
    requires
        is_hex_text(text),
        0 <= k < text.len() / 2,
    ensures
        hex_encode(hex_decode(text).unwrap())[2 * k] == text[2 * k],
        hex_encode(hex_decode(text).unwrap())[2 * k + 1] == text[2 * k + 1],
{
    let bytes = hex_decode(text).unwrap();
    lemma_value_digit(text[2 * k]);
    lemma_value_digit(text[2 * k + 1]);
    let high = hex_value(text[2 * k]).unwrap();
    let low = hex_value(text[2 * k + 1]).unwrap();
    lemma_halves(high, low);
    assert(bytes[k] == high * 16 + low);
    assert((2 * k) / 2 == k && (2 * k) % 2 == 0);
    assert((2 * k + 1) / 2 == k && (2 * k + 1) % 2 == 1);
}

/// Encoding undoes decoding: a byte string has exactly one text.
pub proof fn lemma_encode_decode(text: Seq<char>)
    requires
        is_hex_text(text),
    ensures
        hex_encode(hex_decode(text).unwrap()) == text,
{
    let bytes = hex_decode(text).unwrap();
    let again = hex_encode(bytes);
    assert(bytes.len() == text.len() / 2);
    assert(again.len() == text.len());
    assert forall|i: int| 0 <= i < text.len() implies again[i] == text[i] by {
        let k = i / 2;
        lemma_encode_decode_at(text, k);
        assert(i == 2 * k || i == 2 * k + 1);
    }
    assert(again =~= text);
}

/// The characters of a byte string in which every byte is its own character.
pub open spec fn ascii_chars(bytes: Seq<u8>) -> Seq<char> {
    Seq::new(bytes.len(), |i: int| bytes[i] as char)
}

/// The bytes of an ASCII string are its characters, one for one.
pub proof fn lemma_ascii_bytes(text: &str)
    requires
        is_ascii(text),
    ensures
        ascii_chars(text.spec_bytes()) == text@,
{
    broadcast use is_ascii_spec_bytes;

    let bytes = text.spec_bytes();
    assert(bytes.len() == text@.len());
    assert forall|i: int| 0 <= i < bytes.len() implies (bytes[i] as char) == text@[i] by {
        let c = text@[i];
        assert('\0' <= c <= '\u{7f}');
        assert(bytes[i] == c as u8);
        char_u32_cast(c, c as u32);
    }
    assert(ascii_chars(bytes) =~= text@);
}

/// A one-digit string for a value below sixteen.
fn digit_str(nibble: u8) -> (digit: &'static str)
    requires
        nibble < 16,
    ensures
        digit@ == seq![hex_digit(nibble)],
{
    proof {
        reveal_strlit("0");
        reveal_strlit("1");
        reveal_strlit("2");
        reveal_strlit("3");
        reveal_strlit("4");
        reveal_strlit("5");
        reveal_strlit("6");
        reveal_strlit("7");
        reveal_strlit("8");
        reveal_strlit("9");
        reveal_strlit("a");
        reveal_strlit("b");
        reveal_strlit("c");
        reveal_strlit("d");
        reveal_strlit("e");
        reveal_strlit("f");
    }
    let digit = match nibble {
        0 => "0",
        1 => "1",
        2 => "2",
        3 => "3",
        4 => "4",
        5 => "5",
        6 => "6",
        7 => "7",
        8 => "8",
        9 => "9",
        10 => "a",
        11 => "b",
        12 => "c",
        13 => "d",
        14 => "e",
        _ => "f",
    };
    assert(digit@ =~= seq![hex_digit(nibble)]);
    digit
}

/// Appends the hexadecimal text of `bytes` to `out`.
pub fn append_hex(out: &mut String, bytes: &[u8])
    ensures
        final(out)@ == old(out)@ + hex_encode(bytes@),
{
    let mut i: usize = 0;
    assert(out@ =~= old(out)@ + hex_encode(bytes@.subrange(0, 0)));
    while i < bytes.len()
        invariant
            i <= bytes.len(),
            out@ == old(out)@ + hex_encode(bytes@.subrange(0, i as int)),
        decreases bytes.len() - i,
    {
        let byte = bytes[i];
        let ghost before = out@;
        out.append(digit_str(byte / 16));
        out.append(digit_str(byte % 16));
        proof {
            let shorter = hex_encode(bytes@.subrange(0, i as int));
            let longer = hex_encode(bytes@.subrange(0, i + 1));
            assert(longer =~= shorter + seq![hex_digit(byte / 16)] + seq![hex_digit(byte % 16)]);
            assert(out@ =~= old(out)@ + longer);
        }
        i += 1;
    }
    assert(bytes@.subrange(0, i as int) =~= bytes@);
}

/// The hexadecimal text of `bytes`.
pub fn to_hex(bytes: &[u8]) -> (text: String)
    ensures
        text@ == hex_encode(bytes@),
{
    let mut text = String::new();
    append_hex(&mut text, bytes);
    assert(text@ =~= hex_encode(bytes@));
    text
}

/// The value of the digit whose character code is `code`.
fn digit_value(code: u8) -> (value: Option<u8>)
    ensures
        value == hex_value(code as char),
{
    if code >= 48 && code <= 57 {
        Some(code - 48)
    } else if code >= 97 && code <= 102 {
        Some(code - 87)
    } else {
        None
    }
}

/// Reads hexadecimal text given as character codes.
pub fn parse_hex(text: &[u8]) -> (bytes: Option<Vec<u8>>)
    ensures
        match bytes {
            Some(v) => hex_decode(ascii_chars(text@)) == Some(v@),
            None => hex_decode(ascii_chars(text@)) is None,
        },
{
    let ghost chars = ascii_chars(text@);
    if text.len() % 2 != 0 {
        return None;
    }
    let mut out: Vec<u8> = Vec::new();
    let mut i: usize = 0;
    while i < text.len()
        invariant
            i <= text.len(),
            i % 2 == 0,
            text.len() % 2 == 0,
            chars == ascii_chars(text@),
            out@.len() == i / 2,
            forall|j: int| 0 <= j < i ==> hex_value(#[trigger] chars[j]) is Some,
            forall|k: int|
                0 <= k < i / 2 ==> #[trigger] out@[k] == (hex_value(chars[2 * k]).unwrap() * 16
                    + hex_value(chars[2 * k + 1]).unwrap()) as u8,
        decreases text.len() - i,
    {
        let high = digit_value(text[i]);
        let low = digit_value(text[i + 1]);
        match (high, low) {
            (Some(h), Some(l)) => {
                assert(chars[i as int] == text@[i as int] as char);
                assert(chars[i + 1] == text@[i + 1] as char);
                out.push(h * 16 + l);
            },
            _ => {
                assert(chars[i as int] == text@[i as int] as char);
                assert(chars[i + 1] == text@[i + 1] as char);
                assert(!is_hex_text(chars));
                return None;
            },
        }
        i += 2;
    }
    assert(is_hex_text(chars));
    assert(out@ =~= hex_decode(chars).unwrap());
    Some(out)
}

/// The byte string that `text` stands for, or `None` if it stands for none.
pub fn from_hex(text: &str) -> (bytes: Option<Vec<u8>>)
    ensures
        match bytes {
            Some(v) => hex_decode(text@) == Some(v@),
            None => hex_decode(text@) is None,
        },
{
    if !text.is_ascii() {
        proof {
            if is_hex_text(text@) {
                assert forall|i: int| 0 <= i < text@.len() implies '\0' <= #[trigger] text@[i]
                    <= '\u{7f}' by {
                    lemma_value_digit(text@[i]);
                }
            }
        }
        return None;
    }
    proof {
        lemma_ascii_bytes(text);
    }
    parse_hex(text.as_bytes())
}

} // verus!

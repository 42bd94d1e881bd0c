//! Hexadecimal text of byte strings.
use crate::keys::CompressedCommitment;
use tari_utilities::hex::from_hex;
use tari_utilities::hex::to_hex;
use vstd::prelude::*;
use vstd::utf8::encode_utf8;
use vstd::utf8::is_ascii_chars;

verus! {

/// The longest byte string that has a hexadecimal text.
pub const MAX_HEX_BYTES: usize = 262_144;

/// The lower-case hexadecimal digit of a value below sixteen.
pub open spec fn hex_digit(v: nat) -> char {
    if v < 10 {
        crate::text::decimal_digit(v)
    } else if v == 10 {
        'a'
    } else if v == 11 {
        'b'
    } else if v == 12 {
        'c'
    } else if v == 13 {
        'd'
    } else if v == 14 {
        'e'
    } else {
        'f'
    }
}

/// The hexadecimal text of a byte string: two digits for each byte, the high half first.
pub open spec fn hex_text(bytes: Seq<u8>) -> Seq<char> {
    Seq::new(
        2 * bytes.len(),
        |i: int|
            if i % 2 == 0 {
                hex_digit((bytes[i / 2] / 16) as nat)
            } else {
                hex_digit((bytes[i / 2] % 16) as nat)
            },
    )
}

/// Whether a character is white space.
pub open spec fn is_space(c: char) -> bool {
    let n = c as int;
    ||| 0x9 <= n <= 0xd
    ||| n == 0x20
    ||| n == 0x85
    ||| n == 0xa0
    ||| n == 0x1680
    ||| 0x2000 <= n <= 0x200a
    ||| 0x2028 <= n <= 0x2029
    ||| n == 0x202f
    ||| n == 0x205f
    ||| n == 0x3000
}

/// A text without white space at its start.
pub open spec fn trimmed_start(text: Seq<char>) -> Seq<char>
    decreases text.len(),
{
    if text.len() > 0 && is_space(text[0]) {
        trimmed_start(text.skip(1))
    } else {
        text
    }
}

/// A text without white space at its end.
pub open spec fn trimmed_end(text: Seq<char>) -> Seq<char>
    decreases text.len(),
{
    if text.len() > 0 && is_space(text.last()) {
        trimmed_end(text.drop_last())
    } else {
        text
    }
}

/// A text without white space around it.
pub open spec fn trimmed(text: Seq<char>) -> Seq<char> {
    trimmed_end(trimmed_start(text))
}

/// A text without the mark of hexadecimal numbers in front of it.
pub open spec fn without_mark(text: Seq<char>) -> Seq<char> {
    if text.len() >= 2 && text[0] == '0' && text[1] == 'x' {
        text.skip(2)
    } else {
        text
    }
}

/// The value of a hexadecimal digit, in upper or lower case.
pub open spec fn digit_value(c: char) -> Option<int> {
    if '0' <= c && c <= '9' {
        Some(c as int - '0' as int)
    } else if 'a' <= c && c <= 'f' {
        Some(10 + c as int - 'a' as int)
    } else if 'A' <= c && c <= 'F' {
        Some(10 + c as int - 'A' as int)
    } else {
        None
    }
}

/// The byte that the two characters at a position stand for: two digits, the high half first, or a plus sign and a digit.
pub open spec fn byte_at(text: Seq<char>, i: int) -> Option<u8> {
    match (digit_value(text[2 * i]), digit_value(text[2 * i + 1])) {
        (Some(high), Some(low)) => Some((16 * high + low) as u8),
        (None, Some(low)) => if text[2 * i] == '+' {
            Some(low as u8)
        } else {
            None
        },
        _ => None,
    }
}

/// What a hexadecimal text stands for: the bytes, or the words of the error. The text may have white space around it and
/// a mark in front. The first thing that is wrong decides: an odd length, a character that is not ASCII, a character
/// that is no digit.
pub open spec fn hex_decode(text: Seq<char>) -> Result<Seq<u8>, Seq<char>> {
    let digits = without_mark(trimmed(text));
    let n = digits.len() as int / 2;
    if encode_utf8(trimmed(text)).len() % 2 == 1 {
        Err("Hex string lengths must be a multiple of 2"@)
    } else if !is_ascii_chars(text) {
        Err("Invalid hex representation for the target type"@)
    } else if exists|i: int| 0 <= i < n && #[trigger] byte_at(digits, i) is None {
        Err("Only hexadecimal characters (0-9,a-f) are permitted"@)
    } else {
        Ok(Seq::new(n as nat, |i: int| byte_at(digits, i)->Some_0))
    }
}

/// The bytes or the words that a call of `decode` gives.
pub open spec fn decoded(r: Result<Vec<u8>, String>) -> Result<Seq<u8>, Seq<char>> {
    match r {
        Ok(bytes) => Ok(bytes@),
        Err(words) => Err(words@),
    }
}

/// Calls `tari_utilities::hex::to_hex`, which writes each byte as two lower-case digits in order.
/// Above `MAX_HEX_BYTES` it writes a notice in place of the digits, so such inputs are left out.
#[verifier::external_body]
pub(crate) fn encode(bytes: &[u8]) -> (text: String)
    requires
        bytes@.len() <= MAX_HEX_BYTES,
    ensures
        text@ == hex_text(bytes@),
{
    to_hex(bytes)
}

/// Calls `tari_utilities::hex::from_hex`, which trims the text, takes the mark away, and reads each pair of characters
/// as a number of base sixteen. The error is given as the text that its `Display` prints.
#[verifier::external_body]
pub(crate) fn decode(text: &str) -> (r: Result<Vec<u8>, String>)
    ensures
        decoded(r) == hex_decode(text@),
{
    from_hex(text).map_err(|e| e.to_string())
}

/// What a text stands for as a commitment: 32 bytes, or the words of the error.
pub open spec fn commitment_of(text: Seq<char>) -> Result<Seq<u8>, Seq<char>> {
    match hex_decode(text) {
        Ok(bytes) => if bytes.len() == 32 {
            Ok(bytes)
        } else {
            Err("Invalid hex representation for the target type"@)
        },
        Err(words) => Err(words),
    }
}

/// Thirty-two bytes as an array.
pub fn to_array(bytes: &[u8]) -> (array: [u8; 32])
    requires
        bytes@.len() == 32,
    ensures
        array@ == bytes@,
{
    let mut array = [0u8; 32];
    let mut i: usize = 0;
    while i < 32
        invariant
            i <= 32,
            bytes@.len() == 32,
            forall|j: int| 0 <= j < i ==> array@[j] == bytes@[j],
        decreases 32 - i,
    {
        array[i] = bytes[i];
        i += 1;
    }
    assert(array@ =~= bytes@);
    array
}

/// Reads a commitment.
pub fn commitment_from_hex(text: &str) -> (r: Result<CompressedCommitment, String>)
    ensures
        match r {
            Ok(commitment) => commitment_of(text@) == Ok::<Seq<u8>, Seq<char>>(commitment@),
            Err(words) => commitment_of(text@) == Err::<Seq<u8>, Seq<char>>(words@),
        },
{
    match decode(text) {
        Ok(bytes) => if bytes.len() == 32 {
            Ok(to_array(bytes.as_slice()))
        } else {
            Err("Invalid hex representation for the target type".to_owned())
        },
        Err(words) => Err(words),
    }
}

/// A digit tells its value, and is neither white space nor the second character of the mark.
proof fn lemma_hex_digit(v: nat)
    requires
        v < 16,
    ensures
        digit_value(hex_digit(v)) == Some(v as int),
        !is_space(hex_digit(v)),
        hex_digit(v) != 'x',
        (hex_digit(v) as int) < 128,
{
}

/// The characters of a hexadecimal text are digits.
proof fn lemma_hex_text_has_digits(bytes: Seq<u8>, i: int)
    requires
        0 <= i < 2 * bytes.len(),
    ensures
        digit_value(hex_text(bytes)[i]) is Some,
        !is_space(hex_text(bytes)[i]),
        hex_text(bytes)[i] != 'x',
        (hex_text(bytes)[i] as int) < 128,
{
    lemma_hex_digit((bytes[i / 2] / 16) as nat);
    lemma_hex_digit((bytes[i / 2] % 16) as nat);
}

/// What is written in hexadecimal is read back.
pub proof fn law_hex_text_is_read_back(bytes: Seq<u8>)
    ensures
        hex_decode(hex_text(bytes)) == Ok::<Seq<u8>, Seq<char>>(bytes),
{
    let text = hex_text(bytes);
    assert(text.len() == 2 * bytes.len());
    assert forall|i: int| 0 <= i < text.len() implies 0 <= (#[trigger] text[i]) as nat && (text[i] as nat) < 128 by {
        lemma_hex_text_has_digits(bytes, i);
    }
    if text.len() > 0 {
        lemma_hex_text_has_digits(bytes, 0);
        lemma_hex_text_has_digits(bytes, 1);
        lemma_hex_text_has_digits(bytes, text.len() - 1);
    }
    assert(trimmed(text) == text);
    assert(without_mark(text) == text);
    assert(is_ascii_chars(text));
    vstd::utf8::is_ascii_chars_encode_utf8(text);
    let n = text.len() as int / 2;
    assert(n == bytes.len());
    assert forall|i: int| 0 <= i < n implies #[trigger] byte_at(text, i) == Some(bytes[i]) by {
        let high = 2 * i;
        let low = 2 * i + 1;
        assert(high / 2 == i && high % 2 == 0 && low / 2 == i && low % 2 == 1);
        lemma_hex_digit((bytes[i] / 16) as nat);
        lemma_hex_digit((bytes[i] % 16) as nat);
        assert(text[high] == hex_digit((bytes[i] / 16) as nat));
        assert(text[low] == hex_digit((bytes[i] % 16) as nat));
    }
    assert(Seq::new(n as nat, |i: int| byte_at(text, i)->Some_0) =~= bytes);
}

/// The hexadecimal text tells the bytes: no two byte strings are written alike.
pub proof fn lemma_hex_text_is_injective(a: Seq<u8>, b: Seq<u8>)
    requires
        hex_text(a) == hex_text(b),
    ensures
        a == b,
{
    law_hex_text_is_read_back(a);
    law_hex_text_is_read_back(b);
}

/// A commitment is read exactly from texts that stand for 32 bytes, and it is those bytes. What is written of a commitment is
/// read back.
pub proof fn law_commitment_is_read_from_its_text(text: Seq<char>, bytes: Seq<u8>)
    ensures
        commitment_of(text) == Ok::<Seq<u8>, Seq<char>>(bytes) <==> hex_decode(text) == Ok::<Seq<u8>, Seq<char>>(bytes)
            && bytes.len() == 32,
        bytes.len() == 32 ==> commitment_of(hex_text(bytes)) == Ok::<Seq<u8>, Seq<char>>(bytes),
        bytes.len() != 32 ==> commitment_of(hex_text(bytes)) is Err,
        hex_decode(text) matches Err(words) ==> commitment_of(text) == Err::<Seq<u8>, Seq<char>>(words),
{
    law_hex_text_is_read_back(bytes);
}

} // verus!

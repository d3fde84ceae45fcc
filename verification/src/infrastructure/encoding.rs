//! Texts that stand for bytes: Base64 and hexadecimal.

use super::filesystem::MAX_PREVIEW_BYTES;
use crate::error::{ErrorModel, TransferError};
use crate::text::{characters, joined};
use base64::Engine;
use vstd::prelude::*;
use vstd::string::*;

verus! {

/// The error of the Base64 decoder.
#[verifier::external_type_specification]
#[verifier::external_body]
pub struct ExDecodeError(base64::DecodeError);

/// The padded standard Base64 text of some bytes.
pub uninterp spec fn base64_text(bytes: Seq<u8>) -> Seq<char>;

/// The bytes that a padded standard Base64 text stands for, if it is one.
pub uninterp spec fn base64_bytes(text: Seq<char>) -> Option<Seq<u8>>;

/// Whether the Base64 text of that many bytes can be allocated.
pub open spec fn base64_fits(length: nat) -> bool {
    (length + 2) / 3 * 4 <= isize::MAX
}

/// `Engine::encode` of the standard engine: the Base64 text of `bytes`, which
/// the same engine decodes to `bytes` again.
#[verifier::external_body]
pub(crate) fn base64_encode(bytes: &[u8]) -> (text: String)
    requires
        base64_fits(bytes@.len()),
    ensures
        text@ == base64_text(bytes@),
        base64_bytes(text@) == Some(bytes@),
{
    base64::engine::general_purpose::STANDARD.encode(bytes)
}

/// `Engine::decode` of the standard engine: the bytes that `text` stands for,
/// or an error where `text` is no padded standard Base64.
#[verifier::external_body]
pub(crate) fn base64_decode(text: &str) -> (result: Result<Vec<u8>, base64::DecodeError>)
    ensures
        match result {
            Ok(bytes) => base64_bytes(text@) == Some(bytes@),
            Err(_) => base64_bytes(text@) is None,
        },
{
    base64::engine::general_purpose::STANDARD.decode(text)
}

/// A public key as the text in which a peer record holds it.
pub fn encode_key(key: &[u8]) -> (text: String)
    requires
        base64_fits(key@.len()),
    ensures
        text@ == base64_text(key@),
        base64_bytes(text@) == Some(key@),
{
    base64_encode(key)
}

/// The public key that the text of a peer record stands for.
pub fn decode_key(value: &str) -> (result: Result<Vec<u8>, TransferError>)
    ensures
        match result {
            Ok(key) => base64_bytes(value@) == Some(key@),
            Err(error) => {
                &&& base64_bytes(value@) is None
                &&& error@ == ErrorModel::Invalid("invalid peer public key"@)
            },
        },
{
    match base64_decode(value) {
        Ok(key) => Ok(key),
        Err(_) => Err(TransferError::invalid("invalid peer public key")),
    }
}

/// The data URL of some bytes, given their Base64 text.
pub open spec fn url_text(media_type: Seq<char>, encoded: Seq<char>) -> Seq<char> {
    "data:"@ + media_type + ";base64,"@ + encoded
}

/// The data URL of some bytes, given their Base64 text.
pub fn data_url_text(media_type: &str, encoded: &str) -> (url: String)
    ensures
        url@ == url_text(media_type@, encoded@),
{
    joined("data:", media_type).concat(";base64,").concat(encoded)
}

/// A preview as a data URL, unless it is too large.
pub open spec fn data_url(media_type: Seq<char>, bytes: Seq<u8>) -> Option<Seq<char>> {
    if bytes.len() <= MAX_PREVIEW_BYTES {
        Some(url_text(media_type, base64_text(bytes)))
    } else {
        None
    }
}

/// A preview as a data URL, unless it is too large.
pub fn preview_data_url(media_type: &str, bytes: &[u8]) -> (url: Option<String>)
    ensures
        match url {
            Some(url) => data_url(media_type@, bytes@) == Some(url@),
            None => data_url(media_type@, bytes@) is None,
        },
{
    if bytes.len() > MAX_PREVIEW_BYTES {
        return None;
    }
    let encoded = base64_encode(bytes);
    Some(data_url_text(media_type, encoded.as_str()))
}

/// The lower-case hexadecimal digit of a number below sixteen.
pub open spec fn hex_digit(value: nat) -> char {
    if value < 10 {
        ('0' as nat + value) as char
    } else {
        ('a' as nat + value - 10) as char
    }
}

/// Bytes in hexadecimal, two digits each.
pub open spec fn hex_text(bytes: Seq<u8>) -> Seq<char>
    decreases bytes.len(),
{
    if bytes.len() == 0 {
        Seq::empty()
    } else {
        hex_text(bytes.drop_last()).push(hex_digit(bytes.last() as nat / 16)).push(
            hex_digit(bytes.last() as nat % 16),
        )
    }
}

/// What a hexadecimal digit of either case is worth.
pub open spec fn hex_value(character: char) -> Option<nat> {
    if '0' <= character <= '9' {
        Some((character as nat - '0' as nat) as nat)
    } else if 'a' <= character <= 'f' {
        Some((character as nat - 'a' as nat + 10) as nat)
    } else if 'A' <= character <= 'F' {
        Some((character as nat - 'A' as nat + 10) as nat)
    } else {
        None
    }
}

/// What two characters are worth together: two digits, or a digit behind a
/// plus sign.
pub open spec fn pair_value(first: char, second: char) -> Option<nat> {
    match hex_value(second) {
        Some(low) => match hex_value(first) {
            Some(high) => Some(16 * high + low),
            None => if first == '+' {
                Some(low)
            } else {
                None
            },
        },
        None => None,
    }
}

/// The bytes that a hexadecimal text stands for, if it is one.
pub open spec fn hex_bytes(text: Seq<char>) -> Option<Seq<u8>>
    decreases text.len(),
{
    if text.len() == 0 {
        Some(Seq::empty())
    } else if text.len() == 1 {
        None
    } else {
        match (
            hex_bytes(text.take(text.len() - 2)),
            pair_value(text[text.len() - 2], text[text.len() - 1]),
        ) {
            (Some(front), Some(value)) => Some(front.push(value as u8)),
            _ => None,
        }
    }
}

/// Bytes written in hexadecimal read back as the same bytes.
pub proof fn hex_reads_back(bytes: Seq<u8>)
    ensures
        hex_bytes(hex_text(bytes)) == Some(bytes),
    decreases bytes.len(),
{
    if bytes.len() > 0 {
        let text = hex_text(bytes);
        let front = bytes.drop_last();
        hex_reads_back(front);
        assert(text.take(text.len() - 2) =~= hex_text(front));
        assert(front.push(bytes.last()) =~= bytes);
    }
}

fn digit_of(value: u8) -> (character: char)
    requires
        value < 16,
    ensures
        character == hex_digit(value as nat),
{
    if value < 10 {
        (48 + value) as char
    } else {
        (87 + value) as char
    }
}

fn value_of(character: char) -> (value: Option<u8>)
    ensures
        match value {
            Some(value) => hex_value(character) == Some(value as nat) && value < 16,
            None => hex_value(character) is None,
        },
{
    if '0' <= character && character <= '9' {
        Some(character as u8 - 48)
    } else if 'a' <= character && character <= 'f' {
        Some(character as u8 - 87)
    } else if 'A' <= character && character <= 'F' {
        Some(character as u8 - 55)
    } else {
        None
    }
}

/// Bytes in hexadecimal, two lower-case digits each.
pub fn encode_hex(bytes: &[u8]) -> (text: String)
    ensures
        text@ == hex_text(bytes@),
{
    let mut text = String::new();
    let mut index: usize = 0;
    while index < bytes.len()
        invariant
            index <= bytes@.len(),
            text@ == hex_text(bytes@.take(index as int)),
        decreases bytes@.len() - index,
    {
        assert(bytes@.take(index + 1).drop_last() =~= bytes@.take(index as int));
        text.push(digit_of(bytes[index] / 16));
        text.push(digit_of(bytes[index] % 16));
        index += 1;
    }
    assert(bytes@.take(bytes@.len() as int) =~= bytes@);
    text
}

/// A text of an odd number of characters is no hexadecimal text.
proof fn hex_text_is_even(text: Seq<char>)
    ensures
        text.len() % 2 == 1 ==> hex_bytes(text) is None,
    decreases text.len(),
{
    if text.len() > 1 {
        hex_text_is_even(text.take(text.len() - 2));
    }
}

/// A text is hexadecimal only if every front part of even length is.
proof fn hex_front(text: Seq<char>, length: int)
    requires
        0 <= length <= text.len(),
        length % 2 == 0,
        text.len() % 2 == 0,
        hex_bytes(text.take(length)) is None,
    ensures
        hex_bytes(text) is None,
    decreases text.len(),
{
    if length == text.len() {
        assert(text.take(length) =~= text);
    } else {
        assert(text.take(text.len() - 2).take(length) =~= text.take(length));
        hex_front(text.take(text.len() - 2), length);
    }
}

/// The bytes that a hexadecimal text stands for.
pub fn decode_hex(value: &str) -> (result: Result<Vec<u8>, TransferError>)
    ensures
        match result {
            Ok(bytes) => hex_bytes(value@) == Some(bytes@),
            Err(error) => {
                &&& hex_bytes(value@) is None
                &&& error@ == ErrorModel::Invalid("invalid device certificate digest"@)
            },
        },
{
    let all = characters(value);
    if all.len() % 2 != 0 {
        proof {
            hex_text_is_even(value@);
        }
        return Err(TransferError::invalid("invalid device certificate digest"));
    }
    let mut bytes: Vec<u8> = Vec::new();
    let mut index: usize = 0;
    assert(all@.take(0) =~= Seq::<char>::empty());
    while index < all.len()
        invariant
            index <= all@.len(),
            index % 2 == 0,
            all@.len() % 2 == 0,
            all@ == value@,
            hex_bytes(all@.take(index as int)) == Some(bytes@),
        decreases all@.len() - index,
    {
        let first = all[index];
        let second = all[index + 1];
        proof {
            let next = all@.take(index + 2);
            assert(next.take(next.len() - 2) =~= all@.take(index as int));
            assert(next[next.len() - 2] == first && next[next.len() - 1] == second);
            if pair_value(first, second) is None {
                hex_front(all@, index + 2);
            }
        }
        let low = match value_of(second) {
            Some(low) => low,
            None => {
                return Err(TransferError::invalid("invalid device certificate digest"));
            },
        };
        let high = match value_of(first) {
            Some(high) => high,
            None => {
                if first != '+' {
                    return Err(TransferError::invalid("invalid device certificate digest"));
                }
                0
            },
        };
        bytes.push(16 * high + low);
        index += 2;
    }
    assert(all@.take(all@.len() as int) =~= all@);
    Ok(bytes)
}

/// Each byte is written as two of the digits `0` to `9` and `a` to `f`, the
/// higher half first.
pub proof fn bytes_are_written_digit_by_digit(bytes: Seq<u8>, byte: u8)
    ensures
        hex_text(Seq::empty()).len() == 0,
        hex_text(bytes).len() == 2 * bytes.len(),
        hex_text(bytes.push(byte)) == hex_text(bytes) + seq![
            "0123456789abcdef"@[byte as int / 16],
            "0123456789abcdef"@[byte as int % 16],
        ],
    decreases bytes.len(),
{
    reveal_strlit("0123456789abcdef");
    assert(bytes.push(byte).drop_last() =~= bytes);
    let digits = "0123456789abcdef"@;
    assert forall|value: nat| value < 16 implies #[trigger] hex_digit(value) == digits[value as int] by {
        assert(digits[0] == '0' && digits[1] == '1' && digits[2] == '2' && digits[3] == '3'
            && digits[4] == '4' && digits[5] == '5' && digits[6] == '6' && digits[7] == '7'
            && digits[8] == '8' && digits[9] == '9' && digits[10] == 'a' && digits[11] == 'b'
            && digits[12] == 'c' && digits[13] == 'd' && digits[14] == 'e' && digits[15] == 'f');
    }
    assert(hex_digit(byte as nat / 16) == digits[byte as int / 16]);
    assert(hex_digit(byte as nat % 16) == digits[byte as int % 16]);
    assert(hex_text(bytes.push(byte)) =~= hex_text(bytes) + seq![
        digits[byte as int / 16],
        digits[byte as int % 16],
    ]);
    if bytes.len() > 0 {
        let front = bytes.drop_last();
        bytes_are_written_digit_by_digit(front, bytes.last());
        assert(front.push(bytes.last()) =~= bytes);
    }
}

/// Two more digits stand for one more byte, sixteen times the first and the
/// second; a plus sign in place of the first is worth nothing. A text with
/// anything else, or of an odd length, stands for nothing.
pub proof fn digits_are_read_two_by_two(text: Seq<char>, first: char, second: char)
    ensures
        hex_bytes(Seq::empty()) == Some(Seq::<u8>::empty()),
        text.len() % 2 == 1 ==> hex_bytes(text) is None,
        hex_value(first) is Some && hex_value(second) is Some ==> match hex_bytes(text) {
            Some(bytes) => hex_bytes(text.push(first).push(second)) == Some(
                bytes.push((16 * hex_value(first)->0 + hex_value(second)->0) as u8),
            ),
            None => text.len() % 2 == 0 ==> hex_bytes(text.push(first).push(second)) is None,
        },
        hex_value(second) is None && text.len() % 2 == 0 ==> hex_bytes(
            text.push(first).push(second),
        ) is None,
        hex_value(first) is None && first != '+' && text.len() % 2 == 0 ==> hex_bytes(
            text.push(first).push(second),
        ) is None,
        hex_value(second) is Some ==> (hex_bytes(text) matches Some(bytes) ==> hex_bytes(
            text.push('+').push(second),
        ) == Some(bytes.push(hex_value(second)->0 as u8))),
{
    hex_text_is_even(text);
    let whole = text.push(first).push(second);
    assert(whole.take(whole.len() - 2) =~= text);
    let signed = text.push('+').push(second);
    assert(signed.take(signed.len() - 2) =~= text);
}

/// What a digit is worth: the digits from zero, the letters from ten, in either
/// case; nothing else is a digit.
pub proof fn digits_of_either_case_are_worth_the_same(character: char)
    ensures
        hex_value(character) == hex_value(crate::text::ascii_lower(character)),
        hex_value(character) matches Some(value) ==> value < 16 && hex_digit(value)
            == crate::text::ascii_lower(character),
        "0123456789abcdef"@.contains(crate::text::ascii_lower(character)) <==> hex_value(character)
            is Some,
{
    reveal_strlit("0123456789abcdef");
    crate::text::case_changes_letters_alone(character);
    let digits = "0123456789abcdef"@;
    let lower = crate::text::ascii_lower(character);
    assert(digits[0] == '0' && digits[1] == '1' && digits[2] == '2' && digits[3] == '3'
        && digits[4] == '4' && digits[5] == '5' && digits[6] == '6' && digits[7] == '7'
        && digits[8] == '8' && digits[9] == '9' && digits[10] == 'a' && digits[11] == 'b'
        && digits[12] == 'c' && digits[13] == 'd' && digits[14] == 'e' && digits[15] == 'f');
    if digits.contains(lower) {
        let place = choose|place: int| 0 <= place < digits.len() && digits[place] == lower;
        assert(0 <= place < 16);
    }
    if let Some(value) = hex_value(character) {
        assert(digits[value as int] == lower);
    }
}

/// A preview of at most 64 KiB is shown as a data URL: its media type, and its
/// bytes in Base64. A larger one is not shown.
pub proof fn small_previews_become_data_urls(media_type: Seq<char>, bytes: Seq<u8>)
    ensures
        data_url(media_type, bytes) is Some <==> bytes.len() <= 65536,
        data_url(media_type, bytes) matches Some(url) ==> url == "data:"@ + media_type
            + ";base64,"@ + base64_text(bytes),
{
}

} // verus!
